pub mod equivalence_break;
pub mod sets;
pub mod unbox;
pub mod text;
pub mod with_warnings;
pub mod apply;
