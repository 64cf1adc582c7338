pub mod arguments;
pub mod files;
