pub mod graph;
pub mod private_recursion;
pub mod tightness;
