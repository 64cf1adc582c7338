pub mod analyzing;
pub mod breaking;
pub mod command_line;
pub mod convenience;
pub mod formatting;
pub mod parsing;
pub mod problem_building;
pub mod simplifying;
pub mod syntax;
pub mod syntax_tree;
pub mod translating;
pub mod verifying;
