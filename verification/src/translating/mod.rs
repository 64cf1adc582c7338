pub mod completion;
pub mod gamma;
pub mod ordered_completion;
pub mod shorthand;
pub mod tau_star;
