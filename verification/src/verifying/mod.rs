pub mod problem;
pub mod outline;
pub mod task;
pub mod prover;
