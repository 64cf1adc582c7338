pub mod asp;
pub mod asp_ops;
pub mod fol;
pub mod fol_ops;
pub mod placeholders;
