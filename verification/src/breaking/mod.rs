pub mod fol;
