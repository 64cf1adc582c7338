pub mod asp;
