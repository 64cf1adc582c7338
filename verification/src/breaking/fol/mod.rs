pub mod ht;
