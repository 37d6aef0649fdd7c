pub mod ip;
pub mod laws;
pub mod seq;
pub mod tcp;
