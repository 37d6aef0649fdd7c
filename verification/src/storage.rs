pub mod assembler;
pub mod laws;
pub mod managed;
pub mod ring_buffer;
