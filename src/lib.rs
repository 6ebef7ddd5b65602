pub mod cpu;
pub mod handlers;
pub mod isa;
pub mod memory;
