pub mod gpu;
pub mod ports;
pub mod process;
