pub mod cpu;
pub mod draw;
pub mod error;
pub mod exec;
pub mod loader;
pub mod memory;
pub mod render;
