pub mod cpu;
pub mod util;
