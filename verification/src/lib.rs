//! Emulated SCPH-1001 PlayStation: devices, CPU and bus as a host-window-free library.
pub mod bios;
pub mod bits;
pub mod bus;
pub mod capture;
pub mod clock;
pub mod cdrom;
pub mod config;
pub mod cpu;
pub mod cue;
pub mod cop0;
pub mod disc;
pub mod dma;
pub mod display;
pub mod fixed;
pub mod gpu;
pub mod gte;
pub mod irq;
pub mod joy;
pub mod machine;
pub mod raster;
pub mod spu;
pub mod texcache;
pub mod xa;
pub mod timers;
pub mod voice;

pub use display::{cycles_in_nanos, DisplayArea, CPU_HZ, CYCLES_PER_LINE, LINES_PER_FRAME};

