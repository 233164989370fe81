//! Timing kernel of a handheld console: a cycle-accurate event scheduler
//! driving DMA transfers, display timing and audio channel stepping.

pub mod display;
pub mod dma;
pub mod hw;
pub mod mmu;
pub mod scheduler;
pub mod spu;
