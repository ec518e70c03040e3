//! A verified core of a NES picture processing unit (2C02).
//!
//! The crate models the CPU-visible register protocol with its write-order
//! toggles and read side effects, the 14-bit video address space with its
//! nametable and palette mirrors, and a frame-at-a-time renderer that
//! composes a scrolling tiled background with up to 64 hardware sprites.

pub mod addressable;
pub mod cartridge;
pub mod frame;
pub mod interrupt;
pub mod io_ports;
pub mod palette;
pub mod ppu;
pub mod ppu_memory_layout;
pub mod render;
pub mod vram;
