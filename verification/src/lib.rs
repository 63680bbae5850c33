//! A minimal bare-metal runtime core: a first-fit heap manager with block
//! splitting and coalescing, a cooperative task table with its dispatcher,
//! and the register arithmetic of the peripheral drivers around them.
//!
//! Every function works on plain values; touching memory-mapped hardware is
//! left to the embedding firmware.

pub mod gpio;
pub mod heap;
pub mod rcc;
pub mod task;
pub mod uart;
pub mod utils;
