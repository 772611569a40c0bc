//! Device models for a small virtual machine: a serial console (UART) with
//! single-slot input delivery and interrupt signaling, and a byte-addressable
//! pixel framebuffer with a packed display representation.

pub mod framebuffer;
pub mod uart;
