//! Text output core of a minimal kernel: a fixed-size character surface,
//! a cursor-tracking writer with line wrap and scrolling, and the laws that
//! the writer obeys.

pub mod laws;
pub mod vga_buffer;
