//! A chaos-game renderer of the Sierpinski triangle over an owned pixel buffer.
pub mod buffer;
pub mod chaos;
pub mod gradient;
pub mod session;
