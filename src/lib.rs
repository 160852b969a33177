//! Text-mode display driver of a small kernel: a colour model, a character
//! grid with a cursor, an interpreter for embedded colour escape sequences,
//! and the slot through which the kernel reaches its current console.

pub mod drivers;
pub mod osattrs;
pub mod proc;
pub mod util;
