//! Small general-purpose helpers.

pub mod iter;
