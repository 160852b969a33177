//! Device drivers.

pub mod io;
