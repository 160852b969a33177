//! Fixed attributes of the kernel.

use vstd::prelude::*;

verus! {

/// The line printed when the kernel starts.
pub const FERROS_BANNER: &'static str = "== F3RR0S v0.1.0 by Dowland Zaldivar Aiello <3 ==";

/// The number of terminals opened at start-up.
pub const N_TTYS: u8 = 7;

/// The number of threads the scheduler uses.
pub const N_SCHEDULER_THREADS: u16 = 1;

} // verus!
