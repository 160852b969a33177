//! Character output devices.

pub mod vgat_out;
pub mod ansi;

use vstd::prelude::*;
use crate::drivers::io::vgat_out::{Screen, VgatOut};

verus! {

/// The error type of `core::fmt`, which writing to a console never returns.
#[verifier::external_type_specification]
#[verifier::external_body]
pub struct ExFmtError(core::fmt::Error);

/// What dispatching the text `cs` leaves in a slot holding `slot`: nothing
/// when it is empty, else the console as writing `cs` to it leaves it.
pub open spec fn dispatched(slot: Option<Screen>, w: nat, h: nat, cs: Seq<char>) -> Option<Screen> {
    match slot {
        Some(screen) => Some(screen.written(w, h, cs)),
        None => None,
    }
}

/// The slot through which the whole kernel reaches its current console. It
/// holds at most one console; text dispatched while it is empty is dropped.
pub struct Registry<const W: usize, const H: usize> {
    slot: Option<VgatOut<W, H>>,
}

impl<const W: usize, const H: usize> View for Registry<W, H> {
    type V = Option<Screen>;

    closed spec fn view(&self) -> Option<Screen> {
        match self.slot {
            Some(out) => Some(out@),
            None => None,
        }
    }
}

impl<const W: usize, const H: usize> Registry<W, H> {
    pub closed spec fn wf(&self) -> bool {
        match self.slot {
            Some(out) => out.wf(),
            None => true,
        }
    }

    /// An empty slot.
    pub fn new() -> (r: Registry<W, H>)
        ensures
            r.wf(),
            r@ is None,
    {
        Registry { slot: None }
    }

    /// Installs `out` as the current console, dropping the one installed
    /// before, if any.
    pub fn install(&mut self, out: VgatOut<W, H>)
        requires
            out.wf(),
        ensures
            final(self).wf(),
            final(self)@ == Some(out@),
    {
        self.slot = Some(out);
    }

    /// Removes the current console; text dispatched after is dropped.
    pub fn clear(&mut self)
        ensures
            final(self).wf(),
            final(self)@ is None,
    {
        self.slot = None;
    }

    /// Whether a console is installed.
    pub fn is_installed(&self) -> (r: bool)
        ensures
            r == self@ is Some,
    {
        self.slot.is_some()
    }

    /// Writes `s` to the current console, or drops it when none is
    /// installed. Always succeeds.
    pub fn dispatch(&mut self, s: &str) -> (r: Result<(), core::fmt::Error>)
        requires
            old(self).wf(),
        ensures
            final(self).wf(),
            final(self)@ == dispatched(old(self)@, W as nat, H as nat, s@),
            r is Ok,
    {
        match &mut self.slot {
            Some(out) => out.write_str(s),
            None => Ok(()),
        }
    }

    /// The current console, given up by the slot, which is left empty.
    pub fn take(&mut self) -> (r: Option<VgatOut<W, H>>)
        requires
            old(self).wf(),
        ensures
            final(self).wf(),
            final(self)@ is None,
            match r {
                Some(out) => out.wf() && old(self)@ == Some(out@),
                None => old(self)@ is None,
            },
    {
        self.slot.take()
    }
}

/// Dispatching to an empty slot leaves it empty; dispatching to a slot that
/// holds a console leaves the console as writing the same text to it
/// directly does.
pub proof fn lemma_dispatch_is_direct_write(
    screen: Screen,
    w: nat,
    h: nat,
    cs: Seq<char>,
)
    ensures
        dispatched(None, w, h, cs) == None::<Screen>,
        dispatched(Some(screen), w, h, cs) == Some(screen.written(w, h, cs)),
{
}

} // verus!
pub mod lemmas;
