//! The default process manager.

use vstd::prelude::*;
use crate::proc::{pids_of, ProcDetails, ProcManager, PID};

verus! {

/// The largest number of processes that may be spawned.
pub const MAX_PROCS: usize = 255;

/// Manages the processes on the system through a table of `MAX_PROCS`
/// slots, and gives out identifiers in increasing order.
pub struct Manager<'a> {
    procs: Vec<Option<ProcDetails<'a>>>,
    head: usize,
}

impl<'a> Manager<'a> {
    pub closed spec fn wf(&self) -> bool {
        self.procs@.len() == MAX_PROCS
    }

    /// A manager whose table is empty and whose first identifier is 0.
    pub fn new() -> (r: Manager<'a>)
        ensures
            r.wf(),
            r.next_pid() == 0,
            r.slots() == Seq::new(MAX_PROCS as nat, |i: int| None::<ProcDetails<'a>>),
    {
        let mut procs: Vec<Option<ProcDetails<'a>>> = Vec::new();
        let mut i: usize = 0;
        while i < MAX_PROCS
            invariant
                i <= MAX_PROCS,
                procs@.len() == i,
                forall|j: int| 0 <= j < i ==> procs@[j] is None,
            decreases MAX_PROCS - i,
        {
            procs.push(None);
            i = i + 1;
        }
        let r = Manager { procs, head: 0 };
        assert(r.slots() =~= Seq::new(MAX_PROCS as nat, |i: int| None::<ProcDetails<'a>>));
        r
    }
}

impl<'a> Default for Manager<'a> {
    fn default() -> (r: Manager<'a>)
        ensures
            r.wf(),
            r.next_pid() == 0,
            r.slots() == Seq::new(MAX_PROCS as nat, |i: int| None::<ProcDetails<'a>>),
    {
        Manager::new()
    }
}

impl<'a> ProcManager<'a> for Manager<'a> {
    closed spec fn next_pid(&self) -> PID {
        self.head
    }

    closed spec fn slots(&self) -> Seq<Option<ProcDetails<'a>>> {
        self.procs@
    }

    closed spec fn can_spawn(&self) -> bool {
        self.head < usize::MAX
    }

    fn spawn_proc(&mut self, env: &'a str, cmd: &'a str) -> (r: PID) {
        let pid = self.head;
        self.head = self.head + 1;
        pid
    }

    fn procs_running(&self) -> (r: Vec<PID>) {
        let mut pids: Vec<PID> = Vec::new();
        let mut i: usize = 0;
        while i < self.procs.len()
            invariant
                i <= self.procs@.len(),
                pids@ == pids_of(self.procs@.take(i as int)),
            decreases self.procs@.len() - i,
        {
            proof {
                assert(self.procs@.take(i + 1).drop_last() =~= self.procs@.take(i as int));
            }
            match &self.procs[i] {
                Some(d) => pids.push(d.pid()),
                None => {},
            }
            i = i + 1;
        }
        proof {
            assert(self.procs@.take(i as int) =~= self.procs@);
        }
        pids
    }

    fn proc_details(&self, proc: PID) -> (r: Option<ProcDetails<'a>>) {
        None
    }
}

} // verus!
