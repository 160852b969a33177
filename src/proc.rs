//! What the kernel knows of the processes running on it.

use vstd::prelude::*;

pub mod procd;

verus! {

/// A unique identifier attached to each process on the system.
pub type PID = usize;

/// The state of a process.
#[derive(Clone, Copy, Debug, PartialEq, Eq, Structural)]
pub enum ProcStatus {
    Running,
    Sleeping,
    SleepingUnint,
    Dead,
}

/// Details of a process running on the system.
pub struct ProcDetails<'a> {
    pid: PID,
    tty: &'a str,
    status: ProcStatus,
    // Environment variables.
    env: &'a str,
    // Command run.
    cmd: &'a str,
    // Working directory.
    cwd: &'a str,
}

impl<'a> ProcDetails<'a> {
    pub closed spec fn spec_pid(&self) -> PID {
        self.pid
    }

    pub closed spec fn spec_tty(&self) -> Seq<char> {
        self.tty@
    }

    pub closed spec fn spec_status(&self) -> ProcStatus {
        self.status
    }

    pub closed spec fn spec_env(&self) -> Seq<char> {
        self.env@
    }

    pub closed spec fn spec_cmd(&self) -> Seq<char> {
        self.cmd@
    }

    pub closed spec fn spec_cwd(&self) -> Seq<char> {
        self.cwd@
    }

    /// The details of process `pid`.
    pub fn new(
        pid: PID,
        tty: &'a str,
        status: ProcStatus,
        env: &'a str,
        cmd: &'a str,
        cwd: &'a str,
    ) -> (r: ProcDetails<'a>)
        ensures
            r.spec_pid() == pid,
            r.spec_tty() == tty@,
            r.spec_status() == status,
            r.spec_env() == env@,
            r.spec_cmd() == cmd@,
            r.spec_cwd() == cwd@,
    {
        ProcDetails { pid, tty, status, env, cmd, cwd }
    }

    pub fn pid(&self) -> (r: PID)
        ensures
            r == self.spec_pid(),
    {
        self.pid
    }

    pub fn tty(&self) -> (r: &str)
        ensures
            r@ == self.spec_tty(),
    {
        self.tty
    }

    pub fn status(&self) -> (r: ProcStatus)
        ensures
            r == self.spec_status(),
    {
        self.status
    }

    pub fn env(&self) -> (r: &str)
        ensures
            r@ == self.spec_env(),
    {
        self.env
    }

    pub fn cmd(&self) -> (r: &str)
        ensures
            r@ == self.spec_cmd(),
    {
        self.cmd
    }

    pub fn cwd(&self) -> (r: &str)
        ensures
            r@ == self.spec_cwd(),
    {
        self.cwd
    }
}

/// The identifiers of the processes in `slots`, in slot order.
pub open spec fn pids_of(slots: Seq<Option<ProcDetails>>) -> Seq<PID>
    decreases slots.len(),
{
    if slots.len() == 0 {
        Seq::empty()
    } else {
        let rest = pids_of(slots.drop_last());
        match slots.last() {
            Some(d) => rest.push(d.spec_pid()),
            None => rest,
        }
    }
}

/// A system that starts processes and tells what runs.
pub trait ProcManager<'a> {
    /// The identifier that the next process started gets.
    spec fn next_pid(&self) -> PID;

    /// The table of processes.
    spec fn slots(&self) -> Seq<Option<ProcDetails<'a>>>;

    /// Whether a slot of the table holds process `proc`.
    open spec fn holds(&self, proc: PID) -> bool {
        exists|i: int|
            0 <= i < self.slots().len() && #[trigger] self.slots()[i] is Some
                && self.slots()[i]->0.spec_pid() == proc
    }

    /// Whether another process can be given an identifier.
    spec fn can_spawn(&self) -> bool;

    /// Starts a process that runs `cmd` with environment `env`, and returns
    /// its identifier.
    fn spawn_proc(&mut self, env: &'a str, cmd: &'a str) -> (r: PID)
        requires
            old(self).can_spawn(),
        ensures
            r == old(self).next_pid(),
            final(self).next_pid() == r + 1,
            final(self).slots() == old(self).slots(),
    ;

    /// The identifiers of the processes running now, in table order.
    fn procs_running(&self) -> (r: Vec<PID>)
        ensures
            r@ == pids_of(self.slots()),
    ;

    /// The details of process `proc`, or `None` where it is not known:
    /// details come only from a slot of the table that holds that process.
    fn proc_details(&self, proc: PID) -> (r: Option<ProcDetails<'a>>)
        ensures
            r is Some ==> r->0.spec_pid() == proc && self.holds(proc),
    ;

    /// Whether process `proc` is known to run: only where a slot of the
    /// table holds it.
    fn is_running(&self, proc: PID) -> (r: bool)
        ensures
            r ==> self.holds(proc),
    {
        self.proc_details(proc).is_some()
    }
}

} // verus!
