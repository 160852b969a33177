use ferr_os::proc::procd::Manager;
use ferr_os::proc::{ProcDetails, ProcManager, ProcStatus};
use ferr_os::util::iter::Chained;

#[test]
fn manager_gives_out_increasing_ids() {
    let mut m = Manager::new();
    assert_eq!(m.spawn_proc("PATH=/bin", "sh"), 0);
    assert_eq!(m.spawn_proc("", "init"), 1);
    assert!(m.procs_running().is_empty());
    assert!(m.proc_details(0).is_none());
    assert!(!m.is_running(1));
}

#[test]
fn details_report_their_fields() {
    let d = ProcDetails::new(3, "tty1", ProcStatus::Sleeping, "HOME=/", "ls", "/home");
    assert_eq!(d.pid(), 3);
    assert_eq!(d.tty(), "tty1");
    assert_eq!(d.status(), ProcStatus::Sleeping);
    assert_eq!(d.env(), "HOME=/");
    assert_eq!(d.cmd(), "ls");
    assert_eq!(d.cwd(), "/home");
}

#[test]
fn chained_reads_the_first_then_the_second() {
    let mut c = Chained::new(0..3, Some(5..7));
    let mut seen = Vec::new();
    while let Some(x) = c.next() {
        seen.push(x);
    }
    assert_eq!(seen, vec![0, 1, 2, 5, 6]);
    assert_eq!(c.next(), None);
}

#[test]
fn chained_without_a_second_ends_with_the_first() {
    let mut c: Chained<std::ops::Range<u8>, std::ops::Range<u8>> = Chained::new(4..6, None);
    assert_eq!(c.next(), Some(4));
    assert_eq!(c.next(), Some(5));
    assert_eq!(c.next(), None);
    assert_eq!(c.next(), None);
}

#[test]
fn default_manager_starts_at_zero() {
    let mut m = Manager::default();
    assert_eq!(m.spawn_proc("", "init"), 0);
}
