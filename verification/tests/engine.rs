use livecap::dispatch::plan_cycle;
use livecap::dispatch::run_cycle;
use livecap::job::CaptureJob;
use livecap::locks::LockSet;
use livecap::registry::read_registry;
use livecap::registry::Registry;
use livecap::registry::Source;

fn source(id: &str, addr: &str) -> Source {
    Source { id: id.to_string(), addr: addr.to_string() }
}

fn registry(pairs: &[(&str, &str)]) -> Registry {
    Registry { entries: pairs.iter().map(|p| source(p.0, p.1)).collect() }
}

fn ids(dispatched: &[Source]) -> Vec<String> {
    dispatched.iter().map(|s| s.id.clone()).collect()
}

#[test]
fn idempotent_dispatch_skips_locked_source() {
    let mut locks = LockSet::new();
    locks.acquire(&"alice".to_string());
    let reg = registry(&[("alice", "https://a"), ("bob", "https://b")]);
    let dispatched = run_cycle(&mut locks, &reg, &vec![true, true]);
    assert_eq!(ids(&dispatched), vec!["bob".to_string()]);
}

#[test]
fn released_source_is_redispatched() {
    let mut locks = LockSet::new();
    let reg = registry(&[("alice", "https://a")]);
    let first = run_cycle(&mut locks, &reg, &vec![true]);
    assert_eq!(ids(&first), vec!["alice".to_string()]);
    let job = CaptureJob::prepare("alice", "https://a", "../videos", "2024-01-02_03-04-05");
    job.finish(&mut locks, true);
    let second = run_cycle(&mut locks, &reg, &vec![true]);
    assert_eq!(ids(&second), vec!["alice".to_string()]);
}

#[test]
fn recovery_clears_every_marker() {
    let mut locks = LockSet::new();
    locks.acquire(&"alice".to_string());
    locks.acquire(&"bob".to_string());
    locks.clear_all();
    assert!(!locks.is_locked(&"alice".to_string()));
    assert!(!locks.is_locked(&"bob".to_string()));
}

#[test]
fn lock_released_whatever_the_outcome() {
    for &outcome in &[false, true] {
        let mut locks = LockSet::new();
        locks.acquire(&"alice".to_string());
        let job = CaptureJob::prepare("alice", "https://a", "../videos", "2024-01-02_03-04-05");
        job.finish(&mut locks, outcome);
        assert!(!locks.is_locked(&"alice".to_string()));
    }
}

#[test]
fn one_failed_acquisition_leaves_others_dispatched() {
    let mut locks = LockSet::new();
    let reg = registry(&[("a", "https://a"), ("b", "https://b"), ("c", "https://c")]);
    let dispatched = run_cycle(&mut locks, &reg, &vec![true, false, true]);
    assert_eq!(ids(&dispatched), vec!["a".to_string(), "c".to_string()]);
    assert!(locks.is_locked(&"a".to_string()));
    assert!(!locks.is_locked(&"b".to_string()));
    assert!(locks.is_locked(&"c".to_string()));
}

#[test]
fn single_source_cycle_end_to_end() {
    let reg = read_registry("{\"alice\": \"https://x/stream-42_abc\"}").unwrap();
    assert_eq!(reg.entries.len(), 1);
    let mut locks = LockSet::new();
    let dispatched = run_cycle(&mut locks, &reg, &vec![true]);
    assert_eq!(dispatched.len(), 1);
    assert_eq!(dispatched[0].id, "alice");
    assert_eq!(dispatched[0].addr, "https://x/stream-42_abc");
    assert!(locks.is_locked(&"alice".to_string()));
    let job = CaptureJob::prepare(
        &dispatched[0].id,
        &dispatched[0].addr,
        "../videos",
        "2024-01-02_03-04-05",
    );
    assert_eq!(job.session_id, "42");
    assert_eq!(job.address, "https://x/stream-42_abc");
    // The marker goes away on job exit whatever the executor reported.
    job.finish(&mut locks, false);
    assert!(!locks.is_locked(&"alice".to_string()));
}

#[test]
fn unchanged_registry_second_cycle_idle() {
    let mut locks = LockSet::new();
    let reg = registry(&[("alice", "https://a")]);
    let first = run_cycle(&mut locks, &reg, &vec![true]);
    assert_eq!(first.len(), 1);
    let second = run_cycle(&mut locks, &reg, &vec![true]);
    assert_eq!(second.len(), 0);
}

#[test]
fn parse_error_aborts_cycle() {
    let r = read_registry("{ this is not a registry");
    assert!(r.is_err());
}

#[test]
fn two_stale_markers_cleared_before_first_cycle() {
    let mut locks = LockSet::new();
    // Markers left behind by a prior process instance.
    locks.acquire(&"alice".to_string());
    locks.acquire(&"bob".to_string());
    // Startup recovery runs before the first cycle evaluates either source.
    locks.clear_all();
    let reg = registry(&[("alice", "https://a"), ("bob", "https://b")]);
    let dispatched = run_cycle(&mut locks, &reg, &vec![true, true]);
    assert_eq!(ids(&dispatched), vec!["alice".to_string(), "bob".to_string()]);
}

#[test]
fn planning_takes_no_markers() {
    let mut locks = LockSet::new();
    locks.acquire(&"alice".to_string());
    let reg = registry(&[("alice", "https://a"), ("bob", "https://b")]);
    let plan = plan_cycle(&locks, &reg);
    assert_eq!(ids(&plan), vec!["bob".to_string()]);
    assert!(!locks.is_locked(&"bob".to_string()));
}

#[test]
fn acquire_twice_holds_one_marker() {
    let mut locks = LockSet::new();
    locks.acquire(&"alice".to_string());
    locks.acquire(&"alice".to_string());
    assert!(locks.is_locked(&"alice".to_string()));
    locks.release(&"alice".to_string());
    assert!(!locks.is_locked(&"alice".to_string()));
}

#[test]
fn release_of_absent_marker_is_harmless() {
    let mut locks = LockSet::new();
    locks.acquire(&"alice".to_string());
    locks.release(&"bob".to_string());
    assert!(locks.is_locked(&"alice".to_string()));
    assert!(!locks.is_locked(&"bob".to_string()));
}
