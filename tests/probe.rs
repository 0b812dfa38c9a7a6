use deathrip::{AxisProbe, ProbeOutcome, classify};

/// Answers of an endpoint where indices 1..=k exist, `k + 1` fails with a
/// server fault where `fault_at_end` holds, and every later index is absent.
fn answer(index: usize, k: usize, fault_at_end: bool) -> ProbeOutcome<&'static str> {
    if index <= k {
        ProbeOutcome::Found
    } else if index == k + 1 && fault_at_end {
        ProbeOutcome::Failed("server fault")
    } else {
        ProbeOutcome::Boundary
    }
}

/// Runs `workers` workers against the endpoint. All workers claim first; the
/// outcomes are then reported in the order given by `reverse`, and the
/// workers that go on claim again, until all have stopped.
fn run(workers: usize, k: usize, fault_at_end: bool, reverse: bool) -> Result<usize, &'static str> {
    let mut probe = AxisProbe::new();
    let mut pending: Vec<usize> = Vec::new();
    for _ in 0..workers {
        pending.push(probe.claim().unwrap());
    }
    while !pending.is_empty() {
        if reverse {
            pending.reverse();
        }
        let mut next = Vec::new();
        for index in pending {
            if probe.report(index, answer(index, k, fault_at_end)) {
                next.push(probe.claim().unwrap());
            }
        }
        pending = next;
    }
    probe.finish()
}

#[test]
fn probe_finds_extent_for_every_worker_count() {
    for k in [0usize, 1, 3, 7] {
        for workers in 1..=k + 5 {
            assert_eq!(run(workers, k, false, false), Ok(k));
            assert_eq!(run(workers, k, false, true), Ok(k));
        }
    }
}

#[test]
fn probe_reports_fault_after_successes() {
    for workers in 1..=9 {
        assert_eq!(run(workers, 4, true, false), Err("server fault"));
        assert_eq!(run(workers, 4, true, true), Err("server fault"));
    }
}

#[test]
fn fault_is_never_replaced_by_a_boundary() {
    let mut probe: AxisProbe<&str> = AxisProbe::new();
    for expected in 1..=3usize {
        assert_eq!(probe.claim(), Some(expected));
    }
    assert!(!probe.report(2, ProbeOutcome::Failed("fault")));
    assert!(!probe.report(1, ProbeOutcome::Boundary));
    assert!(!probe.report(3, ProbeOutcome::Failed("later fault")));
    assert_eq!(probe.finish(), Err("fault"));
}

#[test]
fn boundary_only_tightens() {
    let mut probe: AxisProbe<()> = AxisProbe::new();
    for _ in 0..9 {
        probe.claim();
    }
    assert!(probe.report(3, ProbeOutcome::Found));
    assert!(!probe.report(7, ProbeOutcome::Boundary));
    assert!(!probe.report(5, ProbeOutcome::Boundary));
    assert!(!probe.report(9, ProbeOutcome::Boundary));
    assert_eq!(probe.finish(), Ok(4));
}

#[test]
fn count_is_limit_plus_one() {
    // indices 1 to 4 exist, 5 is the first absent one: cells 0 to 4
    let mut probe: AxisProbe<()> = AxisProbe::new();
    for index in 1..=5usize {
        assert_eq!(probe.claim(), Some(index));
        let outcome = if index <= 4 { ProbeOutcome::Found } else { ProbeOutcome::Boundary };
        assert_eq!(probe.report(index, outcome), index <= 4);
    }
    assert_eq!(probe.finish_count(), Ok(5));
}

#[test]
fn count_of_boundary_at_first_index() {
    let mut probe: AxisProbe<()> = AxisProbe::new();
    assert_eq!(probe.claim(), Some(1));
    probe.report(1, ProbeOutcome::Boundary);
    assert_eq!(probe.finish_count(), Ok(1));
}

#[test]
fn probe_without_workers() {
    let probe: AxisProbe<()> = AxisProbe::new();
    assert_eq!(probe.finish(), Ok(usize::MAX - 1));
}

#[test]
fn classify_responses() {
    assert!(matches!(classify::<&str>(Ok(()), None), ProbeOutcome::Found));
    assert!(matches!(classify(Err("e"), Some(404)), ProbeOutcome::Boundary));
    assert!(matches!(classify(Err("e"), Some(400)), ProbeOutcome::Boundary));
    assert!(matches!(classify(Err("e"), Some(499)), ProbeOutcome::Boundary));
    assert!(matches!(classify(Err("e"), Some(500)), ProbeOutcome::Failed("e")));
    assert!(matches!(classify(Err("e"), Some(399)), ProbeOutcome::Failed("e")));
    assert!(matches!(classify(Err("e"), None), ProbeOutcome::Failed("e")));
}
