use qscan::enumerate::SockIter;
use qscan::ip::Ip;
use qscan::ports::ports_parse;
use qscan::probe::{probe_decide, run_probe, AttemptOutcome, ProbeStep};
use qscan::scanner::QScanner;
use qscan::scheduler::Scheduler;
use qscan::{PortState, ScanOutcome, ScanTask, Settlement};

fn v4(a: u8, b: u8, c: u8, d: u8) -> Ip {
    Ip::v4_from_octets(a, b, c, d)
}

/// Drives a whole run: seeds, settles in an order chosen by `pick`, refills
/// after each settlement, and classifies each task with `verdict`.
fn drive(
    mut sched: Scheduler,
    verdict: impl Fn(&ScanTask) -> Settlement,
    pick: impl Fn(usize, usize) -> usize,
    max_in_flight_seen: &mut usize,
) -> Result<Vec<ScanOutcome>, qscan::FatalScanError> {
    while sched.launch_next().is_some() {}
    let mut step = 0usize;
    while sched.in_flight_count() > 0 {
        let n = sched.in_flight_count();
        if n > *max_in_flight_seen {
            *max_in_flight_seen = n;
        }
        let idx = pick(step, n) % n;
        let task = sched.in_flight_task(idx);
        sched.settle(idx, verdict(&task));
        sched.launch_next();
        step += 1;
    }
    sched.finish()
}

#[test]
fn sockiter_port_major_order() {
    let a = v4(10, 0, 0, 1);
    let b = v4(10, 0, 0, 2);
    let mut it = SockIter::new(vec![a, b], vec![80, 443]);
    assert_eq!(it.next(), Some(ScanTask { ip: a, port: 80 }));
    assert_eq!(it.next(), Some(ScanTask { ip: b, port: 80 }));
    assert_eq!(it.next(), Some(ScanTask { ip: a, port: 443 }));
    assert_eq!(it.next(), Some(ScanTask { ip: b, port: 443 }));
    assert_eq!(it.next(), None);
    assert_eq!(it.next(), None);
}

#[test]
fn sockiter_empty_inputs() {
    let mut it = SockIter::new(vec![], vec![80]);
    assert_eq!(it.next(), None);
    let mut it = SockIter::new(vec![v4(10, 0, 0, 1)], vec![]);
    assert_eq!(it.next(), None);
}

#[test]
fn probe_decisions() {
    assert_eq!(
        probe_decide(3, 0, AttemptOutcome::Connected),
        ProbeStep::Settle(Settlement::Finished(PortState::Open))
    );
    assert_eq!(
        probe_decide(3, 0, AttemptOutcome::FatalResource),
        ProbeStep::Settle(Settlement::Fatal)
    );
    assert_eq!(probe_decide(3, 0, AttemptOutcome::Transient), ProbeStep::Retry);
    assert_eq!(probe_decide(3, 1, AttemptOutcome::Transient), ProbeStep::Retry);
    assert_eq!(
        probe_decide(3, 2, AttemptOutcome::Transient),
        ProbeStep::Settle(Settlement::Finished(PortState::Closed))
    );
}

#[test]
fn probe_exhausts_retries_then_closes() {
    let attempts = vec![AttemptOutcome::Transient; 5];
    let replay = run_probe(5, &attempts);
    assert_eq!(replay.attempts_used, 5);
    assert_eq!(replay.settlement, Settlement::Finished(PortState::Closed));
}

#[test]
fn probe_opens_after_first_success() {
    let attempts = vec![
        AttemptOutcome::Transient,
        AttemptOutcome::Transient,
        AttemptOutcome::Connected,
        AttemptOutcome::Transient,
        AttemptOutcome::Transient,
    ];
    let replay = run_probe(5, &attempts);
    assert_eq!(replay.attempts_used, 3);
    assert_eq!(replay.settlement, Settlement::Finished(PortState::Open));
}

#[test]
fn probe_fatal_cuts_retries_short() {
    let attempts = vec![
        AttemptOutcome::Transient,
        AttemptOutcome::FatalResource,
        AttemptOutcome::Transient,
    ];
    let replay = run_probe(3, &attempts);
    assert_eq!(replay.attempts_used, 2);
    assert_eq!(replay.settlement, Settlement::Fatal);
}

#[test]
fn scheduler_keeps_batch_ceiling() {
    // 3 addresses x 4 ports = 12 tasks, ceiling 3.
    let ips = vec![v4(10, 0, 0, 1), v4(10, 0, 0, 2), v4(10, 0, 0, 3)];
    let mut sched = Scheduler::new(ips, vec![80, 81, 82, 83], 3);
    let mut launched = 0;
    while sched.launch_next().is_some() {
        launched += 1;
        assert!(sched.in_flight_count() <= 3);
    }
    assert_eq!(launched, 3);
    let mut settled = 0;
    while sched.in_flight_count() > 0 {
        assert!(sched.in_flight_count() <= 3);
        sched.settle(0, Settlement::Finished(PortState::Closed));
        settled += 1;
        while sched.launch_next().is_some() {
            assert!(sched.in_flight_count() <= 3);
        }
    }
    assert_eq!(settled, 12);
    let res = sched.finish().unwrap();
    assert_eq!(res.len(), 12);
}

#[test]
fn fatal_settlement_halts_issuance() {
    let ips = vec![v4(10, 0, 0, 1)];
    let mut sched = Scheduler::new(ips, vec![1, 2, 3, 4, 5, 6, 7, 8, 9, 10], 2);
    while sched.launch_next().is_some() {}
    assert_eq!(sched.in_flight_count(), 2);
    sched.settle(0, Settlement::Fatal);
    assert!(sched.is_fatal());
    // No new probe may be issued, whatever targets remain.
    assert_eq!(sched.launch_next(), None);
    assert_eq!(sched.launch_next(), None);
    // The remaining probe drains; its verdict is still recorded.
    sched.settle(0, Settlement::Finished(PortState::Open));
    assert_eq!(sched.launch_next(), None);
    let err = sched.finish().unwrap_err();
    assert_eq!(err.batch, 2);
}

#[test]
fn full_scan_of_all_ports_finds_the_one_open() {
    let ports = ports_parse("1-65535").unwrap();
    assert_eq!(ports.len(), 65535);
    let scanner = QScanner::from_parts(vec![v4(127, 0, 0, 1)], ports, 1000, 50, 1).unwrap();
    let sched = scanner.into_scheduler();
    let verdict = |t: &ScanTask| {
        if t.port == 9999 {
            Settlement::Finished(PortState::Open)
        } else {
            Settlement::Finished(PortState::Closed)
        }
    };
    let mut peak = 0usize;
    let res = drive(sched, verdict, |step, _| step.wrapping_mul(31), &mut peak).unwrap();
    assert!(peak <= 1000);
    assert_eq!(res.len(), 65535);
    let open: Vec<&ScanOutcome> = res.iter().filter(|o| o.state == PortState::Open).collect();
    assert_eq!(open.len(), 1);
    assert_eq!(open[0].task, ScanTask { ip: v4(127, 0, 0, 1), port: 9999 });
    // Every port was classified exactly once.
    let mut seen = vec![false; 65536];
    for o in &res {
        assert!(!seen[o.task.port as usize]);
        seen[o.task.port as usize] = true;
    }
}

#[test]
fn same_configuration_classifies_identically() {
    let ips = vec![v4(10, 0, 0, 1), v4(10, 0, 0, 2)];
    let ports = ports_parse("1-200").unwrap();
    let verdict = |t: &ScanTask| {
        if t.port % 7 == 0 {
            Settlement::Finished(PortState::Open)
        } else {
            Settlement::Finished(PortState::Closed)
        }
    };
    let mut peak = 0usize;
    let s1 = Scheduler::new(ips.clone(), ports.clone(), 16);
    let mut r1 = drive(s1, verdict, |step, _| step, &mut peak).unwrap();
    let s2 = Scheduler::new(ips, ports, 16);
    let mut r2 = drive(s2, verdict, |step, n| n - 1 - (step % n), &mut peak).unwrap();
    // Completion orders differ; the classification does not.
    r1.sort();
    r2.sort();
    assert_eq!(r1, r2);
}
