use rpc_fetch::gate::{Gate, GateEvent, GateStatus};
use rpc_fetch::rate::RateLimit;

fn quota() -> RateLimit {
    RateLimit { requests: 10, per_ms: 1000 }
}

#[test]
fn gate_without_limits_admits_at_once() {
    let a = Gate::new(None, None).acquire();
    assert_eq!(a.status, GateStatus::Admitted);
    assert!(a.is_admitted());
    assert!(!a.holds_permit);
    let b = Gate::open().acquire();
    assert!(b.is_admitted());
}

#[test]
fn gate_with_both_limits_takes_permit_then_token() {
    let mut a = Gate::new(Some(4), Some(quota())).acquire();
    assert_eq!(a.status, GateStatus::AwaitingPermit);
    assert!(!a.holds_permit);
    a.on_event(GateEvent::TokenReady);
    assert_eq!(a.status, GateStatus::AwaitingPermit);
    a.on_event(GateEvent::PermitGranted);
    assert_eq!(a.status, GateStatus::AwaitingToken);
    assert!(a.holds_permit);
    a.on_event(GateEvent::PermitGranted);
    assert_eq!(a.status, GateStatus::AwaitingToken);
    a.on_event(GateEvent::TokenReady);
    assert_eq!(a.status, GateStatus::Admitted);
    assert!(a.holds_permit);
    assert!(a.release());
    assert_eq!(a.status, GateStatus::Released);
    assert!(!a.holds_permit);
    assert!(!a.release());
}

#[test]
fn gate_with_rate_limit_only_holds_no_permit() {
    let mut a = Gate::new(None, Some(quota())).acquire();
    assert_eq!(a.status, GateStatus::AwaitingToken);
    a.on_event(GateEvent::TokenReady);
    assert_eq!(a.status, GateStatus::Admitted);
    assert!(!a.holds_permit);
    assert!(!a.release());
}

#[test]
fn gate_with_concurrency_limit_only_skips_the_token() {
    let mut a = Gate::new(Some(1), None).acquire();
    assert_eq!(a.status, GateStatus::AwaitingPermit);
    a.on_event(GateEvent::PermitGranted);
    assert_eq!(a.status, GateStatus::Admitted);
    assert!(a.holds_permit);
}

#[test]
fn closed_permit_source_ends_the_passage() {
    let mut a = Gate::new(Some(1), Some(quota())).acquire();
    a.on_event(GateEvent::PermitSourceClosed);
    assert_eq!(a.status, GateStatus::Closed);
    assert!(!a.holds_permit);
    a.on_event(GateEvent::PermitGranted);
    a.on_event(GateEvent::TokenReady);
    assert_eq!(a.status, GateStatus::Closed);
    assert!(!a.is_admitted());
}

#[test]
fn cancelled_rate_wait_gives_the_permit_back() {
    let mut a = Gate::new(Some(2), Some(quota())).acquire();
    a.on_event(GateEvent::PermitGranted);
    assert_eq!(a.status, GateStatus::AwaitingToken);
    assert!(a.release());
    a.on_event(GateEvent::TokenReady);
    assert_eq!(a.status, GateStatus::Released);
    assert!(!a.is_admitted());
    assert!(!a.holds_permit);
}

#[test]
fn spacing_is_the_span_over_the_quota_rounded_up() {
    assert_eq!(RateLimit::new(10, 1000).spacing_ns(), Some(100_000_000));
    assert_eq!(RateLimit::new(3, 1000).spacing_ns(), Some(333_333_334));
    assert_eq!(RateLimit::new(1, 1).spacing_ns(), Some(1_000_000));
    assert_eq!(RateLimit::new(u32::MAX, 1).spacing_ns(), Some(1));
    assert_eq!(RateLimit::new(7, 2).spacing_ns(), Some(285_715));
}

#[test]
fn spacing_of_a_quota_that_cannot_be_held() {
    assert_eq!(RateLimit::new(0, 1000).spacing_ns(), None);
    assert_eq!(RateLimit::new(5, 0).spacing_ns(), None);
    assert_eq!(RateLimit::new(1, u64::MAX).spacing_ns(), None);
    assert_eq!(RateLimit::new(1, 18_446_744_073_709).spacing_ns(), Some(18_446_744_073_709_000_000));
    assert_eq!(RateLimit::new(1, 18_446_744_073_710).spacing_ns(), None);
    assert_eq!(
        RateLimit::new(2, 18_446_744_073_710).spacing_ns(),
        Some(9_223_372_036_855_000_000)
    );
}

#[test]
fn admissions_at_the_spacing_keep_the_quota_in_every_window() {
    let limit = RateLimit::new(3, 1000);
    let spacing = limit.spacing_ns().unwrap();
    let span = limit.per_ms * 1_000_000;
    let times: Vec<u64> = (0..20).map(|i| 17 + i * spacing).collect();
    for from in (0..times[19]).step_by(41_666_667) {
        let within = times.iter().filter(|t| from <= **t && **t < from + span).count();
        assert!(within <= 3, "{} admissions in the window at {}", within, from);
    }
    for t in &times[..18] {
        let within = times.iter().filter(|u| *t <= **u && **u < *t + span).count();
        assert_eq!(within, 3);
    }
}

#[test]
fn permits_never_exceed_the_limit_under_load() {
    let limit = 3usize;
    let gate = Gate::new(Some(limit), Some(quota()));
    let mut calls: Vec<_> = (0..10).map(|_| gate.acquire()).collect();
    let mut most = 0;
    for round in 0..40usize {
        for i in 0..calls.len() {
            let held = calls.iter().filter(|c| c.holds_permit).count();
            match (round + i) % 4 {
                0 if held < limit => calls[i].on_event(GateEvent::PermitGranted),
                1 => calls[i].on_event(GateEvent::TokenReady),
                2 if calls[i].is_admitted() || round % 5 == 0 => {
                    calls[i].release();
                    calls[i] = gate.acquire();
                }
                _ => {}
            }
            let held = calls.iter().filter(|c| c.holds_permit).count();
            let through = calls.iter().filter(|c| c.is_admitted()).count();
            assert!(held <= limit);
            assert!(through <= held);
            assert!(calls.iter().all(|c| c.is_valid()));
            most = most.max(held);
        }
    }
    assert_eq!(most, limit);
}

#[test]
fn limits_that_cannot_be_enforced_are_told_apart() {
    assert!(Gate::new(None, None).is_enforceable());
    assert!(Gate::new(Some(1), Some(quota())).is_enforceable());
    assert!(!Gate::new(Some(0), None).is_enforceable());
    assert!(!Gate::new(Some(4), Some(RateLimit::new(0, 1000))).is_enforceable());
    assert!(!Gate::new(None, Some(RateLimit::new(5, 0))).is_enforceable());
    assert!(Gate::new(Some(usize::MAX), Some(RateLimit::new(5, 1))).is_enforceable());
}
