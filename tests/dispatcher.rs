use hyperdex::dispatcher::{DispatchError, Dispatcher, DispatcherState, DrainPolicy, ReturnCodes, Step};
use hyperdex::error::HyperError;
use hyperdex::registry::{PendingEntry, Registry};
use hyperdex::shard::RoundRobin;
use hyperdex::submission::check_submission;

const SUCCESS: u32 = 8704;
const TIMEOUT: u32 = 8771;
const NONE_PENDING: u32 = 8769;
const INTERRUPTED: u32 = 8772;
const INTERNAL: u32 = 8829;

fn codes() -> ReturnCodes {
    ReturnCodes {
        success: SUCCESS,
        timeout: TIMEOUT,
        none_pending: NONE_PENDING,
        interrupted: INTERRUPTED,
        internal: INTERNAL,
    }
}

fn entry(id: i64, token: u32) -> PendingEntry<u32> {
    PendingEntry::new(id, SUCCESS, token)
}

fn poll(d: &mut Dispatcher<u32>, ret: i64, status: u32) -> Step<u32> {
    d.on_poll_result(ret, status, "msg".to_string(), "loc".to_string())
}

fn assert_quiet(step: &Step<u32>, polls: bool) {
    assert!(step.deliveries.is_empty());
    assert!(step.report.is_none());
    assert_eq!(step.poll, polls);
    assert!(!step.destroy);
}

#[test]
fn registry_insert_remove() {
    let mut r: Registry<u32> = Registry::new();
    assert!(r.is_empty());
    assert!(r.insert(entry(3, 30)).is_ok());
    assert!(r.insert(entry(5, 50)).is_ok());
    assert_eq!(r.len(), 2);
    assert!(r.contains(3));
    assert!(!r.contains(4));
    let e = r.remove(3).unwrap();
    assert_eq!(e.id, 3);
    assert_eq!(e.continuation, 30);
    assert!(r.remove(3).is_none());
    assert_eq!(r.len(), 1);
}

#[test]
fn registry_refuses_duplicate_id() {
    let mut r: Registry<u32> = Registry::new();
    assert!(r.insert(entry(3, 30)).is_ok());
    let back = r.insert(entry(3, 31)).unwrap_err();
    assert_eq!(back.continuation, 31);
    assert_eq!(r.len(), 1);
    assert_eq!(r.remove(3).unwrap().continuation, 30);
}

#[test]
fn registry_take_all_keeps_arrival_order() {
    let mut r: Registry<u32> = Registry::new();
    for id in [9i64, 2, 5] {
        assert!(r.insert(entry(id, id as u32 * 10)).is_ok());
    }
    let all = r.take_all();
    let ids: Vec<i64> = all.iter().map(|e| e.id).collect();
    assert_eq!(ids, vec![9, 2, 5]);
    assert!(r.is_empty());
}

#[test]
fn two_adds_success_and_failure() {
    let mut d: Dispatcher<u32> = Dispatcher::new(codes(), DrainPolicy::FailPending);
    assert_quiet(&d.on_submitted(entry(7, 1)), true);
    assert_quiet(&d.on_submitted(entry(9, 2)), true);
    assert_eq!(d.state(), DispatcherState::Active);

    let step = poll(&mut d, 7, SUCCESS);
    assert_eq!(step.deliveries.len(), 1);
    assert_eq!(step.deliveries[0].entry.continuation, 1);
    assert!(step.deliveries[0].outcome.is_ok());
    assert!(step.report.is_none());

    let step = d.on_poll_result(9, 4, "E_EXISTS".to_string(), "admin.cc:42".to_string());
    assert_eq!(step.deliveries.len(), 1);
    assert_eq!(step.deliveries[0].entry.continuation, 2);
    let err = step.deliveries[0].outcome.as_ref().unwrap_err();
    assert_eq!(err.status, 4);
    assert_eq!(err.message, "E_EXISTS");
    assert_eq!(err.location, "admin.cc:42");
    assert_eq!(d.state(), DispatcherState::Idle);
}

#[test]
fn slot_status_decides_after_successful_poll() {
    let mut d: Dispatcher<u32> = Dispatcher::new(codes(), DrainPolicy::FailPending);
    d.on_submitted(PendingEntry::new(9, 4, 2));
    let step = d.on_poll_result(9, SUCCESS, "E_EXISTS".to_string(), "here".to_string());
    let err = step.deliveries[0].outcome.as_ref().unwrap_err();
    assert_eq!(err.status, 4);
    assert_eq!(err.message, "E_EXISTS");
}

#[test]
fn immediate_submit_error_creates_no_entry() {
    let d: Dispatcher<u32> = Dispatcher::new(codes(), DrainPolicy::FailPending);
    let r = check_submission(-1, 2, "bad space".to_string(), "admin.cc:7".to_string());
    let err = r.unwrap_err();
    assert_eq!(err.status, 2);
    assert_eq!(err.message, "bad space");
    assert_eq!(err.location, "admin.cc:7");
    assert_eq!(d.pending_count(), 0);
}

#[test]
fn accepted_submit_yields_id() {
    assert_eq!(check_submission(0, SUCCESS, String::new(), String::new()).ok(), Some(0));
    assert_eq!(check_submission(41, SUCCESS, String::new(), String::new()).ok(), Some(41));
}

#[test]
fn none_pending_while_empty_stays_idle() {
    let mut d: Dispatcher<u32> = Dispatcher::new(codes(), DrainPolicy::FailPending);
    for _ in 0..5 {
        assert_quiet(&poll(&mut d, -1, NONE_PENDING), false);
        assert_eq!(d.state(), DispatcherState::Idle);
    }
}

#[test]
fn timeout_is_benign() {
    let mut d: Dispatcher<u32> = Dispatcher::new(codes(), DrainPolicy::FailPending);
    d.on_submitted(entry(1, 1));
    assert_quiet(&poll(&mut d, -1, TIMEOUT), false);
    assert_eq!(d.pending_count(), 1);
    assert_eq!(d.state(), DispatcherState::Active);
}

#[test]
fn transport_error_is_reported_not_delivered() {
    let mut d: Dispatcher<u32> = Dispatcher::new(codes(), DrainPolicy::FailPending);
    d.on_submitted(entry(1, 1));
    let step = d.on_poll_result(-1, 8770, "poll failed".to_string(), "loop".to_string());
    assert!(step.deliveries.is_empty());
    match step.report {
        Some(DispatchError::Transport(e)) => {
            assert_eq!(e.status, 8770);
            assert_eq!(e.message, "poll failed");
            assert_eq!(e.location, "loop");
        },
        _ => panic!("expected a transport error"),
    }
    assert_eq!(d.pending_count(), 1);
}

#[test]
fn uncorrelated_id_is_reported() {
    let mut d: Dispatcher<u32> = Dispatcher::new(codes(), DrainPolicy::FailPending);
    d.on_submitted(entry(1, 1));
    let step = poll(&mut d, 12, SUCCESS);
    assert!(step.deliveries.is_empty());
    match step.report {
        Some(DispatchError::Uncorrelated { id, status }) => {
            assert_eq!(id, 12);
            assert_eq!(status, SUCCESS);
        },
        _ => panic!("expected a correlation report"),
    }
    assert_eq!(d.pending_count(), 1);
}

#[test]
fn duplicate_id_fails_new_caller_only() {
    let mut d: Dispatcher<u32> = Dispatcher::new(codes(), DrainPolicy::FailPending);
    d.on_submitted(entry(3, 1));
    let step = d.on_submitted(entry(3, 2));
    assert_eq!(step.deliveries.len(), 1);
    assert_eq!(step.deliveries[0].entry.continuation, 2);
    let err = step.deliveries[0].outcome.as_ref().unwrap_err();
    assert_eq!(err.status, INTERNAL);
    assert_eq!(err.message, "a request with this id is already in flight");
    assert_eq!(err.location, "dispatcher");
    assert!(matches!(step.report, Some(DispatchError::DuplicateId { id: 3 })));
    assert_eq!(d.pending_count(), 1);
    let step = poll(&mut d, 3, SUCCESS);
    assert_eq!(step.deliveries[0].entry.continuation, 1);
}

#[test]
fn empty_registry_stops_polling() {
    let mut d: Dispatcher<u32> = Dispatcher::new(codes(), DrainPolicy::FailPending);
    assert_quiet(&d.on_tick(), false);
    d.on_submitted(entry(4, 1));
    assert_quiet(&d.on_tick(), true);
    let step = poll(&mut d, 4, SUCCESS);
    assert!(!step.poll);
    assert_eq!(d.state(), DispatcherState::Idle);
    for _ in 0..3 {
        assert_quiet(&d.on_tick(), false);
    }
    assert_quiet(&d.on_submitted(entry(4, 2)), true);
    assert_quiet(&d.on_tick(), true);
}

#[test]
fn shutdown_fails_every_pending_request() {
    let n: u32 = 6;
    let mut d: Dispatcher<u32> = Dispatcher::new(codes(), DrainPolicy::FailPending);
    for i in 0..n {
        d.on_submitted(entry(100 + i as i64, i));
    }
    let step = d.on_closed();
    assert_eq!(step.deliveries.len(), n as usize);
    for (i, del) in step.deliveries.iter().enumerate() {
        assert_eq!(del.entry.continuation, i as u32);
        let err = del.outcome.as_ref().unwrap_err();
        assert_eq!(err.status, INTERRUPTED);
        assert_eq!(err.message, "the dispatcher shut down before the request completed");
        assert_eq!(err.location, "dispatcher");
    }
    assert!(step.destroy);
    assert!(!step.poll);
    assert!(d.is_stopped());
    assert_eq!(d.state(), DispatcherState::Stopped);
    assert_eq!(d.pending_count(), 0);
}

#[test]
fn shutdown_with_nothing_pending_destroys_at_once() {
    let mut d: Dispatcher<u32> = Dispatcher::new(codes(), DrainPolicy::AwaitPending);
    let step = d.on_closed();
    assert!(step.deliveries.is_empty());
    assert!(step.destroy);
    assert!(d.is_stopped());
}

#[test]
fn await_policy_destroys_after_last_completion() {
    let mut d: Dispatcher<u32> = Dispatcher::new(codes(), DrainPolicy::AwaitPending);
    d.on_submitted(entry(1, 1));
    d.on_submitted(entry(2, 2));
    let step = d.on_closed();
    assert_quiet(&step, true);
    assert!(d.is_closed());
    assert_eq!(d.state(), DispatcherState::Draining);
    let step = poll(&mut d, 2, SUCCESS);
    assert_eq!(step.deliveries.len(), 1);
    assert!(!step.destroy);
    assert_quiet(&d.on_tick(), true);
    let step = poll(&mut d, 1, SUCCESS);
    assert_eq!(step.deliveries.len(), 1);
    assert!(step.destroy);
    assert!(d.is_stopped());
}

#[test]
fn every_request_resolved_exactly_once() {
    let mut d: Dispatcher<u32> = Dispatcher::new(codes(), DrainPolicy::FailPending);
    let mut seen = vec![0u32; 5];
    let mut immediate = 0;
    for (i, id) in [10i64, -1, 11, 12, -1].iter().enumerate() {
        match check_submission(*id, 2, String::new(), String::new()) {
            Ok(id) => {
                d.on_submitted(entry(id, i as u32));
            },
            Err(_) => {
                immediate += 1;
                seen[i] += 1;
            },
        }
    }
    for step in [poll(&mut d, 11, SUCCESS), poll(&mut d, 11, SUCCESS), poll(&mut d, 10, 8514)] {
        for del in &step.deliveries {
            seen[del.entry.continuation as usize] += 1;
        }
    }
    for del in d.on_closed().deliveries {
        seen[del.entry.continuation as usize] += 1;
    }
    assert_eq!(immediate, 2);
    assert_eq!(seen, vec![1; 5]);
}

#[test]
fn interleaved_callers_resolve_once_each() {
    let m: usize = 40;
    for seed in 1u64..20 {
        let mut d: Dispatcher<u32> = Dispatcher::new(codes(), DrainPolicy::FailPending);
        let mut state = seed;
        let mut next = || {
            state = state.wrapping_mul(6364136223846793005).wrapping_add(1442695040888963407);
            (state >> 33) as usize
        };
        let mut to_submit: Vec<usize> = (0..m).collect();
        let mut in_flight: Vec<usize> = Vec::new();
        let mut resolved = vec![0u32; m];
        while !to_submit.is_empty() || !in_flight.is_empty() {
            if !to_submit.is_empty() && (in_flight.is_empty() || next() % 2 == 0) {
                let c = to_submit.swap_remove(next() % to_submit.len());
                let step = d.on_submitted(entry(c as i64, c as u32));
                assert!(step.deliveries.is_empty());
                in_flight.push(c);
            } else {
                let c = in_flight.swap_remove(next() % in_flight.len());
                let step = poll(&mut d, c as i64, SUCCESS);
                assert_eq!(step.deliveries.len(), 1);
                assert!(step.report.is_none());
                resolved[step.deliveries[0].entry.continuation as usize] += 1;
            }
            assert_eq!(d.pending_count(), in_flight.len());
        }
        assert_eq!(resolved, vec![1; m]);
        assert_eq!(d.state(), DispatcherState::Idle);
    }
}

#[test]
fn round_robin_cycles_over_shards() {
    assert!(RoundRobin::new(0).is_none());
    let mut rr = RoundRobin::new(3).unwrap();
    assert_eq!(rr.count(), 3);
    let picks: Vec<usize> = (0..7).map(|_| rr.pick()).collect();
    assert_eq!(picks, vec![0, 1, 2, 0, 1, 2, 0]);
    let mut one = RoundRobin::new(1).unwrap();
    assert_eq!(one.pick(), 0);
    assert_eq!(one.pick(), 0);
}

#[test]
fn hyper_error_keeps_fields() {
    let e = HyperError::new(8775, "bad space".to_string(), "coordinator".to_string());
    assert_eq!(e.status, 8775);
    assert_eq!(e.message, "bad space");
    assert_eq!(e.location, "coordinator");
}
