use ethers::providers::{Http, Provider};
use ethers::types::{BlockNumber, Filter, TraceType, H256};
use rpc_fetch::call::{Call, Command, Event, Phase, Step};
use rpc_fetch::error::CollectError;
use rpc_fetch::fetcher::{Fetcher, Source};
use rpc_fetch::gate::GateStatus;
use rpc_fetch::rate::RateLimit;
use rpc_fetch::request::Request;
use rpc_fetch::retry::RetryPolicy;
use std::sync::Arc;

type Ev = Event<Option<u64>, String>;
type St = Step<Option<u64>, String>;

fn fetcher(
    concurrency: Option<usize>,
    rate: Option<RateLimit>,
    retry: Option<RetryPolicy>,
) -> Fetcher<Http> {
    let provider = Provider::<Http>::try_from("http://localhost:8545").unwrap();
    Fetcher::new(provider, concurrency, rate, retry)
}

fn quota() -> RateLimit {
    RateLimit { requests: 5, per_ms: 1000 }
}

#[test]
fn unthrottled_call_is_invoked_at_once() {
    let f = fetcher(None, None, None);
    let mut call = f.get_block(17);
    assert!(matches!(call.request, Request::GetBlock { block_num: 17 }));
    assert_eq!(call.phase, Phase::InFlight);
    assert_eq!(call.pending_command(), Some(Command::Invoke));
    let s: St = call.step(Event::Outcome(Ok(Some(5))));
    assert_eq!(s, Step::Return { result: Ok(Some(5)), release_permit: false });
    assert!(call.is_finished());
    assert_eq!(call.pending_command(), None);
}

#[test]
fn throttled_call_passes_semaphore_then_limiter() {
    let f = fetcher(Some(3), Some(quota()), None);
    let mut call = f.get_transaction(H256::repeat_byte(7));
    assert_eq!(call.phase, Phase::Admitting);
    assert_eq!(call.pending_command(), Some(Command::AcquirePermit));
    let s: St = call.step(Event::PermitGranted);
    assert_eq!(s, Step::Continue(Command::AwaitToken));
    assert!(call.admission.holds_permit);
    let s: St = call.step(Event::TokenReady);
    assert_eq!(s, Step::Continue(Command::Invoke));
    assert_eq!(call.phase, Phase::InFlight);
    let s: St = call.step(Event::Outcome(Err("refused".to_string())));
    assert_eq!(
        s,
        Step::Return {
            result: Err(CollectError::ProviderError("refused".to_string())),
            release_permit: true
        }
    );
    assert!(!call.admission.holds_permit);
    assert!(call.is_finished());
}

#[test]
fn missing_record_is_returned_as_none() {
    let f = fetcher(Some(1), None, Some(RetryPolicy::new(10, 2, 3)));
    let mut call = f.get_transaction_receipt(H256::zero());
    let _: St = call.step(Event::PermitGranted);
    let s: St = call.step(Event::Outcome(Ok(None)));
    assert_eq!(s, Step::Return { result: Ok(None), release_permit: true });
    assert!(call.is_finished());
    assert_eq!(call.execution.invocations, 1);
}

#[test]
fn closed_semaphore_fails_the_call_without_a_request() {
    let f = fetcher(Some(1), Some(quota()), Some(RetryPolicy::new(10, 2, 3)));
    let mut call = f.get_block_with_txs(1);
    let s: St = call.step(Event::PermitSourceClosed);
    assert_eq!(s, Step::Return { result: Err(CollectError::GateClosed), release_permit: false });
    assert!(call.is_finished());
    assert_eq!(call.admission.status, GateStatus::Closed);
    let s: St = call.step(Event::TokenReady);
    assert_eq!(s, Step::Ignored);
    let s: St = call.step(Event::PermitGranted);
    assert_eq!(s, Step::Ignored);
    assert_eq!(call.pending_command(), None);
}

#[test]
fn cancellation_during_rate_wait_releases_the_permit() {
    let f = fetcher(Some(2), Some(quota()), None);
    let mut call = f.get_block_receipts(9);
    let _: St = call.step(Event::PermitGranted);
    assert_eq!(call.pending_command(), Some(Command::AwaitToken));
    let s: St = call.step(Event::Cancelled);
    assert_eq!(s, Step::Abandoned { release_permit: true });
    assert!(call.is_finished());
    assert!(!call.admission.holds_permit);
    let s: St = call.step(Event::TokenReady);
    assert_eq!(s, Step::Ignored);
    let s: St = call.step(Event::Outcome(Ok(Some(1))));
    assert_eq!(s, Step::Ignored);
    assert_eq!(call.pending_command(), None);
}

#[test]
fn cancellation_before_a_permit_releases_nothing() {
    let f = fetcher(Some(2), None, None);
    let mut call = f.get_block(9);
    let s: St = call.step(Event::Cancelled);
    assert_eq!(s, Step::Abandoned { release_permit: false });
    assert!(call.is_finished());
}

#[test]
fn cancellation_in_flight_and_during_backoff_releases_the_permit() {
    let f = fetcher(Some(2), None, Some(RetryPolicy::new(10, 2, 3)));
    let mut call = f.get_block(9);
    let _: St = call.step(Event::PermitGranted);
    let s: St = call.step(Event::Cancelled);
    assert_eq!(s, Step::Abandoned { release_permit: true });

    let mut call = f.get_block(9);
    let _: St = call.step(Event::PermitGranted);
    let s: St = call.step(Event::Outcome(Err("x".to_string())));
    assert_eq!(s, Step::Continue(Command::Sleep { delay_ms: 10 }));
    let s: St = call.step(Event::Cancelled);
    assert_eq!(s, Step::Abandoned { release_permit: true });
    let s: St = call.step(Event::BackoffElapsed);
    assert_eq!(s, Step::Ignored);
}

#[test]
fn retry_sleeps_then_invokes_again() {
    let f = fetcher(None, None, Some(RetryPolicy::new(10, 2, 3)));
    let mut call = f.get_block(1);
    let mut slept = 0;
    let s: St = call.step(Event::Outcome(Err("one".to_string())));
    assert_eq!(s, Step::Continue(Command::Sleep { delay_ms: 10 }));
    assert_eq!(call.phase, Phase::BackingOff { delay_ms: 10 });
    assert_eq!(call.pending_command(), Some(Command::Sleep { delay_ms: 10 }));
    slept += 10;
    let s: St = call.step(Event::Outcome(Ok(Some(1))));
    assert_eq!(s, Step::Ignored);
    let s: St = call.step(Event::BackoffElapsed);
    assert_eq!(s, Step::Continue(Command::Invoke));
    let s: St = call.step(Event::Outcome(Err("two".to_string())));
    assert_eq!(s, Step::Continue(Command::Sleep { delay_ms: 20 }));
    slept += 20;
    let _: St = call.step(Event::BackoffElapsed);
    let s: St = call.step(Event::Outcome(Ok(Some(33))));
    assert_eq!(s, Step::Return { result: Ok(Some(33)), release_permit: false });
    assert!(slept >= 10 + 20);
    assert_eq!(call.execution.invocations, 3);
}

#[test]
fn retry_budget_exhausted_returns_the_last_error() {
    let f = fetcher(Some(1), None, Some(RetryPolicy::new(1, 1, 2)));
    let mut call = f.get_block(1);
    let _: St = call.step(Event::PermitGranted);
    let s: St = call.step(Event::Outcome(Err("one".to_string())));
    assert_eq!(s, Step::Continue(Command::Sleep { delay_ms: 1 }));
    assert!(call.admission.holds_permit);
    let _: St = call.step(Event::BackoffElapsed);
    let s: St = call.step(Event::Outcome(Err("two".to_string())));
    assert_eq!(
        s,
        Step::Return {
            result: Err(CollectError::ProviderError("two".to_string())),
            release_permit: true
        }
    );
}

#[test]
fn block_number_query_bypasses_the_gate() {
    let f = fetcher(Some(1), Some(quota()), None);
    let call = f.get_block_number();
    assert!(matches!(call.request, Request::GetBlockNumber));
    assert!(!call.request.is_gated());
    assert_eq!(call.phase, Phase::InFlight);
    assert_eq!(call.pending_command(), Some(Command::Invoke));
    assert!(!call.admission.holds_permit);
}

#[test]
fn each_operation_builds_its_request() {
    let f = fetcher(Some(1), None, None);
    let h = H256::repeat_byte(0xab);
    let filter = Filter::new().from_block(5u64).to_block(9u64);
    let call = f.get_logs(&filter);
    assert!(matches!(call.request, Request::GetLogs { filter: x } if *x == filter));
    assert!(call.request.is_gated());
    let call = f.trace_replay_block_transactions(
        BlockNumber::Number(8u64.into()),
        vec![TraceType::Trace, TraceType::StateDiff],
    );
    assert!(matches!(
        &call.request,
        Request::TraceReplayBlockTransactions { block: BlockNumber::Number(n), trace_types }
            if n.as_u64() == 8 && *trace_types == vec![TraceType::Trace, TraceType::StateDiff]
    ));
    let call = f.trace_replay_transaction(h, vec![TraceType::VmTrace]);
    assert!(matches!(
        &call.request,
        Request::TraceReplayTransaction { tx_hash, trace_types }
            if *tx_hash == h && *trace_types == vec![TraceType::VmTrace]
    ));
    assert!(matches!(f.get_transaction(h).request, Request::GetTransaction { tx_hash } if tx_hash == h));
    assert!(matches!(
        f.get_transaction_receipt(h).request,
        Request::GetTransactionReceipt { tx_hash } if tx_hash == h
    ));
    assert!(matches!(f.get_block(3).request, Request::GetBlock { block_num: 3 }));
    assert!(matches!(f.get_block_with_txs(4).request, Request::GetBlockWithTxs { block_num: 4 }));
    assert!(matches!(f.get_block_receipts(5).request, Request::GetBlockReceipts { block_num: 5 }));
    assert!(matches!(
        f.trace_block(BlockNumber::Latest).request,
        Request::TraceBlock { block: BlockNumber::Latest }
    ));
    assert!(matches!(f.trace_transaction(h).request, Request::TraceTransaction { tx_hash } if tx_hash == h));
    for call in [f.get_block(3), f.get_block_with_txs(4), f.trace_transaction(h)] {
        assert_eq!(call.phase, Phase::Admitting);
        assert_eq!(call.pending_command(), Some(Command::AcquirePermit));
    }
}

#[test]
fn five_calls_under_a_limit_of_two() {
    let limit = 2usize;
    let f = fetcher(Some(limit), None, None);
    let mut calls: Vec<Call<'static>> = (0..5).map(|n| f.get_block(n)).collect();
    let mut results: Vec<Option<Result<Option<u64>, CollectError<String>>>> =
        (0..5).map(|_| None).collect();
    let mut permits_out = 0usize;
    let mut rounds = 0;
    while results.iter().any(|r| r.is_none()) {
        rounds += 1;
        assert!(rounds < 100);
        // The semaphore grants permits to waiting calls while it has any.
        for call in calls.iter_mut() {
            if call.pending_command() == Some(Command::AcquirePermit) && permits_out < limit {
                permits_out += 1;
                let s: St = call.step(Event::PermitGranted);
                assert_eq!(s, Step::Continue(Command::Invoke));
            }
        }
        let in_flight = calls.iter().filter(|c| c.phase == Phase::InFlight).count();
        let holding = calls.iter().filter(|c| c.admission.holds_permit).count();
        assert!(in_flight <= limit);
        assert_eq!(holding, permits_out);
        assert!(holding <= limit);
        // Every call that is with the transport returns.
        for (i, call) in calls.iter_mut().enumerate() {
            if call.phase == Phase::InFlight {
                let s: St = call.step(Event::Outcome(Ok(Some(i as u64))));
                match s {
                    Step::Return { result, release_permit } => {
                        assert!(release_permit);
                        permits_out -= 1;
                        results[i] = Some(result);
                    }
                    other => panic!("unexpected step {:?}", other),
                }
            }
        }
    }
    assert_eq!(permits_out, 0);
    for (i, r) in results.into_iter().enumerate() {
        assert_eq!(r, Some(Ok(Some(i as u64))));
    }
    assert_eq!(rounds, 3);
}

#[test]
fn ignored_events_change_nothing() {
    let f = fetcher(Some(2), Some(quota()), Some(RetryPolicy::new(10, 2, 3)));
    let mut call = f.get_block(1);
    let s: St = call.step(Event::TokenReady);
    assert_eq!(s, Step::Ignored);
    let s: St = call.step(Event::BackoffElapsed);
    assert_eq!(s, Step::Ignored);
    let s: St = call.step(Event::Outcome(Ok(None)));
    assert_eq!(s, Step::Ignored);
    assert_eq!(call.phase, Phase::Admitting);
    assert_eq!(call.pending_command(), Some(Command::AcquirePermit));
    let _: Ev = Event::Cancelled;
}

#[test]
fn source_shares_its_fetcher() {
    let shared = Arc::new(fetcher(Some(8), None, None));
    let source = Source::new(Arc::clone(&shared), 1, 100, 4);
    let copy = source.duplicate();
    assert!(Arc::ptr_eq(&source.fetcher, &copy.fetcher));
    assert_eq!(copy.chain_id, 1);
    assert_eq!(copy.inner_request_size, 100);
    assert_eq!(copy.max_concurrent_chunks, 4);
    assert_eq!(Arc::strong_count(&shared), 3);
    let third = copy.clone();
    assert!(Arc::ptr_eq(&third.fetcher, &shared));
    assert_eq!(third.chain_id, 1);
    let gate = shared.admission_gate();
    assert_eq!(gate.concurrency_limit, Some(8));
    assert!(gate.rate_limit.is_none());
}
