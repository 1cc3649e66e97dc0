use pool_indexer::orchestrator::{Run, RunError, RunMode, RunStatus, RunStep};
use pool_indexer::retry::{combine_batch, should_retry, FetchError, RetryConfig, RetryDecision, RetryState};

#[test]
fn always_failing_fetch_is_tried_three_times_with_doubling_delays() {
    let config = RetryConfig::default();
    assert_eq!(config, RetryConfig::new(3, 100, 10_000, 2000));
    let mut state = RetryState::start(&config);
    let mut decisions = Vec::new();
    loop {
        let d = state.on_failure(&config, &FetchError::Transport);
        decisions.push(d);
        if d == RetryDecision::GiveUp {
            break;
        }
    }
    assert_eq!(
        decisions,
        vec![
            RetryDecision::RetryAfter { delay_ms: 100 },
            RetryDecision::RetryAfter { delay_ms: 200 },
            RetryDecision::GiveUp,
        ]
    );
    assert_eq!(state.attempts, 3);
}

#[test]
fn backoff_is_capped_and_zero_attempts_still_tries_once() {
    let config = RetryConfig::new(5, 8_000, 10_000, 2000);
    let mut state = RetryState::start(&config);
    assert_eq!(state.on_failure(&config, &FetchError::BothFailed), RetryDecision::RetryAfter { delay_ms: 8_000 });
    assert_eq!(state.on_failure(&config, &FetchError::BothFailed), RetryDecision::RetryAfter { delay_ms: 10_000 });
    assert_eq!(state.on_failure(&config, &FetchError::BothFailed), RetryDecision::RetryAfter { delay_ms: 10_000 });
    let once = RetryConfig::new(0, 100, 1000, 1500);
    let mut s = RetryState::start(&once);
    assert_eq!(s.on_failure(&once, &FetchError::Transport), RetryDecision::GiveUp);
    let fractional = RetryConfig::new(4, 100, 1000, 1500);
    let mut f = RetryState::start(&fractional);
    assert_eq!(f.on_failure(&fractional, &FetchError::Transport), RetryDecision::RetryAfter { delay_ms: 100 });
    assert_eq!(f.on_failure(&fractional, &FetchError::Transport), RetryDecision::RetryAfter { delay_ms: 150 });
    assert_eq!(f.on_failure(&fractional, &FetchError::Transport), RetryDecision::RetryAfter { delay_ms: 225 });
}

#[test]
fn batch_outcomes_name_the_failing_call() {
    assert_eq!(combine_batch(Some(1), Some("h")), Ok((1, "h")));
    assert_eq!(combine_batch::<i32, &str>(None, Some("h")), Err(FetchError::ReceiptsFailed));
    assert_eq!(combine_batch::<i32, &str>(Some(1), None), Err(FetchError::HeaderFailed));
    assert_eq!(combine_batch::<i32, &str>(None, None), Err(FetchError::BothFailed));
    for e in [FetchError::Transport, FetchError::ReceiptsFailed, FetchError::HeaderFailed, FetchError::BothFailed] {
        assert!(should_retry(&e));
    }
}

#[test]
fn range_stops_at_the_first_failed_block() {
    let mut run = Run::new(RunMode::BlocksFrom { start_block: 100, end_block: 105, delay_ms: 0 }).unwrap();
    let mut processed = Vec::new();
    loop {
        match run.next_step() {
            RunStep::Process { block_number } => {
                processed.push(block_number);
                run.on_block_done(block_number != 103);
            },
            RunStep::Pause { .. } => run.on_pause_done(),
            RunStep::AwaitHeader => panic!("a range awaits no header"),
            RunStep::Stop => break,
        }
    }
    assert_eq!(processed, vec![100, 101, 102, 103]);
    assert_eq!(run.status, RunStatus::Failed { block_number: 103 });
}

#[test]
fn range_pauses_between_blocks_and_finishes() {
    let mut run = Run::new(RunMode::BlocksFrom { start_block: 7, end_block: 9, delay_ms: 250 }).unwrap();
    let mut steps = Vec::new();
    loop {
        let step = run.next_step();
        steps.push(step);
        match step {
            RunStep::Process { .. } => run.on_block_done(true),
            RunStep::Pause { .. } => run.on_pause_done(),
            _ => break,
        }
    }
    assert_eq!(
        steps,
        vec![
            RunStep::Process { block_number: 7 },
            RunStep::Pause { millis: 250 },
            RunStep::Process { block_number: 8 },
            RunStep::Stop,
        ]
    );
    assert_eq!(run.status, RunStatus::Finished);
    assert_eq!(Run::new(RunMode::BlocksFrom { start_block: 9, end_block: 7, delay_ms: 0 }), Err(RunError::InvalidRange));
    assert_eq!(Run::new(RunMode::BlocksFrom { start_block: 9, end_block: 9, delay_ms: 0 }).unwrap().next_step(), RunStep::Stop);
}

#[test]
fn single_block_and_live_modes() {
    let mut single = Run::new(RunMode::SingleBlock { block_number: 42 }).unwrap();
    assert_eq!(single.next_step(), RunStep::Process { block_number: 42 });
    single.on_block_done(false);
    assert_eq!(single.status, RunStatus::Failed { block_number: 42 });
    assert_eq!(single.next_step(), RunStep::Stop);

    let mut live = Run::new(RunMode::LiveTrack).unwrap();
    assert_eq!(live.next_step(), RunStep::AwaitHeader);
    live.on_block_done(false);
    live.on_block_done(true);
    live.on_block_done(false);
    assert_eq!(live.failures, 2);
    assert_eq!(live.next_step(), RunStep::AwaitHeader);
    live.on_feed_closed();
    assert_eq!(live.next_step(), RunStep::Stop);
}
