use std::time::Duration;

use matching_engine::integration_stress::consumer::handle_message;
use matching_engine::integration_stress::client::{classify_batch, classify_status, SendOutcome, SubmitStatus};
use matching_engine::integration_stress::config::{parse_config, Config, RunMode, Scenario};
use matching_engine::integration_stress::dispatch::{DispatchCounts, Pacer, PacingLag, PhaseOutcome};
use matching_engine::integration_stress::metrics::{CorrelatorState, CorrelatorSummary, LatencySummary};
use matching_engine::integration_stress::runner::{into_report, DispatchSnapshot, SettleResult};
use matching_engine::integration_stress::summary::{count, is_lossless, target_commands, target_reached, verdict};
use matching_engine::integration_stress::workload::{commands_per_workload, WorkloadGenerator};

fn parse(args: &[&str]) -> Result<Config, String> {
    parse_config(args.iter().map(|s| s.to_string()).collect())
}

const MS: u64 = 1_000;

// ---- client ----

#[test]
fn submit_status_maps_to_send_outcome() {
    assert_eq!(classify_status(SubmitStatus::Submitted as i32), SendOutcome::Submitted);
    assert_eq!(classify_status(SubmitStatus::ResourceExhausted as i32), SendOutcome::ResourceExhausted);
    assert_eq!(classify_status(SubmitStatus::Rejected as i32), SendOutcome::Rejected);
    assert_eq!(classify_status(SubmitStatus::Unspecified as i32), SendOutcome::Rejected);
}

// ---- config ----

#[test]
fn defaults_to_burst_mode() {
    let config = parse(&[]).unwrap();
    assert_eq!(config.mode, RunMode::Burst { orders: 100_000 });
    assert_eq!(config.grpc_endpoint, "http://localhost:50051");
    assert_eq!(config.kafka_topic, "matching-engine-events");
}

#[test]
fn parses_scenario_and_endpoints() {
    let config = parse(&[
        "--scenario",
        "place-resting-limit",
        "--grpc-endpoint",
        "http://10.0.0.1:6000",
        "--kafka-brokers",
        "broker:9092",
        "--concurrency",
        "128",
    ])
    .unwrap();

    assert_eq!(config.scenario, Scenario::PlaceRestingLimit);
    assert_eq!(config.grpc_endpoint, "http://10.0.0.1:6000");
    assert_eq!(config.kafka_brokers, "broker:9092");
    assert_eq!(config.concurrency, 128);
}

#[test]
fn connections_default_to_8() {
    let config = parse(&[]).unwrap();
    assert_eq!(config.connections, 8);
}

#[test]
fn parses_connections() {
    let config = parse(&["--connections", "64"]).unwrap();
    assert_eq!(config.connections, 64);
}

#[test]
fn connections_above_limit_is_an_error() {
    let err = parse(&["--connections", "2000"]).unwrap_err();
    assert!(err.contains("--connections"));
}

#[test]
fn paced_mode_needs_a_target() {
    let err = parse(&["--duration-sec", "10"]).unwrap_err();
    assert!(err.contains("--target-commands-per-sec"));
}

#[test]
fn parses_paced_mode() {
    let config = parse(&["--duration-sec", "30", "--target-commands-per-sec", "5000", "--warmup-sec", "5"]).unwrap();

    assert_eq!(
        config.mode,
        RunMode::Paced { warmup_sec: 5, duration_sec: 30, target_commands_per_sec: 5000 }
    );
}

#[test]
fn orders_and_duration_are_exclusive() {
    let err = parse(&["--orders", "1000", "--duration-sec", "10", "--target-commands-per-sec", "100"]).unwrap_err();
    assert!(err.contains("함께 사용할 수 없습니다"));
}

#[test]
fn warmup_needs_duration() {
    let err = parse(&["--warmup-sec", "5"]).unwrap_err();
    assert!(err.contains("--warmup-sec"));
}

#[test]
fn integration_config_reports_missing_and_unknown_options() {
    assert_eq!(parse(&["--kafka-topic"]).unwrap_err(), "--kafka-topic 값이 누락되었습니다");
    assert_eq!(parse(&["--nope", "1"]).unwrap_err(), "알 수 없는 옵션: --nope");
    let config = parse(&["--settle-timeout-sec", "7", "--kafka-topic", "t"]).unwrap();
    assert_eq!(config.settle_timeout_sec, 7);
    assert_eq!(config.kafka_topic, "t");
}

// ---- dispatch ----

#[test]
fn pacing_lag_records_cumulative_and_max_delay() {
    let base: u64 = 0;
    let ms: u64 = 1_000_000;
    let mut lag = PacingLag::default();

    lag.record(base + 25 * ms, base + 10 * ms, 11);
    lag.record(base + 70 * ms, base + 40 * ms, 22);

    assert_eq!(lag.events, 2);
    assert_eq!(Duration::from_nanos(lag.total_ns), Duration::from_millis(45));
    assert_eq!(Duration::from_nanos(lag.max_ns), Duration::from_millis(30));
}

#[test]
fn pacing_lag_ignores_first_attempt_and_early_ticks() {
    let base: u64 = 0;
    let ms: u64 = 1_000_000;
    let mut lag = PacingLag::default();

    lag.record(base + 25 * ms, base + 10 * ms, 0);
    lag.record(base + 30 * ms, base + 40 * ms, 11);

    assert_eq!(lag.events, 0);
    assert_eq!(Duration::from_nanos(lag.total_ns), Duration::ZERO);
    assert_eq!(Duration::from_nanos(lag.max_ns), Duration::ZERO);
}

#[test]
fn commands_per_workload_matches_sweep_scenarios() {
    assert_eq!(commands_per_workload(Scenario::MarketQuoteSweep, 10), 11);
    assert_eq!(commands_per_workload(Scenario::FullFillSameLevel, 10), 11);
    assert_eq!(commands_per_workload(Scenario::CancelRestingOrder, 10), 20);
    assert_eq!(commands_per_workload(Scenario::AmendDecreaseQty, 10), 3);
}

#[test]
fn dispatch_counts_sort_answers_by_kind() {
    let mut counts = DispatchCounts::new();
    counts.count(SendOutcome::Submitted);
    counts.count(SendOutcome::Submitted);
    counts.count(SendOutcome::Rejected);
    counts.count(SendOutcome::ResourceExhausted);
    counts.count(SendOutcome::Error);
    assert_eq!(
        counts.snapshot(),
        DispatchSnapshot { accepted: 2, rejected: 1, resource_exhausted: 1, error: 1 }
    );
}

// ---- metrics ----

#[test]
fn send_then_receive_matches_and_measures_latency() {
    let mut state = CorrelatorState::default();
    let t0: u64 = 0;

    state.on_sent("o1".into(), t0);
    state.on_recv("o1".into(), "e1".into(), t0 + 5 * MS);

    let summary = state.finish();
    assert_eq!(summary.sent, 1);
    assert_eq!(summary.matched, 1);
    assert_eq!(summary.missing, 0);
    assert_eq!(summary.unmatched_recv, 0);
    assert_eq!(summary.latency.count, 1);
    assert_eq!(summary.latency.p50_us, 5_000);
}

#[test]
fn receive_before_send_still_matches() {
    let mut state = CorrelatorState::default();
    let t0: u64 = 0;

    state.on_recv("o1".into(), "e1".into(), t0 + 3 * MS);
    state.on_sent("o1".into(), t0);

    let summary = state.finish();
    assert_eq!(summary.sent, 1);
    assert_eq!(summary.matched, 1);
    assert_eq!(summary.missing, 0);
    assert_eq!(summary.unmatched_recv, 0);
    assert_eq!(summary.latency.p50_us, 3_000);
}

#[test]
fn reused_order_id_matches_in_fifo_order() {
    let mut state = CorrelatorState::default();
    let t0: u64 = 0;

    state.on_sent("o1".into(), t0);
    state.on_sent("o1".into(), t0 + 10 * MS);
    state.on_recv("o1".into(), "place".into(), t0 + MS);
    state.on_recv("o1".into(), "cancel".into(), t0 + 12 * MS);

    let summary = state.finish();
    assert_eq!(summary.sent, 2);
    assert_eq!(summary.matched, 2);
    assert_eq!(summary.missing, 0);
    assert_eq!(summary.latency.min_us, 1_000);
    assert_eq!(summary.latency.max_us, 2_000);
}

#[test]
fn duplicate_event_id_counts_as_duplicate() {
    let mut state = CorrelatorState::default();
    let t0: u64 = 0;

    state.on_sent("o1".into(), t0);
    state.on_recv("o1".into(), "e1".into(), t0 + MS);
    state.on_recv("o1".into(), "e1".into(), t0 + 2 * MS);

    let summary = state.finish();
    assert_eq!(summary.sent, 1);
    assert_eq!(summary.received, 2);
    assert_eq!(summary.unique, 1);
    assert_eq!(summary.duplicates, 1);
    assert_eq!(summary.matched, 1);
}

#[test]
fn send_without_event_counts_as_missing() {
    let mut state = CorrelatorState::default();
    let t0: u64 = 0;

    state.on_sent("o1".into(), t0);
    state.on_sent("o2".into(), t0);
    state.on_recv("o1".into(), "e1".into(), t0 + MS);

    let summary = state.finish();
    assert_eq!(summary.sent, 2);
    assert_eq!(summary.matched, 1);
    assert_eq!(summary.missing, 1);
}

#[test]
fn settled_only_when_all_sends_matched() {
    let mut state = CorrelatorState::default();
    let t0: u64 = 0;

    state.on_recv("o1".into(), "e1".into(), t0 + MS);

    let summary = state.snapshot();
    assert_eq!(summary.sent, 0);
    assert_eq!(summary.matched, 0);
    assert!(!state.is_settled(1));

    state.on_sent("o1".into(), t0);

    let summary = state.snapshot();
    assert_eq!(summary.sent, 1);
    assert_eq!(summary.matched, 1);
    assert!(state.is_settled(1));
}

#[test]
fn empty_samples_give_zero_percentiles() {
    let summary = LatencySummary::from_sorted(&[]);
    assert_eq!(summary, LatencySummary::default());
}

#[test]
fn percentiles_use_nearest_rank() {
    let sorted: Vec<u64> = (0..=100).collect();
    let summary = LatencySummary::from_sorted(&sorted);

    assert_eq!(summary.count, 101);
    assert_eq!(summary.min_us, 0);
    assert_eq!(summary.max_us, 100);
    assert_eq!(summary.p50_us, 50);
    assert_eq!(summary.p90_us, 90);
    assert_eq!(summary.p99_us, 99);
}

#[test]
fn correlator_summary_balances_and_sorts_samples() {
    let mut state = CorrelatorState::new();
    state.on_sent("a".into(), 0);
    state.on_sent("b".into(), 0);
    state.on_sent("c".into(), 0);
    state.on_recv("c".into(), "e3".into(), 9 * MS);
    state.on_recv("a".into(), "e1".into(), 4 * MS);
    state.on_recv("x".into(), "e9".into(), 5 * MS);
    let summary = state.finish();
    assert_eq!(summary.sent, summary.matched + summary.missing);
    assert_eq!(summary.unique, summary.matched + summary.unmatched_recv);
    assert_eq!(summary.latency.count, 2);
    assert_eq!(summary.latency.min_us, 4_000);
    assert_eq!(summary.latency.max_us, 9_000);
    assert_eq!(summary.latency.p999_us, 9_000);
    assert_eq!(summary.latency.mean_us, 6_500);
}

#[test]
fn latency_from_event_stamped_before_send_is_zero() {
    let mut state = CorrelatorState::new();
    state.on_recv("o".into(), "e".into(), 10);
    state.on_sent("o".into(), 50);
    assert_eq!(state.finish().latency.max_us, 0);
}

// ---- report ----

fn report_for(accepted: u64, missing: u64) -> matching_engine::integration_stress::runner::RunReport {
    let phase = PhaseOutcome {
        attempted: 10,
        dispatch: DispatchSnapshot { accepted, rejected: 0, resource_exhausted: 0, error: 0 },
        dispatch_elapsed: Duration::from_secs(1),
        pacing_lag_events: 0,
        pacing_lag: Duration::ZERO,
        pacing_lag_max: Duration::ZERO,
    };
    let settle = SettleResult {
        settled: missing == 0,
        summary: CorrelatorSummary {
            sent: accepted,
            received: accepted - missing,
            unique: accepted - missing,
            duplicates: 0,
            matched: accepted - missing,
            missing,
            unmatched_recv: 0,
            latency: LatencySummary::default(),
        },
    };
    into_report(phase, Duration::from_secs(2), settle)
}

#[test]
fn lossless_verdict_needs_every_event() {
    let good = report_for(10, 0);
    assert!(is_lossless(&good));
    assert_eq!(verdict(&good), "통과 (누락·중복 없음)");
    assert_eq!(good.total_elapsed, Duration::from_secs(2));
    let bad = report_for(10, 1);
    assert!(!is_lossless(&bad));
    assert_eq!(verdict(&bad), "실패 (누락/중복/미정착 확인 필요)");
}

#[test]
fn paced_target_is_rate_times_duration() {
    let mode = RunMode::Paced { warmup_sec: 5, duration_sec: 30, target_commands_per_sec: 20_000 };
    assert_eq!(target_commands(mode), Some(600_000));
    assert_eq!(count(600_000), "600,000");
    assert!(!target_reached(503_140, 600_000));
    assert!(target_reached(600_000, 600_000));
    assert_eq!(target_commands(RunMode::Burst { orders: 3 }), None);
}

// ---- consumer ----

#[test]
fn kafka_message_with_both_ids_is_counted() {
    let mut state = CorrelatorState::new();
    state.on_sent("o1".into(), 0);
    let payload = br#"{"order_id":"o1","event_id":"e1","kind":"placed"}"#;
    assert!(handle_message(&mut state, Some(&payload[..]), 7 * MS));
    assert!(!handle_message(&mut state, None, 8 * MS));
    assert!(!handle_message(&mut state, Some(&b"not json"[..]), 8 * MS));
    assert!(!handle_message(&mut state, Some(&br#"{"order_id":"o1"}"#[..]), 8 * MS));
    assert!(!handle_message(&mut state, Some(&br#"{"order_id":1,"event_id":"e2"}"#[..]), 8 * MS));
    let summary = state.finish();
    assert_eq!(summary.received, 1);
    assert_eq!(summary.matched, 1);
    assert_eq!(summary.latency.max_us, 7_000);
}

#[test]
fn every_workload_has_the_announced_length() {
    let scenarios = [
        Scenario::CancelMissing,
        Scenario::PlaceRestingLimit,
        Scenario::FullFillSameLevel,
        Scenario::MarketQuoteSweep,
        Scenario::PartialFillRest,
        Scenario::CancelRestingOrder,
        Scenario::AmendDecreaseQty,
        Scenario::AmendPriceChange,
    ];
    let mut generator = WorkloadGenerator::new();
    for scenario in scenarios {
        for depth in [0usize, 1, 4] {
            let commands = generator.make_workload(scenario, depth, "BTCUSDT");
            assert_eq!(commands.len(), commands_per_workload(scenario, depth));
        }
    }
}

#[test]
fn short_batch_answer_pads_with_errors() {
    let outcomes = classify_batch(&vec![1, 3, 2], 5);
    assert_eq!(
        outcomes,
        vec![
            SendOutcome::Submitted,
            SendOutcome::ResourceExhausted,
            SendOutcome::Rejected,
            SendOutcome::Error,
            SendOutcome::Error,
        ]
    );
    assert_eq!(classify_batch(&vec![1, 1], 1), vec![SendOutcome::Submitted, SendOutcome::Submitted]);
}

#[test]
fn pacer_waits_for_ticks_and_records_late_sends() {
    let mut pacer = Pacer::new(10);
    assert_eq!(pacer.before_send(5), 0);
    pacer.after_send(3);
    assert_eq!(pacer.next_tick_ns, 30);
    assert_eq!(pacer.before_send(12), 18);
    assert_eq!(pacer.before_send(45), 0);
    assert_eq!(pacer.lag.events, 1);
    assert_eq!(pacer.lag.total_ns, 15);
    assert_eq!(pacer.lag.max_ns, 15);
    pacer.after_send(1);
    assert_eq!(pacer.attempted, 4);
    assert_eq!(pacer.next_tick_ns, 40);
}
