use matching_engine::decimal::Dec;
use matching_engine::domain::order::{OrderSize, OrderType, Side, TimeInForce};
use matching_engine::engine::command::EngineCommand;
use matching_engine::runtime_stress::config::{parse_config, Config, RunMode, Scenario};
use matching_engine::runtime_stress::latency::LatencySummary;
use matching_engine::runtime_stress::runner::{command_interval, run_completed, runs_measurement, needs_warmup, CommandCursor};
use matching_engine::runtime_stress::stats::{DispatchStats, ResultStats, ResultStatsSnapshot};
use matching_engine::runtime_stress::summary_format::{
    completion_label, display_width, format_count, push_row,
};
use matching_engine::runtime_stress::workload::{make_symbols, sweep_quote_fits, WorkloadGenerator, BASE_SYMBOL};

fn parse(args: &[&str]) -> Result<Config, String> {
    parse_config(args.iter().map(|arg| arg.to_string()).collect())
}

fn d(n: i64) -> Dec {
    Dec::new(n, 0)
}

// ---- runtime_stress (single-file tool) ----

#[test]
fn parse_config_uses_defaults() {
    assert_eq!(
        parse(&[]).unwrap(),
        Config { scenario: Scenario::FullFillSameLevel, ..Config::default() }
    );
}

#[test]
fn parse_config_accepts_supported_options() {
    let config = parse(&[
        "--scenario",
        "full-fill-same-level",
        "--orders",
        "42",
        "--symbols",
        "4",
        "--sweep-depth",
        "7",
        "--publisher-delay-ms",
        "3",
        "--timeout-sec",
        "5",
    ])
    .unwrap();

    assert_eq!(
        config,
        Config {
            scenario: Scenario::FullFillSameLevel,
            mode: RunMode::Burst { orders: 42 },
            symbols: 4,
            sweep_depth: 7,
            publisher_delay_ms: 3,
            timeout_sec: 5,
        }
    );
}

#[test]
fn parse_config_rejects_zero_symbols() {
    assert_eq!(parse(&["--symbols", "0"]).unwrap_err(), "--symbols 값은 0보다 커야 합니다");
}

#[test]
fn parse_config_rejects_zero_sweep_depth() {
    assert_eq!(parse(&["--sweep-depth", "0"]).unwrap_err(), "--sweep-depth 값은 0보다 커야 합니다");
}

#[test]
fn runtime_stress_scenario_parse_accepts_matching_scenarios() {
    assert_eq!(Scenario::parse("market-quote-sweep").unwrap(), Scenario::MarketQuoteSweep);
    assert_eq!(Scenario::parse("partial-fill-rest").unwrap(), Scenario::PartialFillRest);
}

#[test]
fn runtime_stress_scenario_display_name_returns_korean_label() {
    assert_eq!(Scenario::CancelMissing.display_name(), "기본 경로 확인(미존재 취소)");
    assert_eq!(Scenario::PlaceRestingLimit.display_name(), "미체결 지정가 잔존");
    assert_eq!(Scenario::FullFillSameLevel.display_name(), "동일 호가 전량 체결");
    assert_eq!(Scenario::MarketQuoteSweep.display_name(), "시장가 금액 스윕");
    assert_eq!(Scenario::PartialFillRest.display_name(), "부분 체결 후 잔존");
}

#[test]
fn runtime_stress_scenario_parse_rejects_unknown_scenario_in_korean() {
    assert_eq!(Scenario::parse("invalid").unwrap_err(), "지원하지 않는 시나리오: invalid");
}

#[test]
fn runtime_stress_completion_label_returns_korean_label() {
    assert_eq!(completion_label(true), "예");
    assert_eq!(completion_label(false), "아니오");
}

#[test]
fn runtime_stress_parse_config_rejects_missing_value_in_korean() {
    assert_eq!(parse(&["--orders"]).unwrap_err(), "--orders 값이 누락되었습니다");
}

#[test]
fn runtime_stress_make_symbols_uses_plain_base_symbol_for_single_symbol() {
    assert_eq!(make_symbols(1), vec!["BTCUSDT"]);
}

#[test]
fn runtime_stress_make_symbols_suffixes_multiple_symbols() {
    assert_eq!(make_symbols(3), vec!["BTCUSDT-0", "BTCUSDT-1", "BTCUSDT-2"]);
}

#[test]
fn runtime_stress_make_workload_full_fill_same_level_creates_makers_and_taker() {
    let mut generator = WorkloadGenerator::new();
    let commands = generator.make_workload(Scenario::FullFillSameLevel, 3, BASE_SYMBOL);

    assert_eq!(commands.len(), 4);
    assert_eq!(generator.issued_ids(), 4);
    assert!(commands[..3].iter().all(|cmd| matches!(
        cmd,
        EngineCommand::Place(p) if p.order.side == Side::Sell
            && p.order.order_type == OrderType::Limit
            && p.order.tif == TimeInForce::GTC
            && p.order.price.is_some()
    )));
    assert!(matches!(
        commands.last().unwrap(),
        EngineCommand::Place(p) if p.order.side == Side::Buy
            && p.order.order_type == OrderType::Limit
            && p.order.tif == TimeInForce::IOC
            && p.order.size == OrderSize::Base(d(3))
    ));
}

#[test]
fn runtime_stress_make_workload_market_quote_sweep_creates_quote_market_taker() {
    let mut generator = WorkloadGenerator::new();
    let commands = generator.make_workload(Scenario::MarketQuoteSweep, 3, BASE_SYMBOL);

    assert_eq!(commands.len(), 4);
    assert!(matches!(
        commands.last().unwrap(),
        EngineCommand::Place(p) if p.order.side == Side::Buy
            && p.order.order_type == OrderType::Market
            && p.order.tif == TimeInForce::IOC
            && p.order.price.is_none()
            && p.order.size == OrderSize::Quote(d(303))
    ));
}

#[test]
fn runtime_stress_make_workload_partial_fill_rest_creates_gtc_taker_with_remaining_qty() {
    let mut generator = WorkloadGenerator::new();
    let commands = generator.make_workload(Scenario::PartialFillRest, 3, BASE_SYMBOL);

    assert_eq!(commands.len(), 4);
    assert!(matches!(
        commands.last().unwrap(),
        EngineCommand::Place(p) if p.order.side == Side::Buy
            && p.order.order_type == OrderType::Limit
            && p.order.tif == TimeInForce::GTC
            && p.order.size == OrderSize::Base(d(4))
    ));
}

// ---- config ----

#[test]
fn parse_config_uses_burst_defaults() {
    assert_eq!(
        parse(&[]).unwrap(),
        Config { scenario: Scenario::FullFillSameLevel, ..Config::default() }
    );
}

#[test]
fn parse_config_accepts_existing_burst_options() {
    let config = parse(&[
        "--scenario",
        "full-fill-same-level",
        "--orders",
        "42",
        "--symbols",
        "4",
        "--sweep-depth",
        "7",
        "--publisher-delay-ms",
        "3",
        "--timeout-sec",
        "5",
    ])
    .unwrap();

    assert_eq!(
        config,
        Config {
            scenario: Scenario::FullFillSameLevel,
            mode: RunMode::Burst { orders: 42 },
            symbols: 4,
            sweep_depth: 7,
            publisher_delay_ms: 3,
            timeout_sec: 5,
        }
    );
}

#[test]
fn parse_config_accepts_paced_options() {
    let config = parse(&["--duration-sec", "30", "--warmup-sec", "10", "--target-commands-per-sec", "1000"])
        .unwrap();

    assert_eq!(
        config.mode,
        RunMode::Paced { warmup_sec: 10, duration_sec: 30, target_commands_per_sec: 1000 }
    );
}

#[test]
fn parse_config_rejects_orders_with_duration() {
    assert_eq!(
        parse(&["--orders", "10", "--duration-sec", "1", "--target-commands-per-sec", "10"]).unwrap_err(),
        "--orders와 --duration-sec는 함께 사용할 수 없습니다"
    );
}

#[test]
fn parse_config_rejects_duration_without_target_rate() {
    assert_eq!(
        parse(&["--duration-sec", "1"]).unwrap_err(),
        "--duration-sec를 사용할 때는 --target-commands-per-sec가 필요합니다"
    );
}

#[test]
fn parse_config_rejects_target_rate_without_duration() {
    assert_eq!(
        parse(&["--target-commands-per-sec", "10"]).unwrap_err(),
        "--target-commands-per-sec는 --duration-sec와 함께 사용해야 합니다"
    );
}

#[test]
fn parse_config_rejects_warmup_without_duration() {
    assert_eq!(
        parse(&["--warmup-sec", "10"]).unwrap_err(),
        "--warmup-sec는 --duration-sec와 함께 사용해야 합니다"
    );
}

#[test]
fn parse_config_rejects_zero_values() {
    assert_eq!(parse(&["--symbols", "0"]).unwrap_err(), "--symbols 값은 0보다 커야 합니다");
    assert_eq!(parse(&["--sweep-depth", "0"]).unwrap_err(), "--sweep-depth 값은 0보다 커야 합니다");
    assert_eq!(parse(&["--duration-sec", "0"]).unwrap_err(), "--duration-sec 값은 0보다 커야 합니다");
    assert_eq!(
        parse(&["--duration-sec", "1", "--target-commands-per-sec", "0"]).unwrap_err(),
        "--target-commands-per-sec 값은 0보다 커야 합니다"
    );
}

#[test]
fn parse_config_rejects_values_above_safety_limits() {
    assert_eq!(parse(&["--symbols", "1025"]).unwrap_err(), "--symbols 값은 1024 이하여야 합니다");
    assert_eq!(parse(&["--sweep-depth", "10001"]).unwrap_err(), "--sweep-depth 값은 10000 이하여야 합니다");
    assert_eq!(
        parse(&["--duration-sec", "86401", "--target-commands-per-sec", "100"]).unwrap_err(),
        "--duration-sec 값은 86400 이하여야 합니다"
    );
    assert_eq!(
        parse(&["--duration-sec", "1", "--target-commands-per-sec", "1000001"]).unwrap_err(),
        "--target-commands-per-sec 값은 1000000 이하여야 합니다"
    );
}

#[test]
fn config_tests_parse_config_rejects_missing_value_in_korean() {
    assert_eq!(parse(&["--orders"]).unwrap_err(), "--orders 값이 누락되었습니다");
}

#[test]
fn config_tests_scenario_parse_accepts_matching_scenarios() {
    assert_eq!(Scenario::parse("market-quote-sweep").unwrap(), Scenario::MarketQuoteSweep);
    assert_eq!(Scenario::parse("partial-fill-rest").unwrap(), Scenario::PartialFillRest);
    assert_eq!(Scenario::parse("cancel-resting-order").unwrap(), Scenario::CancelRestingOrder);
    assert_eq!(Scenario::parse("amend-decrease-qty").unwrap(), Scenario::AmendDecreaseQty);
    assert_eq!(Scenario::parse("amend-price-change").unwrap(), Scenario::AmendPriceChange);
}

#[test]
fn config_tests_scenario_display_name_returns_korean_label() {
    assert_eq!(Scenario::CancelMissing.display_name(), "기본 경로 확인(미존재 취소)");
    assert_eq!(Scenario::PlaceRestingLimit.display_name(), "미체결 지정가 잔존");
    assert_eq!(Scenario::FullFillSameLevel.display_name(), "동일 호가 전량 체결");
    assert_eq!(Scenario::MarketQuoteSweep.display_name(), "시장가 금액 스윕");
    assert_eq!(Scenario::PartialFillRest.display_name(), "부분 체결 후 잔존");
    assert_eq!(Scenario::CancelRestingOrder.display_name(), "잔존 주문 취소");
    assert_eq!(Scenario::AmendDecreaseQty.display_name(), "수량 감소 정정");
    assert_eq!(Scenario::AmendPriceChange.display_name(), "가격 변경 정정");
}

#[test]
fn config_tests_scenario_parse_rejects_unknown_scenario_in_korean() {
    assert_eq!(Scenario::parse("invalid").unwrap_err(), "지원하지 않는 시나리오: invalid");
}

#[test]
fn scenario_token_returns_cli_value() {
    assert_eq!(Scenario::FullFillSameLevel.token(), "full-fill-same-level");
    assert_eq!(Scenario::CancelMissing.token(), "cancel-missing");
    assert_eq!(Scenario::CancelRestingOrder.token(), "cancel-resting-order");
    assert_eq!(Scenario::AmendDecreaseQty.token(), "amend-decrease-qty");
    assert_eq!(Scenario::AmendPriceChange.token(), "amend-price-change");
}

#[test]
fn parse_config_rejects_unknown_option_and_malformed_values() {
    assert_eq!(parse(&["--bogus"]).unwrap_err(), "알 수 없는 옵션: --bogus");
    assert_eq!(parse(&["--orders", "abc"]).unwrap_err(), "--orders 값은 양의 정수여야 합니다");
    assert_eq!(parse(&["--orders", "-3"]).unwrap_err(), "--orders 값은 양의 정수여야 합니다");
    assert_eq!(parse(&["--timeout-sec", "x"]).unwrap_err(), "--timeout-sec 값은 0 이상의 정수여야 합니다");
    assert_eq!(
        parse(&["--publisher-delay-ms", "60001"]).unwrap_err(),
        "--publisher-delay-ms 값은 60000 이하여야 합니다"
    );
    assert_eq!(parse(&["--orders", "+12"]).unwrap().mode, RunMode::Burst { orders: 12 });
    assert_eq!(parse(&["--scenario", "nope"]).unwrap_err(), "지원하지 않는 시나리오: nope");
}

// ---- latency ----

#[test]
fn from_sorted_empty_returns_default() {
    assert_eq!(LatencySummary::from_sorted(&[]), LatencySummary::default());
}

#[test]
fn from_sorted_single_sample_uses_same_value_everywhere() {
    let summary = LatencySummary::from_sorted(&[42]);

    assert_eq!(
        summary,
        LatencySummary { count: 1, min_us: 42, mean_us: 42, p50_us: 42, p95_us: 42, p99_us: 42, max_us: 42 }
    );
}

#[test]
fn from_sorted_uses_nearest_rank_percentiles() {
    let sorted = (1..=100).collect::<Vec<u64>>();

    let summary = LatencySummary::from_sorted(&sorted);

    assert_eq!(summary.count, 100);
    assert_eq!(summary.min_us, 1);
    assert_eq!(summary.mean_us, 50);
    assert_eq!(summary.p50_us, 51);
    assert_eq!(summary.p95_us, 95);
    assert_eq!(summary.p99_us, 99);
    assert_eq!(summary.max_us, 100);
}

// ---- runner ----

#[test]
fn command_interval_uses_target_command_rate() {
    assert_eq!(
        std::time::Duration::from_nanos(command_interval(100)),
        std::time::Duration::from_secs_f64(1.0 / 100.0)
    );
}

#[test]
fn command_interval_scales_with_higher_rates() {
    assert!(command_interval(1_000) < command_interval(100));
}

#[test]
fn command_cursor_walks_workloads_round_robin() {
    let symbols = make_symbols(2);
    let mut cursor = CommandCursor::new();
    let mut seen = Vec::new();
    for _ in 0..6 {
        let (symbol, command) = cursor.next_command(&symbols, Scenario::AmendDecreaseQty, 3).unwrap();
        seen.push((symbol, command.order_id()));
    }
    assert_eq!(
        seen,
        vec![
            ("BTCUSDT-0".to_string(), 1),
            ("BTCUSDT-0".to_string(), 1),
            ("BTCUSDT-0".to_string(), 1),
            ("BTCUSDT-1".to_string(), 2),
            ("BTCUSDT-1".to_string(), 2),
            ("BTCUSDT-1".to_string(), 2),
        ]
    );
}

#[test]
fn command_cursor_returns_none_for_empty_workload() {
    let symbols = make_symbols(1);
    let mut cursor = CommandCursor::new();
    assert!(cursor.next_command(&symbols, Scenario::CancelRestingOrder, 0).is_none());
}

// ---- stats ----

#[test]
fn dispatch_stats_rejected_sums_rejection_types() {
    let stats = DispatchStats { accepted: 1, channel_full: 2, unknown_symbol: 3, engine_stopped: 4 };

    assert_eq!(stats.rejected(), 9);
}

#[test]
fn result_snapshot_subtracts_counters() {
    let left = ResultStatsSnapshot {
        published: 10,
        place_results: 9,
        cancel_results: 8,
        amend_results: 7,
        trades: 6,
        maker_updates: 5,
    };
    let right = ResultStatsSnapshot {
        published: 1,
        place_results: 2,
        cancel_results: 3,
        amend_results: 4,
        trades: 5,
        maker_updates: 6,
    };

    assert_eq!(
        left - right,
        ResultStatsSnapshot {
            published: 9,
            place_results: 7,
            cancel_results: 5,
            amend_results: 3,
            trades: 1,
            maker_updates: 0,
        }
    );
}

#[test]
fn result_stats_count_each_kind() {
    let mut stats = ResultStats::new();
    stats.add_published();
    stats.add_place_result(3, 2);
    stats.add_cancel_result();
    stats.add_amend_result();
    assert_eq!(stats.published(), 1);
    assert_eq!(
        stats.snapshot(),
        ResultStatsSnapshot {
            published: 1,
            place_results: 1,
            cancel_results: 1,
            amend_results: 1,
            trades: 3,
            maker_updates: 2,
        }
    );
}

// ---- summary ----

#[test]
fn summary_tests_completion_label_returns_korean_label() {
    assert_eq!(completion_label(true), "예");
    assert_eq!(completion_label(false), "아니오");
}

#[test]
fn format_count_uses_thousands_separator() {
    assert_eq!(format_count(0), "0");
    assert_eq!(format_count(1_000), "1,000");
    assert_eq!(format_count(1_234_567), "1,234,567");
}

#[test]
fn push_row_pads_labels_to_the_value_column() {
    let mut out = String::new();
    push_row(&mut out, "워크로드 반복 수", "100,000");
    assert_eq!(out, "  워크로드 반복 수   100,000\n");
    assert_eq!(display_width("워크로드 반복 수"), 16);
    let mut long = String::new();
    push_row(&mut long, "a label that is longer than the column", "x");
    assert_eq!(long, "  a label that is longer than the column x\n");
}

// ---- workload ----

#[test]
fn workload_make_symbols_uses_plain_base_symbol_for_single_symbol() {
    assert_eq!(make_symbols(1), vec!["BTCUSDT"]);
}

#[test]
fn workload_make_symbols_suffixes_multiple_symbols() {
    assert_eq!(make_symbols(3), vec!["BTCUSDT-0", "BTCUSDT-1", "BTCUSDT-2"]);
}

#[test]
fn workload_make_workload_full_fill_same_level_creates_makers_and_taker() {
    let mut generator = WorkloadGenerator::new();
    let commands = generator.make_workload(Scenario::FullFillSameLevel, 3, BASE_SYMBOL);

    assert_eq!(commands.len(), 4);
    assert!(commands[..3].iter().all(|cmd| matches!(
        cmd,
        EngineCommand::Place(p) if p.order.side == Side::Sell
            && p.order.order_type == OrderType::Limit
            && p.order.tif == TimeInForce::GTC
            && p.order.price.is_some()
    )));
    assert!(matches!(
        commands.last(),
        Some(EngineCommand::Place(p)) if p.order.side == Side::Buy
            && p.order.order_type == OrderType::Limit
            && p.order.tif == TimeInForce::IOC
            && p.order.size == OrderSize::Base(d(3))
    ));
}

#[test]
fn workload_make_workload_market_quote_sweep_creates_quote_market_taker() {
    let mut generator = WorkloadGenerator::new();
    let commands = generator.make_workload(Scenario::MarketQuoteSweep, 3, BASE_SYMBOL);

    assert_eq!(commands.len(), 4);
    assert!(matches!(
        commands.last(),
        Some(EngineCommand::Place(p)) if p.order.side == Side::Buy
            && p.order.order_type == OrderType::Market
            && p.order.tif == TimeInForce::IOC
            && p.order.price.is_none()
            && p.order.size == OrderSize::Quote(d(303))
    ));
}

#[test]
fn workload_make_workload_partial_fill_rest_creates_gtc_taker_with_remaining_qty() {
    let mut generator = WorkloadGenerator::new();
    let commands = generator.make_workload(Scenario::PartialFillRest, 3, BASE_SYMBOL);

    assert_eq!(commands.len(), 4);
    assert!(matches!(
        commands.last(),
        Some(EngineCommand::Place(p)) if p.order.side == Side::Buy
            && p.order.order_type == OrderType::Limit
            && p.order.tif == TimeInForce::GTC
            && p.order.size == OrderSize::Base(d(4))
    ));
}

#[test]
fn make_workload_cancel_resting_order_places_then_cancels_same_orders() {
    let mut generator = WorkloadGenerator::new();
    let commands = generator.make_workload(Scenario::CancelRestingOrder, 3, BASE_SYMBOL);

    assert_eq!(commands.len(), 6);

    let place_ids: Vec<u128> = commands[..3]
        .iter()
        .map(|cmd| match cmd {
            EngineCommand::Place(p)
                if p.order.side == Side::Buy
                    && p.order.order_type == OrderType::Limit
                    && p.order.tif == TimeInForce::GTC
                    && p.order.price == Some(d(10_000))
                    && p.order.size == OrderSize::Base(d(1)) =>
            {
                p.order.order_id
            }
            _ => panic!("expected resting buy limit place command"),
        })
        .collect();

    let cancel_ids: Vec<u128> = commands[3..]
        .iter()
        .map(|cmd| match cmd {
            EngineCommand::Cancel(c) => c.order_id,
            _ => panic!("expected cancel command"),
        })
        .collect();

    assert_eq!(cancel_ids, place_ids);
}

#[test]
fn make_workload_amend_decrease_qty_places_amends_then_cancels_same_order() {
    let mut generator = WorkloadGenerator::new();
    let commands = generator.make_workload(Scenario::AmendDecreaseQty, 3, BASE_SYMBOL);

    assert_eq!(commands.len(), 3);

    let EngineCommand::Place(place_command) = &commands[0] else {
        panic!("expected initial resting place command");
    };
    let order = &place_command.order;

    assert_eq!(order.side, Side::Buy);
    assert_eq!(order.order_type, OrderType::Limit);
    assert_eq!(order.tif, TimeInForce::GTC);
    assert_eq!(order.price, Some(d(10_000)));
    assert_eq!(order.size, OrderSize::Base(d(2)));

    let EngineCommand::Amend(command) = &commands[1] else {
        panic!("expected amend command");
    };

    assert_eq!(command.order_id, order.order_id);
    assert_eq!(command.price, Some(d(10_000)));
    assert_eq!(command.base_qty, Some(d(1)));

    assert!(matches!(&commands[2], EngineCommand::Cancel(cancel) if cancel.order_id == order.order_id));
}

#[test]
fn make_workload_amend_price_change_places_amends_then_cancels_same_order() {
    let mut generator = WorkloadGenerator::new();
    let commands = generator.make_workload(Scenario::AmendPriceChange, 3, BASE_SYMBOL);

    assert_eq!(commands.len(), 3);

    let EngineCommand::Place(place_command) = &commands[0] else {
        panic!("expected initial resting place command");
    };
    let order = &place_command.order;

    assert_eq!(order.side, Side::Buy);
    assert_eq!(order.order_type, OrderType::Limit);
    assert_eq!(order.tif, TimeInForce::GTC);
    assert_eq!(order.price, Some(d(10_000)));
    assert_eq!(order.size, OrderSize::Base(d(1)));

    let EngineCommand::Amend(command) = &commands[1] else {
        panic!("expected amend command");
    };

    assert_eq!(command.order_id, order.order_id);
    assert_eq!(command.price, Some(d(10_001)));
    assert_eq!(command.base_qty, Some(d(1)));

    assert!(matches!(&commands[2], EngineCommand::Cancel(cancel) if cancel.order_id == order.order_id));
}

#[test]
fn workload_ids_continue_across_workloads() {
    let mut generator = WorkloadGenerator::new();
    let first = generator.make_workload(Scenario::CancelMissing, 3, BASE_SYMBOL);
    let second = generator.make_workload(Scenario::PlaceRestingLimit, 3, BASE_SYMBOL);
    assert_eq!(first[0].order_id(), 1);
    assert_eq!(second[0].order_id(), 2);
    match &second[0] {
        EngineCommand::Place(p) => assert_eq!(p.order.price, Some(d(10_002))),
        _ => panic!("expected place"),
    }
}

// ---- latency correlator ----

use matching_engine::runtime_stress::latency::LatencyCorrelator;

#[test]
fn matches_reused_order_id_in_fifo_order() {
    let mut correlator = LatencyCorrelator::new();
    let order_id: u128 = 7;
    let base: u64 = 1_000;

    for i in 0..3u64 {
        correlator.on_sent(order_id, base + i * 100);
    }
    for i in 0..3u64 {
        correlator.on_recv(order_id, base + i * 100 + 10);
    }

    let summary = correlator.take_summary();

    assert_eq!(summary.count, 3);
    assert_eq!(summary.min_us, 10);
    assert_eq!(summary.max_us, 10);
}

#[test]
fn matches_recv_arriving_before_sent_notice() {
    let mut correlator = LatencyCorrelator::new();
    let order_id: u128 = 7;
    let base: u64 = 1_000;

    correlator.on_recv(order_id, base + 50);
    correlator.on_sent(order_id, base);

    let summary = correlator.take_summary();

    assert_eq!(summary.count, 1);
    assert_eq!(summary.p50_us, 50);
}

#[test]
fn take_summary_resets_state_between_phases() {
    let mut correlator = LatencyCorrelator::new();
    let order_id: u128 = 7;
    let base: u64 = 1_000;

    correlator.on_sent(order_id, base);
    correlator.on_recv(order_id, base + 100);
    assert_eq!(correlator.take_summary().count, 1);

    correlator.on_sent(order_id, base);
    correlator.on_recv(order_id, base + 200);
    let second = correlator.take_summary();

    assert_eq!(second.count, 1);
    assert_eq!(second.p50_us, 200);
}

#[test]
fn unmatched_send_produces_no_sample() {
    let mut correlator = LatencyCorrelator::new();

    correlator.on_sent(7, 1_000);

    assert_eq!(correlator.take_summary().count, 0);
}

#[test]
fn unmatched_send_is_forgotten_after_the_phase() {
    let mut correlator = LatencyCorrelator::new();
    correlator.on_sent(7, 1_000);
    let _ = correlator.take_summary();
    correlator.on_recv(7, 5_000);
    assert_eq!(correlator.take_summary().count, 0);
}

#[test]
fn correlator_summary_sorts_latencies() {
    let mut correlator = LatencyCorrelator::new();
    correlator.on_sent(1, 0);
    correlator.on_sent(2, 0);
    correlator.on_sent(3, 0);
    correlator.on_recv(1, 300);
    correlator.on_recv(2, 100);
    correlator.on_recv(3, 200);
    let summary = correlator.take_summary();
    assert_eq!(summary.min_us, 100);
    assert_eq!(summary.p50_us, 200);
    assert_eq!(summary.max_us, 300);
    assert_eq!(summary.mean_us, 200);
}

#[test]
fn command_interval_rounds_to_the_nearest_nanosecond() {
    assert_eq!(command_interval(3), 333_333_333);
    assert_eq!(command_interval(7), 142_857_143);
    assert_eq!(command_interval(1), 1_000_000_000);
}

#[test]
fn phases_run_and_shut_down_only_after_completion() {
    assert!(needs_warmup(5));
    assert!(!needs_warmup(0));
    assert!(runs_measurement(true));
    assert!(!runs_measurement(false));
    assert!(run_completed(true, Some(true)));
    assert!(!run_completed(true, Some(false)));
    assert!(!run_completed(true, None));
    assert!(!run_completed(false, None));
}

#[test]
fn workload_fits_only_where_ids_and_amounts_stay_in_range() {
    let generator = WorkloadGenerator::new();
    assert!(generator.can_make(Scenario::CancelMissing, usize::MAX));
    assert!(generator.can_make(Scenario::CancelRestingOrder, usize::MAX));
    assert!(!generator.can_make(Scenario::FullFillSameLevel, usize::MAX));
    assert!(generator.can_make(Scenario::FullFillSameLevel, i64::MAX as usize));
    assert!(!generator.can_make(Scenario::PartialFillRest, i64::MAX as usize));
    assert!(generator.can_make(Scenario::PartialFillRest, i64::MAX as usize - 1));
    assert!(generator.can_make(Scenario::MarketQuoteSweep, 3));
    assert!(sweep_quote_fits(120));
}

#[test]
fn cursor_has_room_for_checks_the_scenario() {
    let cursor = CommandCursor::new();
    assert!(cursor.has_room_for(Scenario::AmendPriceChange, usize::MAX));
    assert!(!cursor.has_room_for(Scenario::MarketQuoteSweep, usize::MAX));
    assert!(cursor.has_room_for(Scenario::MarketQuoteSweep, 10));
}
