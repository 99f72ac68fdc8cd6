use vstd::prelude::*;

use crate::text::{decimal_string, decimal_text, parse_u64_text, str_eq, unsigned_text_value};

verus! {

pub const DEFAULT_ORDERS: usize = 100_000;
pub const DEFAULT_SYMBOLS: usize = 1;
pub const DEFAULT_SWEEP_DEPTH: usize = 10;
pub const DEFAULT_PUBLISHER_DELAY_MS: u64 = 0;
pub const DEFAULT_TIMEOUT_SEC: u64 = 30;
pub const MAX_DURATION_SEC: u64 = 86_400;
pub const MAX_ORDERS: usize = 10_000_000;
pub const MAX_PUBLISHER_DELAY_MS: u64 = 60_000;
pub const MAX_SWEEP_DEPTH: usize = 10_000;
pub const MAX_SYMBOLS: usize = 1_024;
pub const MAX_TARGET_COMMANDS_PER_SEC: u64 = 1_000_000;

/// The workload a stress run repeats.
#[derive(Clone, Copy, Debug, PartialEq, Eq, Structural)]
pub enum Scenario {
    CancelMissing,
    PlaceRestingLimit,
    FullFillSameLevel,
    MarketQuoteSweep,
    PartialFillRest,
    CancelRestingOrder,
    AmendDecreaseQty,
    AmendPriceChange,
}

/// The command-line name of a scenario.
pub open spec fn scenario_token(s: Scenario) -> Seq<char> {
    match s {
        Scenario::CancelMissing => "cancel-missing"@,
        Scenario::PlaceRestingLimit => "place-resting-limit"@,
        Scenario::FullFillSameLevel => "full-fill-same-level"@,
        Scenario::MarketQuoteSweep => "market-quote-sweep"@,
        Scenario::PartialFillRest => "partial-fill-rest"@,
        Scenario::CancelRestingOrder => "cancel-resting-order"@,
        Scenario::AmendDecreaseQty => "amend-decrease-qty"@,
        Scenario::AmendPriceChange => "amend-price-change"@,
    }
}

/// The label a report shows for a scenario.
pub open spec fn scenario_label(s: Scenario) -> Seq<char> {
    match s {
        Scenario::CancelMissing => "기본 경로 확인(미존재 취소)"@,
        Scenario::PlaceRestingLimit => "미체결 지정가 잔존"@,
        Scenario::FullFillSameLevel => "동일 호가 전량 체결"@,
        Scenario::MarketQuoteSweep => "시장가 금액 스윕"@,
        Scenario::PartialFillRest => "부분 체결 후 잔존"@,
        Scenario::CancelRestingOrder => "잔존 주문 취소"@,
        Scenario::AmendDecreaseQty => "수량 감소 정정"@,
        Scenario::AmendPriceChange => "가격 변경 정정"@,
    }
}

/// The scenario a command-line name denotes, or the message refusing it.
pub open spec fn scenario_from(value: Seq<char>) -> Result<Scenario, Seq<char>> {
    if value == scenario_token(Scenario::CancelMissing) {
        Ok(Scenario::CancelMissing)
    } else if value == scenario_token(Scenario::PlaceRestingLimit) {
        Ok(Scenario::PlaceRestingLimit)
    } else if value == scenario_token(Scenario::FullFillSameLevel) {
        Ok(Scenario::FullFillSameLevel)
    } else if value == scenario_token(Scenario::MarketQuoteSweep) {
        Ok(Scenario::MarketQuoteSweep)
    } else if value == scenario_token(Scenario::PartialFillRest) {
        Ok(Scenario::PartialFillRest)
    } else if value == scenario_token(Scenario::CancelRestingOrder) {
        Ok(Scenario::CancelRestingOrder)
    } else if value == scenario_token(Scenario::AmendDecreaseQty) {
        Ok(Scenario::AmendDecreaseQty)
    } else if value == scenario_token(Scenario::AmendPriceChange) {
        Ok(Scenario::AmendPriceChange)
    } else {
        Err("지원하지 않는 시나리오: "@ + value)
    }
}

impl Scenario {
    /// Reads a scenario from its command-line name.
    pub fn parse(value: &str) -> (r: Result<Scenario, String>)
        ensures
            r matches Ok(s) ==> scenario_from(value@) == Ok::<Scenario, Seq<char>>(s),
            r matches Err(m) ==> scenario_from(value@) == Err::<Scenario, Seq<char>>(m@),
    {
        if str_eq(value, "cancel-missing") {
            Ok(Scenario::CancelMissing)
        } else if str_eq(value, "place-resting-limit") {
            Ok(Scenario::PlaceRestingLimit)
        } else if str_eq(value, "full-fill-same-level") {
            Ok(Scenario::FullFillSameLevel)
        } else if str_eq(value, "market-quote-sweep") {
            Ok(Scenario::MarketQuoteSweep)
        } else if str_eq(value, "partial-fill-rest") {
            Ok(Scenario::PartialFillRest)
        } else if str_eq(value, "cancel-resting-order") {
            Ok(Scenario::CancelRestingOrder)
        } else if str_eq(value, "amend-decrease-qty") {
            Ok(Scenario::AmendDecreaseQty)
        } else if str_eq(value, "amend-price-change") {
            Ok(Scenario::AmendPriceChange)
        } else {
            let mut m = String::from_str("지원하지 않는 시나리오: ");
            m.append(value);
            Err(m)
        }
    }

    /// The label a report shows.
    pub fn display_name(self) -> (r: &'static str)
        ensures
            r@ == scenario_label(self),
    {
        match self {
            Scenario::CancelMissing => "기본 경로 확인(미존재 취소)",
            Scenario::PlaceRestingLimit => "미체결 지정가 잔존",
            Scenario::FullFillSameLevel => "동일 호가 전량 체결",
            Scenario::MarketQuoteSweep => "시장가 금액 스윕",
            Scenario::PartialFillRest => "부분 체결 후 잔존",
            Scenario::CancelRestingOrder => "잔존 주문 취소",
            Scenario::AmendDecreaseQty => "수량 감소 정정",
            Scenario::AmendPriceChange => "가격 변경 정정",
        }
    }

    /// The command-line name.
    pub fn token(self) -> (r: &'static str)
        ensures
            r@ == scenario_token(self),
    {
        match self {
            Scenario::CancelMissing => "cancel-missing",
            Scenario::PlaceRestingLimit => "place-resting-limit",
            Scenario::FullFillSameLevel => "full-fill-same-level",
            Scenario::MarketQuoteSweep => "market-quote-sweep",
            Scenario::PartialFillRest => "partial-fill-rest",
            Scenario::CancelRestingOrder => "cancel-resting-order",
            Scenario::AmendDecreaseQty => "amend-decrease-qty",
            Scenario::AmendPriceChange => "amend-price-change",
        }
    }
}

/// How long a run lasts: a fixed number of workloads sent as fast as possible, or a
/// measured phase (after an optional warm-up) at a target command rate.
#[derive(Clone, Copy, Debug, PartialEq, Eq, Structural)]
pub enum RunMode {
    Burst { orders: usize },
    Paced { warmup_sec: u64, duration_sec: u64, target_commands_per_sec: u64 },
}

/// The settings of a runtime stress run.
#[derive(Clone, Copy, Debug, PartialEq, Eq, Structural)]
pub struct Config {
    pub scenario: Scenario,
    pub mode: RunMode,
    pub symbols: usize,
    pub sweep_depth: usize,
    pub publisher_delay_ms: u64,
    pub timeout_sec: u64,
}

/// The settings used when no option is given.
pub open spec fn default_config() -> Config {
    Config {
        scenario: Scenario::FullFillSameLevel,
        mode: RunMode::Burst { orders: DEFAULT_ORDERS },
        symbols: DEFAULT_SYMBOLS,
        sweep_depth: DEFAULT_SWEEP_DEPTH,
        publisher_delay_ms: DEFAULT_PUBLISHER_DELAY_MS,
        timeout_sec: DEFAULT_TIMEOUT_SEC,
    }
}

impl Default for Config {
    fn default() -> (c: Config)
        ensures
            c == default_config(),
    {
        Config {
            scenario: Scenario::FullFillSameLevel,
            mode: RunMode::Burst { orders: DEFAULT_ORDERS },
            symbols: DEFAULT_SYMBOLS,
            sweep_depth: DEFAULT_SWEEP_DEPTH,
            publisher_delay_ms: DEFAULT_PUBLISHER_DELAY_MS,
            timeout_sec: DEFAULT_TIMEOUT_SEC,
        }
    }
}

/// `"{option} 값이 누락되었습니다"`.
pub open spec fn missing_value_message(option: Seq<char>) -> Seq<char> {
    option + " 값이 누락되었습니다"@
}

/// `"{option} 값은 양의 정수여야 합니다"`.
pub open spec fn not_positive_integer_message(option: Seq<char>) -> Seq<char> {
    option + " 값은 양의 정수여야 합니다"@
}

/// `"{option} 값은 0 이상의 정수여야 합니다"`.
pub open spec fn not_integer_message(option: Seq<char>) -> Seq<char> {
    option + " 값은 0 이상의 정수여야 합니다"@
}

/// `"{option} 값은 0보다 커야 합니다"`.
pub open spec fn zero_message(option: Seq<char>) -> Seq<char> {
    option + " 값은 0보다 커야 합니다"@
}

/// `"{option} 값은 {max} 이하여야 합니다"`.
pub open spec fn above_max_message(option: Seq<char>, max: nat) -> Seq<char> {
    option + " 값은 "@ + decimal_text(max) + " 이하여야 합니다"@
}

/// A positive count of at most `max`, as `--orders`, `--symbols` and the like read it.
pub open spec fn nonzero_usize_from(value: Seq<char>, option: Seq<char>, max: usize) -> Result<usize, Seq<char>> {
    match unsigned_text_value(value) {
        None => Err(not_positive_integer_message(option)),
        Some(v) => if v > usize::MAX {
            Err(not_positive_integer_message(option))
        } else if v == 0 {
            Err(zero_message(option))
        } else if v > max {
            Err(above_max_message(option, max as nat))
        } else {
            Ok(v as usize)
        },
    }
}

/// A count of at most `max`, zero allowed.
pub open spec fn bounded_u64_from(value: Seq<char>, option: Seq<char>, max: u64) -> Result<u64, Seq<char>> {
    match unsigned_text_value(value) {
        None => Err(not_integer_message(option)),
        Some(v) => if v > u64::MAX {
            Err(not_integer_message(option))
        } else if v > max {
            Err(above_max_message(option, max as nat))
        } else {
            Ok(v as u64)
        },
    }
}

/// A positive count of at most `max`.
pub open spec fn nonzero_u64_from(value: Seq<char>, option: Seq<char>, max: u64) -> Result<u64, Seq<char>> {
    match bounded_u64_from(value, option, max) {
        Err(e) => Err(e),
        Ok(v) => if v == 0 {
            Err(zero_message(option))
        } else {
            Ok(v)
        },
    }
}

/// `head` followed by `tail`.
pub(crate) fn message(head: &str, tail: &str) -> (m: String)
    ensures
        m@ == head@ + tail@,
{
    let mut m = String::from_str(head);
    m.append(tail);
    m
}

/// `"{option} 값은 {max} 이하여야 합니다"`.
fn above_max(option: &str, max: u64) -> (m: String)
    ensures
        m@ == above_max_message(option@, max as nat),
{
    let mut m = message(option, " 값은 ");
    let digits = decimal_string(max);
    m.append(digits.as_str());
    m.append(" 이하여야 합니다");
    m
}

/// Reads a positive count of at most `max`.
pub fn parse_nonzero_usize(value: &str, option: &str, max: usize) -> (r: Result<usize, String>)
    ensures
        r matches Ok(v) ==> nonzero_usize_from(value@, option@, max) == Ok::<usize, Seq<char>>(v),
        r matches Err(m) ==> nonzero_usize_from(value@, option@, max) == Err::<usize, Seq<char>>(m@),
{
    let parsed = match parse_u64_text(value) {
        Some(v) => v,
        None => return Err(message(option, " 값은 양의 정수여야 합니다")),
    };
    if parsed > usize::MAX as u64 {
        return Err(message(option, " 값은 양의 정수여야 합니다"));
    }
    if parsed == 0 {
        return Err(message(option, " 값은 0보다 커야 합니다"));
    }
    if parsed > max as u64 {
        return Err(above_max(option, max as u64));
    }
    Ok(parsed as usize)
}

/// Reads a count of at most `max`.
pub fn parse_bounded_u64(value: &str, option: &str, max: u64) -> (r: Result<u64, String>)
    ensures
        r matches Ok(v) ==> bounded_u64_from(value@, option@, max) == Ok::<u64, Seq<char>>(v),
        r matches Err(m) ==> bounded_u64_from(value@, option@, max) == Err::<u64, Seq<char>>(m@),
{
    let parsed = match parse_u64(value, option) {
        Ok(v) => v,
        Err(e) => return Err(e),
    };
    if parsed > max {
        return Err(above_max(option, max));
    }
    Ok(parsed)
}

/// Reads a positive count of at most `max`.
pub fn parse_nonzero_u64(value: &str, option: &str, max: u64) -> (r: Result<u64, String>)
    ensures
        r matches Ok(v) ==> nonzero_u64_from(value@, option@, max) == Ok::<u64, Seq<char>>(v),
        r matches Err(m) ==> nonzero_u64_from(value@, option@, max) == Err::<u64, Seq<char>>(m@),
{
    let parsed = match parse_bounded_u64(value, option, max) {
        Ok(v) => v,
        Err(e) => return Err(e),
    };
    if parsed == 0 {
        return Err(message(option, " 값은 0보다 커야 합니다"));
    }
    Ok(parsed)
}

/// Reads an unsigned integer.
pub fn parse_u64(value: &str, option: &str) -> (r: Result<u64, String>)
    ensures
        r matches Ok(v) ==> unsigned_text_value(value@) == Some(v as nat),
        r matches Err(m) ==> m@ == not_integer_message(option@) && match unsigned_text_value(value@) {
            None => true,
            Some(v) => v > u64::MAX,
        },
{
    match parse_u64_text(value) {
        Some(v) => Ok(v),
        None => Err(message(option, " 값은 0 이상의 정수여야 합니다")),
    }
}

/// The options read so far.
#[derive(Clone, Copy, Debug, PartialEq, Eq, Structural)]
pub struct ParseState {
    pub scenario: Scenario,
    pub orders: Option<usize>,
    pub symbols: usize,
    pub sweep_depth: usize,
    pub publisher_delay_ms: u64,
    pub timeout_sec: u64,
    pub duration_sec: Option<u64>,
    pub warmup_sec: u64,
    pub target_commands_per_sec: Option<u64>,
}

/// Nothing read yet: every setting at its default.
pub open spec fn initial_state() -> ParseState {
    ParseState {
        scenario: Scenario::FullFillSameLevel,
        orders: None,
        symbols: DEFAULT_SYMBOLS,
        sweep_depth: DEFAULT_SWEEP_DEPTH,
        publisher_delay_ms: DEFAULT_PUBLISHER_DELAY_MS,
        timeout_sec: DEFAULT_TIMEOUT_SEC,
        duration_sec: None,
        warmup_sec: 0,
        target_commands_per_sec: None,
    }
}

/// The value after the option at `i`, or the message that it is missing.
pub open spec fn value_after(args: Seq<Seq<char>>, i: int) -> Result<Seq<char>, Seq<char>> {
    if i + 1 < args.len() {
        Ok(args[i + 1])
    } else {
        Err(missing_value_message(args[i]))
    }
}

/// Reads the option at `i` (and its value) into `st`.
pub open spec fn read_option(args: Seq<Seq<char>>, i: int, st: ParseState) -> Result<ParseState, Seq<char>> {
    let arg = args[i];
    if arg == "--scenario"@ {
        match value_after(args, i) {
            Err(e) => Err(e),
            Ok(v) => match scenario_from(v) {
                Err(e) => Err(e),
                Ok(s) => Ok(ParseState { scenario: s, ..st }),
            },
        }
    } else if arg == "--orders"@ {
        match value_after(args, i) {
            Err(e) => Err(e),
            Ok(v) => match nonzero_usize_from(v, arg, MAX_ORDERS) {
                Err(e) => Err(e),
                Ok(n) => Ok(ParseState { orders: Some(n), ..st }),
            },
        }
    } else if arg == "--symbols"@ {
        match value_after(args, i) {
            Err(e) => Err(e),
            Ok(v) => match nonzero_usize_from(v, arg, MAX_SYMBOLS) {
                Err(e) => Err(e),
                Ok(n) => Ok(ParseState { symbols: n, ..st }),
            },
        }
    } else if arg == "--sweep-depth"@ {
        match value_after(args, i) {
            Err(e) => Err(e),
            Ok(v) => match nonzero_usize_from(v, arg, MAX_SWEEP_DEPTH) {
                Err(e) => Err(e),
                Ok(n) => Ok(ParseState { sweep_depth: n, ..st }),
            },
        }
    } else if arg == "--publisher-delay-ms"@ {
        match value_after(args, i) {
            Err(e) => Err(e),
            Ok(v) => match bounded_u64_from(v, arg, MAX_PUBLISHER_DELAY_MS) {
                Err(e) => Err(e),
                Ok(n) => Ok(ParseState { publisher_delay_ms: n, ..st }),
            },
        }
    } else if arg == "--timeout-sec"@ {
        match value_after(args, i) {
            Err(e) => Err(e),
            Ok(v) => match nonzero_u64_from(v, arg, MAX_DURATION_SEC) {
                Err(e) => Err(e),
                Ok(n) => Ok(ParseState { timeout_sec: n, ..st }),
            },
        }
    } else if arg == "--duration-sec"@ {
        match value_after(args, i) {
            Err(e) => Err(e),
            Ok(v) => match nonzero_u64_from(v, arg, MAX_DURATION_SEC) {
                Err(e) => Err(e),
                Ok(n) => Ok(ParseState { duration_sec: Some(n), ..st }),
            },
        }
    } else if arg == "--warmup-sec"@ {
        match value_after(args, i) {
            Err(e) => Err(e),
            Ok(v) => match bounded_u64_from(v, arg, MAX_DURATION_SEC) {
                Err(e) => Err(e),
                Ok(n) => Ok(ParseState { warmup_sec: n, ..st }),
            },
        }
    } else if arg == "--target-commands-per-sec"@ {
        match value_after(args, i) {
            Err(e) => Err(e),
            Ok(v) => match nonzero_u64_from(v, arg, MAX_TARGET_COMMANDS_PER_SEC) {
                Err(e) => Err(e),
                Ok(n) => Ok(ParseState { target_commands_per_sec: Some(n), ..st }),
            },
        }
    } else {
        Err("알 수 없는 옵션: "@ + arg)
    }
}

/// Reads the options from position `i` on, each followed by its value, into `st`.
pub open spec fn read_options(args: Seq<Seq<char>>, i: int, st: ParseState) -> Result<ParseState, Seq<char>>
    decreases args.len() - i,
{
    if i < 0 || i >= args.len() {
        Ok(st)
    } else {
        match read_option(args, i, st) {
            Err(e) => Err(e),
            Ok(next) => read_options(args, i + 2, next),
        }
    }
}

/// The run mode the options choose, or the message refusing their combination.
pub open spec fn mode_from(st: ParseState) -> Result<RunMode, Seq<char>> {
    match st.duration_sec {
        Some(d) => if st.orders is Some {
            Err("--orders와 --duration-sec는 함께 사용할 수 없습니다"@)
        } else {
            match st.target_commands_per_sec {
                None => Err("--duration-sec를 사용할 때는 --target-commands-per-sec가 필요합니다"@),
                Some(t) => Ok(RunMode::Paced { warmup_sec: st.warmup_sec, duration_sec: d, target_commands_per_sec: t }),
            }
        },
        None => if st.target_commands_per_sec is Some {
            Err("--target-commands-per-sec는 --duration-sec와 함께 사용해야 합니다"@)
        } else if st.warmup_sec != 0 {
            Err("--warmup-sec는 --duration-sec와 함께 사용해야 합니다"@)
        } else {
            Ok(
                RunMode::Burst {
                    orders: match st.orders {
                        Some(n) => n,
                        None => DEFAULT_ORDERS,
                    },
                },
            )
        },
    }
}

/// The settings the command-line arguments `args` give, or the message refusing them.
pub open spec fn config_from(args: Seq<Seq<char>>) -> Result<Config, Seq<char>> {
    match read_options(args, 0, initial_state()) {
        Err(e) => Err(e),
        Ok(st) => match mode_from(st) {
            Err(e) => Err(e),
            Ok(mode) => Ok(
                Config {
                    scenario: st.scenario,
                    mode,
                    symbols: st.symbols,
                    sweep_depth: st.sweep_depth,
                    publisher_delay_ms: st.publisher_delay_ms,
                    timeout_sec: st.timeout_sec,
                },
            ),
        },
    }
}

/// The value after the option at `i`.
fn next_arg<'a>(args: &'a Vec<String>, i: usize, option: &str) -> (r: Result<&'a String, String>)
    requires
        i < args@.len(),
        option@ == args@[i as int]@,
    ensures
        r matches Ok(v) ==> value_after(args@.map_values(|a: String| a@), i as int) == Ok::<Seq<char>, Seq<char>>(v@),
        r matches Err(m) ==> value_after(args@.map_values(|a: String| a@), i as int) == Err::<Seq<char>, Seq<char>>(m@),
{
    if i < args.len() - 1 {
        Ok(&args[i + 1])
    } else {
        Err(message(option, " 값이 누락되었습니다"))
    }
}

/// Reads the option at `i` into `st`.
fn apply_option(args: &Vec<String>, i: usize, st: &mut ParseState) -> (r: Result<(), String>)
    requires
        i < args@.len(),
    ensures
        r is Ok ==> read_option(args@.map_values(|a: String| a@), i as int, *old(st)) == Ok::<ParseState, Seq<char>>(*final(st)),
        r matches Err(m) ==> read_option(args@.map_values(|a: String| a@), i as int, *old(st)) == Err::<ParseState, Seq<char>>(m@),
{
    let ghost view = args@.map_values(|a: String| a@);
    let arg = args[i].as_str();
    assert(view[i as int] == arg@);
    if str_eq(arg, "--scenario") {
        let v = match next_arg(args, i, arg) {
            Ok(v) => v,
            Err(e) => return Err(e),
        };
        match Scenario::parse(v.as_str()) {
            Ok(s) => st.scenario = s,
            Err(e) => return Err(e),
        }
    } else if str_eq(arg, "--orders") {
        let v = match next_arg(args, i, arg) {
            Ok(v) => v,
            Err(e) => return Err(e),
        };
        match parse_nonzero_usize(v.as_str(), arg, MAX_ORDERS) {
            Ok(n) => st.orders = Some(n),
            Err(e) => return Err(e),
        }
    } else if str_eq(arg, "--symbols") {
        let v = match next_arg(args, i, arg) {
            Ok(v) => v,
            Err(e) => return Err(e),
        };
        match parse_nonzero_usize(v.as_str(), arg, MAX_SYMBOLS) {
            Ok(n) => st.symbols = n,
            Err(e) => return Err(e),
        }
    } else if str_eq(arg, "--sweep-depth") {
        let v = match next_arg(args, i, arg) {
            Ok(v) => v,
            Err(e) => return Err(e),
        };
        match parse_nonzero_usize(v.as_str(), arg, MAX_SWEEP_DEPTH) {
            Ok(n) => st.sweep_depth = n,
            Err(e) => return Err(e),
        }
    } else if str_eq(arg, "--publisher-delay-ms") {
        let v = match next_arg(args, i, arg) {
            Ok(v) => v,
            Err(e) => return Err(e),
        };
        match parse_bounded_u64(v.as_str(), arg, MAX_PUBLISHER_DELAY_MS) {
            Ok(n) => st.publisher_delay_ms = n,
            Err(e) => return Err(e),
        }
    } else if str_eq(arg, "--timeout-sec") {
        let v = match next_arg(args, i, arg) {
            Ok(v) => v,
            Err(e) => return Err(e),
        };
        match parse_nonzero_u64(v.as_str(), arg, MAX_DURATION_SEC) {
            Ok(n) => st.timeout_sec = n,
            Err(e) => return Err(e),
        }
    } else if str_eq(arg, "--duration-sec") {
        let v = match next_arg(args, i, arg) {
            Ok(v) => v,
            Err(e) => return Err(e),
        };
        match parse_nonzero_u64(v.as_str(), arg, MAX_DURATION_SEC) {
            Ok(n) => st.duration_sec = Some(n),
            Err(e) => return Err(e),
        }
    } else if str_eq(arg, "--warmup-sec") {
        let v = match next_arg(args, i, arg) {
            Ok(v) => v,
            Err(e) => return Err(e),
        };
        match parse_bounded_u64(v.as_str(), arg, MAX_DURATION_SEC) {
            Ok(n) => st.warmup_sec = n,
            Err(e) => return Err(e),
        }
    } else if str_eq(arg, "--target-commands-per-sec") {
        let v = match next_arg(args, i, arg) {
            Ok(v) => v,
            Err(e) => return Err(e),
        };
        match parse_nonzero_u64(v.as_str(), arg, MAX_TARGET_COMMANDS_PER_SEC) {
            Ok(n) => st.target_commands_per_sec = Some(n),
            Err(e) => return Err(e),
        }
    } else {
        return Err(message("알 수 없는 옵션: ", arg));
    }
    Ok(())
}

/// Reads the settings of a run from its command-line arguments (the program name left out).
/// Each option takes the next argument as its value; an unknown option, a missing or
/// malformed value, and a value out of its range are refused with a message naming the
/// option. `--duration-sec` chooses a paced run and needs `--target-commands-per-sec`;
/// neither that nor `--warmup-sec` may be given without it, nor `--orders` with it.
pub fn parse_config(args: Vec<String>) -> (r: Result<Config, String>)
    ensures
        r matches Ok(c) ==> config_from(args@.map_values(|a: String| a@)) == Ok::<Config, Seq<char>>(c),
        r matches Err(m) ==> config_from(args@.map_values(|a: String| a@)) == Err::<Config, Seq<char>>(m@),
{
    let ghost view = args@.map_values(|a: String| a@);
    let mut st = ParseState {
        scenario: Scenario::FullFillSameLevel,
        orders: None,
        symbols: DEFAULT_SYMBOLS,
        sweep_depth: DEFAULT_SWEEP_DEPTH,
        publisher_delay_ms: DEFAULT_PUBLISHER_DELAY_MS,
        timeout_sec: DEFAULT_TIMEOUT_SEC,
        duration_sec: None,
        warmup_sec: 0,
        target_commands_per_sec: None,
    };
    let mut i: usize = 0;
    while i < args.len()
        invariant
            view == args@.map_values(|a: String| a@),
            read_options(view, i as int, st) == read_options(view, 0, initial_state()),
        decreases args.len() - i,
    {
        match apply_option(&args, i, &mut st) {
            Ok(()) => {},
            Err(m) => {
                return Err(m);
            },
        }
        if i + 2 < args.len() {
            i = i + 2;
        } else {
            proof {
                assert(read_options(view, (i + 2) as int, st) == Ok::<ParseState, Seq<char>>(st));
            }
            i = args.len();
        }
    }
    let mode = match st.duration_sec {
        Some(duration_sec) => {
            if st.orders.is_some() {
                return Err(String::from_str("--orders와 --duration-sec는 함께 사용할 수 없습니다"));
            }
            match st.target_commands_per_sec {
                None => {
                    return Err(
                        String::from_str(
                            "--duration-sec를 사용할 때는 --target-commands-per-sec가 필요합니다",
                        ),
                    );
                },
                Some(target_commands_per_sec) => RunMode::Paced {
                    warmup_sec: st.warmup_sec,
                    duration_sec,
                    target_commands_per_sec,
                },
            }
        },
        None => match parse_burst_orders(st.orders, st.warmup_sec, st.target_commands_per_sec) {
            Ok(orders) => RunMode::Burst { orders },
            Err(e) => return Err(e),
        },
    };
    Ok(
        Config {
            scenario: st.scenario,
            mode,
            symbols: st.symbols,
            sweep_depth: st.sweep_depth,
            publisher_delay_ms: st.publisher_delay_ms,
            timeout_sec: st.timeout_sec,
        },
    )
}

/// The workload count of a burst run: refuses a target rate or a warm-up, which only a
/// paced run takes.
pub fn parse_burst_orders(orders: Option<usize>, warmup_sec: u64, target_commands_per_sec: Option<u64>) -> (r: Result<usize, String>)
    ensures
        r matches Ok(n) ==> target_commands_per_sec is None && warmup_sec == 0 && n == match orders {
            Some(n) => n,
            None => DEFAULT_ORDERS,
        },
        r matches Err(m) ==> if target_commands_per_sec is Some {
            m@ == "--target-commands-per-sec는 --duration-sec와 함께 사용해야 합니다"@
        } else {
            warmup_sec != 0 && m@ == "--warmup-sec는 --duration-sec와 함께 사용해야 합니다"@
        },
{
    if target_commands_per_sec.is_some() {
        return Err(String::from_str("--target-commands-per-sec는 --duration-sec와 함께 사용해야 합니다"));
    }
    if warmup_sec != 0 {
        return Err(String::from_str("--warmup-sec는 --duration-sec와 함께 사용해야 합니다"));
    }
    match orders {
        Some(n) => Ok(n),
        None => Ok(DEFAULT_ORDERS),
    }
}

} // verus!
