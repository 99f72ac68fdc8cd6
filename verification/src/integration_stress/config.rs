use vstd::prelude::*;

use crate::runtime_stress::config::{
    bounded_u64_from, message, missing_value_message, nonzero_u64_from, nonzero_usize_from,
    parse_bounded_u64, parse_nonzero_u64, parse_nonzero_usize, scenario_from, DEFAULT_ORDERS,
    DEFAULT_SWEEP_DEPTH, DEFAULT_SYMBOLS, DEFAULT_TIMEOUT_SEC, MAX_DURATION_SEC, MAX_ORDERS,
    MAX_SWEEP_DEPTH, MAX_SYMBOLS, MAX_TARGET_COMMANDS_PER_SEC,
};
use crate::text::str_eq;

pub use crate::runtime_stress::config::{RunMode, Scenario};

verus! {

pub const DEFAULT_CONCURRENCY: usize = 64;
pub const MAX_CONCURRENCY: usize = 10_000;
pub const DEFAULT_CONNECTIONS: usize = 8;
pub const MAX_CONNECTIONS: usize = 1_024;
pub const DEFAULT_SETTLE_TIMEOUT_SEC: u64 = 30;

/// The settings of an end-to-end (gRPC in, Kafka out) stress run.
#[derive(Clone, Debug, PartialEq, Eq)]
pub struct Config {
    pub scenario: Scenario,
    pub mode: RunMode,
    pub symbols: usize,
    pub sweep_depth: usize,
    /// Workloads in flight at once.
    pub concurrency: usize,
    /// Separate gRPC connections.
    pub connections: usize,
    pub timeout_sec: u64,
    /// How long to wait for the events of accepted commands after sending.
    pub settle_timeout_sec: u64,
    pub grpc_endpoint: String,
    pub kafka_brokers: String,
    pub kafka_topic: String,
}

/// The settings of a run as plain values.
pub struct ConfigView {
    pub scenario: Scenario,
    pub mode: RunMode,
    pub symbols: usize,
    pub sweep_depth: usize,
    pub concurrency: usize,
    pub connections: usize,
    pub timeout_sec: u64,
    pub settle_timeout_sec: u64,
    pub grpc_endpoint: Seq<char>,
    pub kafka_brokers: Seq<char>,
    pub kafka_topic: Seq<char>,
}

impl Config {
    pub open spec fn view_config(&self) -> ConfigView {
        ConfigView {
            scenario: self.scenario,
            mode: self.mode,
            symbols: self.symbols,
            sweep_depth: self.sweep_depth,
            concurrency: self.concurrency,
            connections: self.connections,
            timeout_sec: self.timeout_sec,
            settle_timeout_sec: self.settle_timeout_sec,
            grpc_endpoint: self.grpc_endpoint@,
            kafka_brokers: self.kafka_brokers@,
            kafka_topic: self.kafka_topic@,
        }
    }
}

/// Nothing read yet: every setting at its default.
pub open spec fn initial_state() -> ParseState {
    ParseState {
        scenario: Scenario::FullFillSameLevel,
        orders: None,
        symbols: DEFAULT_SYMBOLS,
        sweep_depth: DEFAULT_SWEEP_DEPTH,
        concurrency: DEFAULT_CONCURRENCY,
        connections: DEFAULT_CONNECTIONS,
        timeout_sec: DEFAULT_TIMEOUT_SEC,
        settle_timeout_sec: DEFAULT_SETTLE_TIMEOUT_SEC,
        duration_sec: None,
        warmup_sec: 0,
        target_commands_per_sec: None,
        grpc_endpoint: "http://localhost:50051"@,
        kafka_brokers: "localhost:9092"@,
        kafka_topic: "matching-engine-events"@,
    }
}

/// The options read so far.
pub struct ParseState {
    pub scenario: Scenario,
    pub orders: Option<usize>,
    pub symbols: usize,
    pub sweep_depth: usize,
    pub concurrency: usize,
    pub connections: usize,
    pub timeout_sec: u64,
    pub settle_timeout_sec: u64,
    pub duration_sec: Option<u64>,
    pub warmup_sec: u64,
    pub target_commands_per_sec: Option<u64>,
    pub grpc_endpoint: Seq<char>,
    pub kafka_brokers: Seq<char>,
    pub kafka_topic: Seq<char>,
}

/// The options read so far, as the parser holds them.
struct ParseVars {
    scenario: Scenario,
    orders: Option<usize>,
    symbols: usize,
    sweep_depth: usize,
    concurrency: usize,
    connections: usize,
    timeout_sec: u64,
    settle_timeout_sec: u64,
    duration_sec: Option<u64>,
    warmup_sec: u64,
    target_commands_per_sec: Option<u64>,
    grpc_endpoint: String,
    kafka_brokers: String,
    kafka_topic: String,
}

impl ParseVars {
    spec fn state(&self) -> ParseState {
        ParseState {
            scenario: self.scenario,
            orders: self.orders,
            symbols: self.symbols,
            sweep_depth: self.sweep_depth,
            concurrency: self.concurrency,
            connections: self.connections,
            timeout_sec: self.timeout_sec,
            settle_timeout_sec: self.settle_timeout_sec,
            duration_sec: self.duration_sec,
            warmup_sec: self.warmup_sec,
            target_commands_per_sec: self.target_commands_per_sec,
            grpc_endpoint: self.grpc_endpoint@,
            kafka_brokers: self.kafka_brokers@,
            kafka_topic: self.kafka_topic@,
        }
    }
}

/// The value after the option at `i`, or the message that it is missing.
pub open spec fn value_after(args: Seq<Seq<char>>, i: int) -> Result<Seq<char>, Seq<char>> {
    if i + 1 < args.len() {
        Ok(args[i + 1])
    } else {
        Err(missing_value_message(args[i]))
    }
}

/// Reads the option at `i` (and its value) into `st`.
pub open spec fn read_option(args: Seq<Seq<char>>, i: int, st: ParseState) -> Result<ParseState, Seq<char>> {
    let arg = args[i];
    match value_after(args, i) {
        Err(e) => if arg == "--scenario"@ || arg == "--orders"@ || arg == "--symbols"@ || arg == "--sweep-depth"@
            || arg == "--concurrency"@ || arg == "--connections"@ || arg == "--timeout-sec"@ || arg
            == "--settle-timeout-sec"@ || arg == "--duration-sec"@ || arg == "--warmup-sec"@ || arg
            == "--target-commands-per-sec"@ || arg == "--grpc-endpoint"@ || arg == "--kafka-brokers"@ || arg
            == "--kafka-topic"@ {
            Err(e)
        } else {
            Err("알 수 없는 옵션: "@ + arg)
        },
        Ok(v) => if arg == "--scenario"@ {
            match scenario_from(v) {
                Err(e) => Err(e),
                Ok(s) => Ok(ParseState { scenario: s, ..st }),
            }
        } else if arg == "--orders"@ {
            match nonzero_usize_from(v, arg, MAX_ORDERS) {
                Err(e) => Err(e),
                Ok(n) => Ok(ParseState { orders: Some(n), ..st }),
            }
        } else if arg == "--symbols"@ {
            match nonzero_usize_from(v, arg, MAX_SYMBOLS) {
                Err(e) => Err(e),
                Ok(n) => Ok(ParseState { symbols: n, ..st }),
            }
        } else if arg == "--sweep-depth"@ {
            match nonzero_usize_from(v, arg, MAX_SWEEP_DEPTH) {
                Err(e) => Err(e),
                Ok(n) => Ok(ParseState { sweep_depth: n, ..st }),
            }
        } else if arg == "--concurrency"@ {
            match nonzero_usize_from(v, arg, MAX_CONCURRENCY) {
                Err(e) => Err(e),
                Ok(n) => Ok(ParseState { concurrency: n, ..st }),
            }
        } else if arg == "--connections"@ {
            match nonzero_usize_from(v, arg, MAX_CONNECTIONS) {
                Err(e) => Err(e),
                Ok(n) => Ok(ParseState { connections: n, ..st }),
            }
        } else if arg == "--timeout-sec"@ {
            match nonzero_u64_from(v, arg, MAX_DURATION_SEC) {
                Err(e) => Err(e),
                Ok(n) => Ok(ParseState { timeout_sec: n, ..st }),
            }
        } else if arg == "--settle-timeout-sec"@ {
            match nonzero_u64_from(v, arg, MAX_DURATION_SEC) {
                Err(e) => Err(e),
                Ok(n) => Ok(ParseState { settle_timeout_sec: n, ..st }),
            }
        } else if arg == "--duration-sec"@ {
            match nonzero_u64_from(v, arg, MAX_DURATION_SEC) {
                Err(e) => Err(e),
                Ok(n) => Ok(ParseState { duration_sec: Some(n), ..st }),
            }
        } else if arg == "--warmup-sec"@ {
            match bounded_u64_from(v, arg, MAX_DURATION_SEC) {
                Err(e) => Err(e),
                Ok(n) => Ok(ParseState { warmup_sec: n, ..st }),
            }
        } else if arg == "--target-commands-per-sec"@ {
            match nonzero_u64_from(v, arg, MAX_TARGET_COMMANDS_PER_SEC) {
                Err(e) => Err(e),
                Ok(n) => Ok(ParseState { target_commands_per_sec: Some(n), ..st }),
            }
        } else if arg == "--grpc-endpoint"@ {
            Ok(ParseState { grpc_endpoint: v, ..st })
        } else if arg == "--kafka-brokers"@ {
            Ok(ParseState { kafka_brokers: v, ..st })
        } else if arg == "--kafka-topic"@ {
            Ok(ParseState { kafka_topic: v, ..st })
        } else {
            Err("알 수 없는 옵션: "@ + arg)
        },
    }
}

/// Reads the options from position `i` on, each followed by its value, into `st`.
pub open spec fn read_options(args: Seq<Seq<char>>, i: int, st: ParseState) -> Result<ParseState, Seq<char>>
    decreases args.len() - i,
{
    if i < 0 || i >= args.len() {
        Ok(st)
    } else {
        match read_option(args, i, st) {
            Err(e) => Err(e),
            Ok(next) => read_options(args, i + 2, next),
        }
    }
}

/// The run mode the options choose, or the message refusing their combination.
pub open spec fn mode_from(st: ParseState) -> Result<RunMode, Seq<char>> {
    match st.duration_sec {
        Some(d) => if st.orders is Some {
            Err("--orders와 --duration-sec는 함께 사용할 수 없습니다"@)
        } else {
            match st.target_commands_per_sec {
                None => Err("--duration-sec를 사용할 때는 --target-commands-per-sec가 필요합니다"@),
                Some(t) => Ok(RunMode::Paced { warmup_sec: st.warmup_sec, duration_sec: d, target_commands_per_sec: t }),
            }
        },
        None => if st.target_commands_per_sec is Some {
            Err("--target-commands-per-sec는 --duration-sec와 함께 사용해야 합니다"@)
        } else if st.warmup_sec != 0 {
            Err("--warmup-sec는 --duration-sec와 함께 사용해야 합니다"@)
        } else {
            Ok(
                RunMode::Burst {
                    orders: match st.orders {
                        Some(n) => n,
                        None => DEFAULT_ORDERS,
                    },
                },
            )
        },
    }
}

/// The settings the command-line arguments `args` give, or the message refusing them.
pub open spec fn config_from(args: Seq<Seq<char>>) -> Result<ConfigView, Seq<char>> {
    match read_options(args, 0, initial_state()) {
        Err(e) => Err(e),
        Ok(st) => match mode_from(st) {
            Err(e) => Err(e),
            Ok(mode) => Ok(
                ConfigView {
                    scenario: st.scenario,
                    mode,
                    symbols: st.symbols,
                    sweep_depth: st.sweep_depth,
                    concurrency: st.concurrency,
                    connections: st.connections,
                    timeout_sec: st.timeout_sec,
                    settle_timeout_sec: st.settle_timeout_sec,
                    grpc_endpoint: st.grpc_endpoint,
                    kafka_brokers: st.kafka_brokers,
                    kafka_topic: st.kafka_topic,
                },
            ),
        },
    }
}

impl Default for Config {
    fn default() -> (c: Config)
        ensures
            c.view_config() == (ConfigView {
                scenario: Scenario::FullFillSameLevel,
                mode: RunMode::Burst { orders: DEFAULT_ORDERS },
                symbols: DEFAULT_SYMBOLS,
                sweep_depth: DEFAULT_SWEEP_DEPTH,
                concurrency: DEFAULT_CONCURRENCY,
                connections: DEFAULT_CONNECTIONS,
                timeout_sec: DEFAULT_TIMEOUT_SEC,
                settle_timeout_sec: DEFAULT_SETTLE_TIMEOUT_SEC,
                grpc_endpoint: "http://localhost:50051"@,
                kafka_brokers: "localhost:9092"@,
                kafka_topic: "matching-engine-events"@,
            }),
    {
        Config {
            scenario: Scenario::FullFillSameLevel,
            mode: RunMode::Burst { orders: DEFAULT_ORDERS },
            symbols: DEFAULT_SYMBOLS,
            sweep_depth: DEFAULT_SWEEP_DEPTH,
            concurrency: DEFAULT_CONCURRENCY,
            connections: DEFAULT_CONNECTIONS,
            timeout_sec: DEFAULT_TIMEOUT_SEC,
            settle_timeout_sec: DEFAULT_SETTLE_TIMEOUT_SEC,
            grpc_endpoint: String::from_str("http://localhost:50051"),
            kafka_brokers: String::from_str("localhost:9092"),
            kafka_topic: String::from_str("matching-engine-events"),
        }
    }
}

/// Whether `arg` is one of the options this tool knows.
fn is_known_option(arg: &str) -> (b: bool)
    ensures
        b == (arg@ == "--scenario"@ || arg@ == "--orders"@ || arg@ == "--symbols"@ || arg@ == "--sweep-depth"@
            || arg@ == "--concurrency"@ || arg@ == "--connections"@ || arg@ == "--timeout-sec"@ || arg@
            == "--settle-timeout-sec"@ || arg@ == "--duration-sec"@ || arg@ == "--warmup-sec"@ || arg@
            == "--target-commands-per-sec"@ || arg@ == "--grpc-endpoint"@ || arg@ == "--kafka-brokers"@
            || arg@ == "--kafka-topic"@),
{
    str_eq(arg, "--scenario") || str_eq(arg, "--orders") || str_eq(arg, "--symbols") || str_eq(arg, "--sweep-depth")
        || str_eq(arg, "--concurrency") || str_eq(arg, "--connections") || str_eq(arg, "--timeout-sec") || str_eq(
        arg,
        "--settle-timeout-sec",
    ) || str_eq(arg, "--duration-sec") || str_eq(arg, "--warmup-sec") || str_eq(arg, "--target-commands-per-sec")
        || str_eq(arg, "--grpc-endpoint") || str_eq(arg, "--kafka-brokers") || str_eq(arg, "--kafka-topic")
}

/// Reads the option at `i` into `st`.
fn apply_option(args: &Vec<String>, i: usize, st: &mut ParseVars) -> (r: Result<(), String>)
    requires
        i < args@.len(),
    ensures
        r is Ok ==> read_option(args@.map_values(|a: String| a@), i as int, old(st).state()) == Ok::<ParseState, Seq<char>>(
            final(st).state(),
        ),
        r matches Err(m) ==> read_option(args@.map_values(|a: String| a@), i as int, old(st).state()) == Err::<
            ParseState,
            Seq<char>,
        >(m@),
{
    let ghost view = args@.map_values(|a: String| a@);
    let arg = args[i].as_str();
    assert(view[i as int] == arg@);
    if i >= args.len() - 1 {
        if is_known_option(arg) {
            return Err(message(arg, " 값이 누락되었습니다"));
        } else {
            return Err(message("알 수 없는 옵션: ", arg));
        }
    }
    let value = args[i + 1].as_str();
    assert(view[i + 1] == value@);
    if str_eq(arg, "--scenario") {
        match Scenario::parse(value) {
            Ok(s) => st.scenario = s,
            Err(e) => return Err(e),
        }
    } else if str_eq(arg, "--orders") {
        match parse_nonzero_usize(value, arg, MAX_ORDERS) {
            Ok(n) => st.orders = Some(n),
            Err(e) => return Err(e),
        }
    } else if str_eq(arg, "--symbols") {
        match parse_nonzero_usize(value, arg, MAX_SYMBOLS) {
            Ok(n) => st.symbols = n,
            Err(e) => return Err(e),
        }
    } else if str_eq(arg, "--sweep-depth") {
        match parse_nonzero_usize(value, arg, MAX_SWEEP_DEPTH) {
            Ok(n) => st.sweep_depth = n,
            Err(e) => return Err(e),
        }
    } else if str_eq(arg, "--concurrency") {
        match parse_nonzero_usize(value, arg, MAX_CONCURRENCY) {
            Ok(n) => st.concurrency = n,
            Err(e) => return Err(e),
        }
    } else if str_eq(arg, "--connections") {
        match parse_nonzero_usize(value, arg, MAX_CONNECTIONS) {
            Ok(n) => st.connections = n,
            Err(e) => return Err(e),
        }
    } else if str_eq(arg, "--timeout-sec") {
        match parse_nonzero_u64(value, arg, MAX_DURATION_SEC) {
            Ok(n) => st.timeout_sec = n,
            Err(e) => return Err(e),
        }
    } else if str_eq(arg, "--settle-timeout-sec") {
        match parse_nonzero_u64(value, arg, MAX_DURATION_SEC) {
            Ok(n) => st.settle_timeout_sec = n,
            Err(e) => return Err(e),
        }
    } else if str_eq(arg, "--duration-sec") {
        match parse_nonzero_u64(value, arg, MAX_DURATION_SEC) {
            Ok(n) => st.duration_sec = Some(n),
            Err(e) => return Err(e),
        }
    } else if str_eq(arg, "--warmup-sec") {
        match parse_bounded_u64(value, arg, MAX_DURATION_SEC) {
            Ok(n) => st.warmup_sec = n,
            Err(e) => return Err(e),
        }
    } else if str_eq(arg, "--target-commands-per-sec") {
        match parse_nonzero_u64(value, arg, MAX_TARGET_COMMANDS_PER_SEC) {
            Ok(n) => st.target_commands_per_sec = Some(n),
            Err(e) => return Err(e),
        }
    } else if str_eq(arg, "--grpc-endpoint") {
        st.grpc_endpoint = String::from_str(value);
    } else if str_eq(arg, "--kafka-brokers") {
        st.kafka_brokers = String::from_str(value);
    } else if str_eq(arg, "--kafka-topic") {
        st.kafka_topic = String::from_str(value);
    } else {
        return Err(message("알 수 없는 옵션: ", arg));
    }
    Ok(())
}

/// Reads the settings of a run from its command-line arguments (the program name left out),
/// as the runtime stress tool does, with the gRPC and Kafka settings besides. Each option
/// takes the next argument as its value; an unknown option, a missing or malformed value,
/// and a value out of its range are refused with a message naming the option.
pub fn parse_config(args: Vec<String>) -> (r: Result<Config, String>)
    ensures
        r matches Ok(c) ==> config_from(args@.map_values(|a: String| a@)) == Ok::<ConfigView, Seq<char>>(c.view_config()),
        r matches Err(m) ==> config_from(args@.map_values(|a: String| a@)) == Err::<ConfigView, Seq<char>>(m@),
{
    let ghost view = args@.map_values(|a: String| a@);
    let mut st = ParseVars {
        scenario: Scenario::FullFillSameLevel,
        orders: None,
        symbols: DEFAULT_SYMBOLS,
        sweep_depth: DEFAULT_SWEEP_DEPTH,
        concurrency: DEFAULT_CONCURRENCY,
        connections: DEFAULT_CONNECTIONS,
        timeout_sec: DEFAULT_TIMEOUT_SEC,
        settle_timeout_sec: DEFAULT_SETTLE_TIMEOUT_SEC,
        duration_sec: None,
        warmup_sec: 0,
        target_commands_per_sec: None,
        grpc_endpoint: String::from_str("http://localhost:50051"),
        kafka_brokers: String::from_str("localhost:9092"),
        kafka_topic: String::from_str("matching-engine-events"),
    };
    let mut i: usize = 0;
    while i < args.len()
        invariant
            view == args@.map_values(|a: String| a@),
            read_options(view, i as int, st.state()) == read_options(view, 0, initial_state()),
        decreases args.len() - i,
    {
        match apply_option(&args, i, &mut st) {
            Ok(()) => {},
            Err(m) => {
                return Err(m);
            },
        }
        if i + 2 < args.len() {
            i = i + 2;
        } else {
            proof {
                assert(read_options(view, (i + 2) as int, st.state()) == Ok::<ParseState, Seq<char>>(st.state()));
            }
            i = args.len();
        }
    }
    let mode = match st.duration_sec {
        Some(duration_sec) => {
            if st.orders.is_some() {
                return Err(String::from_str("--orders와 --duration-sec는 함께 사용할 수 없습니다"));
            }
            match st.target_commands_per_sec {
                None => {
                    return Err(
                        String::from_str(
                            "--duration-sec를 사용할 때는 --target-commands-per-sec가 필요합니다",
                        ),
                    );
                },
                Some(target_commands_per_sec) => RunMode::Paced {
                    warmup_sec: st.warmup_sec,
                    duration_sec,
                    target_commands_per_sec,
                },
            }
        },
        None => {
            if st.target_commands_per_sec.is_some() {
                return Err(String::from_str("--target-commands-per-sec는 --duration-sec와 함께 사용해야 합니다"));
            }
            if st.warmup_sec != 0 {
                return Err(String::from_str("--warmup-sec는 --duration-sec와 함께 사용해야 합니다"));
            }
            RunMode::Burst {
                orders: match st.orders {
                    Some(n) => n,
                    None => DEFAULT_ORDERS,
                },
            }
        },
    };
    Ok(
        Config {
            scenario: st.scenario,
            mode,
            symbols: st.symbols,
            sweep_depth: st.sweep_depth,
            concurrency: st.concurrency,
            connections: st.connections,
            timeout_sec: st.timeout_sec,
            settle_timeout_sec: st.settle_timeout_sec,
            grpc_endpoint: st.grpc_endpoint,
            kafka_brokers: st.kafka_brokers,
            kafka_topic: st.kafka_topic,
        },
    )
}

} // verus!
