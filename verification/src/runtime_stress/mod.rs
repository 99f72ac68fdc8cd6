pub mod config;
pub mod workload;
pub mod latency;
pub mod stats;
pub mod summary_format;
pub mod runner;
