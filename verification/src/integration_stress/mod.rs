pub mod client;
pub mod dispatch;
pub mod workload;
pub mod metrics;
pub mod config;
pub mod runner;
pub mod summary;
pub mod consumer;
