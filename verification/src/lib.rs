pub mod clock;
pub mod decimal;
pub mod domain;
pub mod ident;
pub mod text;
pub mod engine;
pub mod integration_stress;
pub mod runtime_stress;
pub mod sample_stats;
