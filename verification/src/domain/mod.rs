pub mod error;
pub mod order;
