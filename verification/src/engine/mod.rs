pub mod command;
pub mod dispatcher;
pub mod laws;
pub mod matching_engine;
pub mod orderbook;
pub mod result;
pub mod result_handler;
