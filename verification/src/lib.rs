pub mod engine;
pub mod parser;
