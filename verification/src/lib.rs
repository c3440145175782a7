//! Composable technical analysis and strategy engine: the verified core.
pub mod backtest;
pub mod indicators;
pub mod strategy;
pub mod types;
pub mod utils;
