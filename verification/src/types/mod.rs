use vstd::prelude::*;
use crate::utils::decimal::{decimal, usize_to_decimal};

verus! {

/// Which price field to use as input source.
#[derive(Debug, Clone, Copy, PartialEq, Eq, Structural)]
pub enum PriceSource {
    Open,
    High,
    Low,
    Close,
    HLC3,
    OHLC4,
    HL2,
}

/// Trading direction.
#[derive(Debug, Clone, Copy, PartialEq, Eq, Structural)]
pub enum Side {
    Long,
    Short,
}

/// Signal emitted by strategy evaluation.
#[derive(Debug, Clone, Copy, PartialEq, Eq, Structural)]
pub enum Signal {
    Entry(Side),
    Exit(ExitReason),
    Hold,
}

/// Why an exit was triggered.
#[derive(Debug, Clone, Copy, PartialEq, Eq, Structural)]
pub enum ExitReason {
    RuleTriggered,
    StopLoss,
    TakeProfit,
    TrailingStop,
    DailyLossLimit,
    DrawdownBreaker,
}

/// Candle timeframe.
#[derive(Debug, Clone, Copy, PartialEq, Eq, Hash, Structural)]
pub enum Timeframe {
    M1,
    M5,
    M15,
    M30,
    H1,
    H4,
    D1,
    W1,
    MN1,
}

/// Common error type for the crate.
#[derive(Debug, Clone)]
pub enum MantisError {
    InvalidParameter { param: &'static str, value: String, reason: &'static str },
    InsufficientData { required: usize, provided: usize },
    StrategyValidation(String),
    BacktestError(String),
}

/// The human-readable text of an error.
pub open spec fn error_message(e: MantisError) -> Seq<char> {
    match e {
        MantisError::InvalidParameter { param, value, reason } => "Invalid parameter: "@ + param@ + " = "@
            + value@ + " ("@ + reason@ + ")"@,
        MantisError::InsufficientData { required, provided } => "Insufficient data: need "@ + decimal(
            required as nat,
        ) + " candles, got "@ + decimal(provided as nat),
        MantisError::StrategyValidation(m) => "Strategy validation failed: "@ + m@,
        MantisError::BacktestError(m) => "Backtest error: "@ + m@,
    }
}

impl MantisError {
    /// The human-readable text of this error.
    pub fn message(&self) -> (s: String)
        ensures
            s@ == error_message(*self),
    {
        match self {
            MantisError::InvalidParameter { param, value, reason } => {
                let mut s = String::from_str("Invalid parameter: ");
                s.append(param);
                s.append(" = ");
                s.append(value.as_str());
                s.append(" (");
                s.append(reason);
                s.append(")");
                s
            },
            MantisError::InsufficientData { required, provided } => {
                let mut s = String::from_str("Insufficient data: need ");
                let r = usize_to_decimal(*required);
                s.append(r.as_str());
                s.append(" candles, got ");
                let p = usize_to_decimal(*provided);
                s.append(p.as_str());
                s
            },
            MantisError::StrategyValidation(m) => {
                let mut s = String::from_str("Strategy validation failed: ");
                s.append(m.as_str());
                s
            },
            MantisError::BacktestError(m) => {
                let mut s = String::from_str("Backtest error: ");
                s.append(m.as_str());
                s
            },
        }
    }
}

/// `e` is a strategy-validation failure whose message reads `msg`.
pub open spec fn is_validation_error(e: MantisError, msg: Seq<char>) -> bool {
    e matches MantisError::StrategyValidation(m) && m@ == msg
}

/// `e` is a backtest failure whose message reads `msg`.
pub open spec fn is_backtest_error(e: MantisError, msg: Seq<char>) -> bool {
    e matches MantisError::BacktestError(m) && m@ == msg
}

} // verus!
