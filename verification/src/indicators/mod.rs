//! Indicator types whose state holds no floating-point value.
use vstd::prelude::*;

verus! {

/// Classic floor-trader pivot points calculated from a single candle's OHLC.
#[derive(Debug, Clone, Copy)]
pub struct PivotPoints;

impl PivotPoints {
    pub fn new() -> (r: Self) {
        PivotPoints
    }
}

impl Default for PivotPoints {
    fn default() -> (r: Self) {
        PivotPoints
    }
}

} // verus!
