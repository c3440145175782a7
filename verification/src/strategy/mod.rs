//! Strategy composition: condition trees, indicator references and evaluation.
pub mod indicator_ref;
pub mod types;

pub use indicator_ref::{all_of, any_of, IndicatorRef, ScaledIndicatorRef};
pub use types::{CompareTarget, Condition, ConditionGroup, ConditionNode, Operator};
pub mod evaluator;
pub mod names;
