use vstd::prelude::*;
use super::types::{CompareTarget, Condition, ConditionGroup, ConditionNode, Operator};
use crate::utils::decimal::{decimal, usize_to_decimal};

verus! {

/// Reference to an indicator within a strategy, with convenience methods for building conditions.
#[derive(Debug, Clone, PartialEq)]
pub struct IndicatorRef {
    pub name: String,
}

/// `prefix` followed by the decimal rendering of `n`.
pub open spec fn numbered(prefix: Seq<char>, n: nat) -> Seq<char> {
    prefix + decimal(n)
}

/// Name of a MACD line reference: `macd_{fast}_{slow}_{signal}{suffix}`.
pub open spec fn macd_name(fast: nat, slow: nat, signal: nat, suffix: Seq<char>) -> Seq<char> {
    "macd_"@ + decimal(fast) + "_"@ + decimal(slow) + "_"@ + decimal(signal) + suffix
}

/// Name of a stochastic line reference: `stoch_{k}_{d}{suffix}`.
pub open spec fn stoch_name(k: nat, d: nat, suffix: Seq<char>) -> Seq<char> {
    "stoch_"@ + decimal(k) + "_"@ + decimal(d) + suffix
}

/// A condition node made of one condition.
pub open spec fn leaf<V>(left: String, operator: Operator, right: CompareTarget<V>) -> ConditionNode<V> {
    ConditionNode::Condition(Condition { left, operator, right })
}

fn with_number(prefix: &str, n: usize) -> (s: String)
    ensures
        s@ == numbered(prefix@, n as nat),
{
    let mut s = String::from_str(prefix);
    let digits = usize_to_decimal(n);
    s.append(digits.as_str());
    s
}

fn append_number(s: &mut String, n: usize)
    ensures
        final(s)@ == old(s)@ + decimal(n as nat),
{
    let digits = usize_to_decimal(n);
    s.append(digits.as_str());
}

impl IndicatorRef {
    /// Create a new indicator reference.
    pub fn new(name: &str) -> (r: Self)
        ensures
            r.name@ == name@,
    {
        IndicatorRef { name: name.to_owned() }
    }

    /// SMA convenience constructor.
    pub fn sma(period: usize) -> (r: Self)
        ensures
            r.name@ == numbered("sma"@, period as nat),
    {
        IndicatorRef { name: with_number("sma", period) }
    }

    /// EMA convenience constructor.
    pub fn ema(period: usize) -> (r: Self)
        ensures
            r.name@ == numbered("ema"@, period as nat),
    {
        IndicatorRef { name: with_number("ema", period) }
    }

    /// MACD convenience constructor.
    pub fn macd(fast: usize, slow: usize, signal: usize) -> (r: Self)
        ensures
            r.name@ == macd_name(fast as nat, slow as nat, signal as nat, "_line"@),
    {
        let mut s = with_number("macd_", fast);
        s.append("_");
        append_number(&mut s, slow);
        s.append("_");
        append_number(&mut s, signal);
        s.append("_line");
        IndicatorRef { name: s }
    }

    /// MACD signal line convenience constructor.
    pub fn macd_signal(fast: usize, slow: usize, signal: usize) -> (r: Self)
        ensures
            r.name@ == macd_name(fast as nat, slow as nat, signal as nat, "_signal"@),
    {
        let mut s = with_number("macd_", fast);
        s.append("_");
        append_number(&mut s, slow);
        s.append("_");
        append_number(&mut s, signal);
        s.append("_signal");
        IndicatorRef { name: s }
    }

    /// RSI convenience constructor.
    pub fn rsi(period: usize) -> (r: Self)
        ensures
            r.name@ == numbered("rsi"@, period as nat),
    {
        IndicatorRef { name: with_number("rsi", period) }
    }

    /// Stochastic %K convenience constructor.
    pub fn stoch_k(k_period: usize, d_period: usize) -> (r: Self)
        ensures
            r.name@ == stoch_name(k_period as nat, d_period as nat, "_k"@),
    {
        let mut s = with_number("stoch_", k_period);
        s.append("_");
        append_number(&mut s, d_period);
        s.append("_k");
        IndicatorRef { name: s }
    }

    /// Stochastic %D convenience constructor.
    pub fn stoch_d(k_period: usize, d_period: usize) -> (r: Self)
        ensures
            r.name@ == stoch_name(k_period as nat, d_period as nat, "_d"@),
    {
        let mut s = with_number("stoch_", k_period);
        s.append("_");
        append_number(&mut s, d_period);
        s.append("_d");
        IndicatorRef { name: s }
    }

    /// ATR convenience constructor.
    pub fn atr(period: usize) -> (r: Self)
        ensures
            r.name@ == numbered("atr"@, period as nat),
    {
        IndicatorRef { name: with_number("atr", period) }
    }

    /// Volume SMA convenience constructor.
    pub fn volume_sma(period: usize) -> (r: Self)
        ensures
            r.name@ == numbered("volume_sma_"@, period as nat),
    {
        IndicatorRef { name: with_number("volume_sma_", period) }
    }

    /// OBV convenience constructor.
    pub fn obv() -> (r: Self)
        ensures
            r.name@ == "obv"@,
    {
        IndicatorRef { name: String::from_str("obv") }
    }

    /// Pivot Points convenience constructor.
    pub fn pivot_points() -> (r: Self)
        ensures
            r.name@ == "pivot_points"@,
    {
        IndicatorRef { name: String::from_str("pivot_points") }
    }

    // Condition building methods

    /// Create a condition: this indicator crosses above a value.
    pub fn crosses_above<V>(self, value: V) -> (r: ConditionNode<V>)
        ensures
            r == leaf(self.name, Operator::CrossesAbove, CompareTarget::Value(value)),
    {
        ConditionNode::Condition(Condition { left: self.name, operator: Operator::CrossesAbove, right: CompareTarget::Value(value) })
    }

    /// Create a condition: this indicator crosses above another indicator.
    pub fn crosses_above_indicator<V>(self, other: IndicatorRef) -> (r: ConditionNode<V>)
        ensures
            r == leaf(self.name, Operator::CrossesAbove, CompareTarget::<V>::Indicator(other.name)),
    {
        ConditionNode::Condition(Condition { left: self.name, operator: Operator::CrossesAbove, right: CompareTarget::Indicator(other.name) })
    }

    /// Create a condition: this indicator crosses below a value.
    pub fn crosses_below<V>(self, value: V) -> (r: ConditionNode<V>)
        ensures
            r == leaf(self.name, Operator::CrossesBelow, CompareTarget::Value(value)),
    {
        ConditionNode::Condition(Condition { left: self.name, operator: Operator::CrossesBelow, right: CompareTarget::Value(value) })
    }

    /// Create a condition: this indicator crosses below another indicator.
    pub fn crosses_below_indicator<V>(self, other: IndicatorRef) -> (r: ConditionNode<V>)
        ensures
            r == leaf(self.name, Operator::CrossesBelow, CompareTarget::<V>::Indicator(other.name)),
    {
        ConditionNode::Condition(Condition { left: self.name, operator: Operator::CrossesBelow, right: CompareTarget::Indicator(other.name) })
    }

    /// Create a condition: this indicator is above a value.
    pub fn is_above<V>(self, value: V) -> (r: ConditionNode<V>)
        ensures
            r == leaf(self.name, Operator::IsAbove, CompareTarget::Value(value)),
    {
        ConditionNode::Condition(Condition { left: self.name, operator: Operator::IsAbove, right: CompareTarget::Value(value) })
    }

    /// Create a condition: this indicator is above another indicator.
    pub fn is_above_indicator<V>(self, other: IndicatorRef) -> (r: ConditionNode<V>)
        ensures
            r == leaf(self.name, Operator::IsAbove, CompareTarget::<V>::Indicator(other.name)),
    {
        ConditionNode::Condition(Condition { left: self.name, operator: Operator::IsAbove, right: CompareTarget::Indicator(other.name) })
    }

    /// Create a condition: this indicator is below a value.
    pub fn is_below<V>(self, value: V) -> (r: ConditionNode<V>)
        ensures
            r == leaf(self.name, Operator::IsBelow, CompareTarget::Value(value)),
    {
        ConditionNode::Condition(Condition { left: self.name, operator: Operator::IsBelow, right: CompareTarget::Value(value) })
    }

    /// Create a condition: this indicator is below another indicator.
    pub fn is_below_indicator<V>(self, other: IndicatorRef) -> (r: ConditionNode<V>)
        ensures
            r == leaf(self.name, Operator::IsBelow, CompareTarget::<V>::Indicator(other.name)),
    {
        ConditionNode::Condition(Condition { left: self.name, operator: Operator::IsBelow, right: CompareTarget::Indicator(other.name) })
    }

    /// Create a condition: this indicator equals a value (within epsilon).
    pub fn equals<V>(self, value: V) -> (r: ConditionNode<V>)
        ensures
            r == leaf(self.name, Operator::Equals, CompareTarget::Value(value)),
    {
        ConditionNode::Condition(Condition { left: self.name, operator: Operator::Equals, right: CompareTarget::Value(value) })
    }

    /// Create a condition: this indicator equals another indicator (within epsilon).
    pub fn equals_indicator<V>(self, other: IndicatorRef) -> (r: ConditionNode<V>)
        ensures
            r == leaf(self.name, Operator::Equals, CompareTarget::<V>::Indicator(other.name)),
    {
        ConditionNode::Condition(Condition { left: self.name, operator: Operator::Equals, right: CompareTarget::Indicator(other.name) })
    }

    /// Create a condition: this indicator is between two values.
    pub fn is_between<V>(self, lower: V, upper: V) -> (r: ConditionNode<V>)
        ensures
            r == leaf(self.name, Operator::IsBetween, CompareTarget::Range(lower, upper)),
    {
        ConditionNode::Condition(Condition { left: self.name, operator: Operator::IsBetween, right: CompareTarget::Range(lower, upper) })
    }

    /// Create a condition: this indicator is rising over `bars` bars.
    pub fn is_rising<V>(self, bars: u32) -> (r: ConditionNode<V>)
        ensures
            r == leaf(self.name, Operator::IsRising(bars), CompareTarget::<V>::NoTarget),
    {
        ConditionNode::Condition(Condition { left: self.name, operator: Operator::IsRising(bars), right: CompareTarget::NoTarget })
    }

    /// Create a condition: this indicator is falling over `bars` bars.
    pub fn is_falling<V>(self, bars: u32) -> (r: ConditionNode<V>)
        ensures
            r == leaf(self.name, Operator::IsFalling(bars), CompareTarget::<V>::NoTarget),
    {
        ConditionNode::Condition(Condition { left: self.name, operator: Operator::IsFalling(bars), right: CompareTarget::NoTarget })
    }

    /// This indicator scaled by a multiplier.
    pub fn scaled<V>(self, multiplier: V) -> (r: ScaledIndicatorRef<V>)
        ensures
            r.name == self.name,
            r.multiplier == multiplier,
    {
        ScaledIndicatorRef { name: self.name, multiplier }
    }
}

/// A scaled indicator reference for use in conditions.
#[derive(Debug, Clone, PartialEq)]
pub struct ScaledIndicatorRef<V> {
    pub name: String,
    pub multiplier: V,
}

/// Create an AllOf condition group.
pub fn all_of<V>(conditions: Vec<ConditionNode<V>>) -> (r: ConditionNode<V>)
    ensures
        r == ConditionNode::Group(ConditionGroup::AllOf(conditions)),
{
    ConditionNode::Group(ConditionGroup::AllOf(conditions))
}

/// Create an AnyOf condition group.
pub fn any_of<V>(conditions: Vec<ConditionNode<V>>) -> (r: ConditionNode<V>)
    ensures
        r == ConditionNode::Group(ConditionGroup::AnyOf(conditions)),
{
    ConditionNode::Group(ConditionGroup::AnyOf(conditions))
}

} // verus!
