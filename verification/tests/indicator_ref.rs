use mantis_ta::strategy::indicator_ref::{all_of, any_of, IndicatorRef};
use mantis_ta::strategy::types::{CompareTarget, ConditionGroup, ConditionNode, Operator};

#[test]
fn indicator_ref_convenience_constructors() {
    let sma = IndicatorRef::sma(20);
    assert_eq!(sma.name, "sma20");

    let ema = IndicatorRef::ema(14);
    assert_eq!(ema.name, "ema14");

    let rsi = IndicatorRef::rsi(14);
    assert_eq!(rsi.name, "rsi14");

    let obv = IndicatorRef::obv();
    assert_eq!(obv.name, "obv");
}

#[test]
fn condition_building() {
    let sma = IndicatorRef::sma(20);
    let cond = sma.crosses_above(100.0);
    assert!(matches!(cond, ConditionNode::Condition(_)));
}

#[test]
fn condition_grouping() {
    let sma = IndicatorRef::sma(20);
    let rsi = IndicatorRef::rsi(14);

    let cond1 = sma.is_above(100.0);
    let cond2 = rsi.is_below(70.0);

    let group = all_of(vec![cond1, cond2]);
    assert!(matches!(group, ConditionNode::Group(ConditionGroup::AllOf(_))));
}

#[test]
fn scaled_indicator_ref() {
    let atr = IndicatorRef::atr(14);
    let scaled = atr.scaled(2.0);
    assert_eq!(scaled.multiplier, 2.0);
}

#[test]
fn multi_parameter_names() {
    assert_eq!(IndicatorRef::macd(12, 26, 9).name, "macd_12_26_9_line");
    assert_eq!(IndicatorRef::macd_signal(12, 26, 9).name, "macd_12_26_9_signal");
    assert_eq!(IndicatorRef::stoch_k(14, 3).name, "stoch_14_3_k");
    assert_eq!(IndicatorRef::stoch_d(14, 3).name, "stoch_14_3_d");
    assert_eq!(IndicatorRef::atr(0).name, "atr0");
    assert_eq!(IndicatorRef::volume_sma(20).name, "volume_sma_20");
    assert_eq!(IndicatorRef::pivot_points().name, "pivot_points");
    assert_eq!(IndicatorRef::new("price").name, "price");
    assert_eq!(IndicatorRef::sma(usize::MAX).name, format!("sma{}", usize::MAX));
}

#[test]
fn condition_builders_fill_operator_and_target() {
    let check = |node: ConditionNode<f64>, op: Operator, target: CompareTarget<f64>| match node {
        ConditionNode::Condition(c) => {
            assert_eq!(c.left, "sma5");
            assert_eq!(c.operator, op);
            assert_eq!(c.right, target);
        }
        _ => panic!("expected Condition"),
    };
    let other = || IndicatorRef::new("price");
    let price = || CompareTarget::Indicator("price".to_string());
    check(IndicatorRef::sma(5).crosses_above(1.0), Operator::CrossesAbove, CompareTarget::Value(1.0));
    check(IndicatorRef::sma(5).crosses_above_indicator(other()), Operator::CrossesAbove, price());
    check(IndicatorRef::sma(5).crosses_below(2.0), Operator::CrossesBelow, CompareTarget::Value(2.0));
    check(IndicatorRef::sma(5).crosses_below_indicator(other()), Operator::CrossesBelow, price());
    check(IndicatorRef::sma(5).is_above(3.0), Operator::IsAbove, CompareTarget::Value(3.0));
    check(IndicatorRef::sma(5).is_above_indicator(other()), Operator::IsAbove, price());
    check(IndicatorRef::sma(5).is_below(4.0), Operator::IsBelow, CompareTarget::Value(4.0));
    check(IndicatorRef::sma(5).is_below_indicator(other()), Operator::IsBelow, price());
    check(IndicatorRef::sma(5).equals(5.0), Operator::Equals, CompareTarget::Value(5.0));
    check(IndicatorRef::sma(5).equals_indicator(other()), Operator::Equals, price());
    check(IndicatorRef::sma(5).is_between(1.0, 2.0), Operator::IsBetween, CompareTarget::Range(1.0, 2.0));
    check(IndicatorRef::sma(5).is_rising(1), Operator::IsRising(1), CompareTarget::NoTarget);
    check(IndicatorRef::sma(5).is_falling(3), Operator::IsFalling(3), CompareTarget::NoTarget);
}

#[test]
fn any_of_builds_any_group() {
    let group: ConditionNode<f64> = any_of(vec![IndicatorRef::rsi(2).is_below(30.0)]);
    match group {
        ConditionNode::Group(ConditionGroup::AnyOf(children)) => assert_eq!(children.len(), 1),
        _ => panic!("expected AnyOf"),
    }
}
