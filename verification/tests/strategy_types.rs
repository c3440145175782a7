use mantis_ta::strategy::types::{
    check_build, clone_node, count_conditions, has_zero_period_reference, opposed_conditions, validate_condition_node,
    CompareTarget, Condition, ConditionGroup, ConditionNode, Operator,
};
use mantis_ta::strategy::indicator_ref::IndicatorRef;
use mantis_ta::types::MantisError;

fn sample_condition() -> ConditionNode<f64> {
    ConditionNode::Condition(Condition::new("sma20", Operator::CrossesAbove, CompareTarget::Value(100.0)))
}

fn validation_message(r: Result<(), MantisError>) -> String {
    match r {
        Err(MantisError::StrategyValidation(m)) => m,
        other => panic!("expected a validation error, got {:?}", other),
    }
}

#[test]
fn condition_group_nesting() {
    let cond1 = ConditionNode::Condition(Condition::new("sma_20", Operator::IsAbove, CompareTarget::Value(100.0)));
    let cond2 = ConditionNode::Condition(Condition::new("rsi_14", Operator::IsBelow, CompareTarget::Value(70.0)));
    let group = ConditionNode::Group(ConditionGroup::AllOf(vec![cond1, cond2]));
    assert!(matches!(group, ConditionNode::Group(_)));
}

#[test]
fn validation_rejects_excessive_nesting() {
    let leaf = sample_condition();
    let depth2 = ConditionNode::Group(ConditionGroup::AllOf(vec![leaf]));
    let depth1 = ConditionNode::Group(ConditionGroup::AllOf(vec![depth2]));
    let depth0 = ConditionNode::Group(ConditionGroup::AllOf(vec![depth1]));
    assert_eq!(
        validation_message(validate_condition_node(&depth0, 0)),
        "Condition nesting exceeds maximum depth of 2"
    );
}

#[test]
fn validation_accepts_valid_nesting() {
    let leaf = sample_condition();
    let depth1 = ConditionNode::Group(ConditionGroup::AnyOf(vec![leaf]));
    let depth0 = ConditionNode::Group(ConditionGroup::AllOf(vec![depth1]));
    assert!(validate_condition_node(&depth0, 0).is_ok());
}

#[test]
fn validation_rejects_oversized_group() {
    let conditions: Vec<ConditionNode<f64>> = (0..21).map(|_| sample_condition()).collect();
    let group = ConditionNode::Group(ConditionGroup::AllOf(conditions));
    assert_eq!(
        validation_message(validate_condition_node(&group, 0)),
        "Condition group exceeds maximum of 20 conditions"
    );
    let conditions: Vec<ConditionNode<f64>> = (0..20).map(|_| sample_condition()).collect();
    let group = ConditionNode::Group(ConditionGroup::AnyOf(conditions));
    assert!(validate_condition_node(&group, 0).is_ok());
}

#[test]
fn validation_reports_first_violation_in_walk_order() {
    // The second child nests too deeply; the third is too wide. The walk meets the depth first.
    let deep = ConditionNode::Group(ConditionGroup::AllOf(vec![ConditionNode::Group(
        ConditionGroup::AllOf(vec![ConditionNode::Group(ConditionGroup::AllOf(vec![sample_condition()]))]),
    )]));
    let wide = ConditionNode::Group(ConditionGroup::AnyOf((0..21).map(|_| sample_condition()).collect()));
    let root = ConditionNode::Group(ConditionGroup::AllOf(vec![sample_condition(), deep, wide]));
    assert_eq!(
        validation_message(validate_condition_node(&root, 0)),
        "Condition nesting exceeds maximum depth of 2"
    );
}

#[test]
fn check_build_order_of_rules() {
    let entry = sample_condition();
    assert_eq!(
        validation_message(check_build::<f64>(None, true, None, 1, None)),
        "Strategy must have an entry condition"
    );
    assert_eq!(
        validation_message(check_build(Some(&entry), false, None, 1, None)),
        "Strategy must have a stop-loss rule"
    );
    let range = MantisError::BacktestError("range".to_string());
    match check_build(Some(&entry), true, Some(range), 0, None) {
        Err(MantisError::BacktestError(m)) => assert_eq!(m, "range"),
        other => panic!("unexpected {:?}", other),
    }
    match check_build(Some(&entry), true, None, 0, None) {
        Err(MantisError::InvalidParameter { param, value, reason }) => {
            assert_eq!(param, "max_concurrent_positions");
            assert_eq!(value, "0");
            assert_eq!(reason, "must be at least 1");
        }
        other => panic!("unexpected {:?}", other),
    }
    assert!(check_build(Some(&entry), true, None, 1, None).is_ok());
    let wide = ConditionNode::Group(ConditionGroup::AllOf((0..21).map(|_| sample_condition()).collect()));
    assert_eq!(
        validation_message(check_build(Some(&entry), true, None, 3, Some(&wide))),
        "Condition group exceeds maximum of 20 conditions"
    );
}

#[test]
fn counts_and_copies_trees() {
    let inner = ConditionNode::Group(ConditionGroup::AnyOf(vec![sample_condition(), sample_condition()]));
    let root = ConditionNode::Group(ConditionGroup::AllOf(vec![sample_condition(), inner]));
    assert_eq!(count_conditions(&root), 3);
    assert_eq!(count_conditions(&sample_condition()), 1);
    let empty: ConditionNode<f64> = ConditionNode::Group(ConditionGroup::AllOf(vec![]));
    assert_eq!(count_conditions(&empty), 0);
    let copy = clone_node(&root);
    assert_eq!(copy, root);
    assert_eq!(root.clone(), root);
}

#[test]
fn build_rejects_zero_periods() {
    let zero: ConditionNode<f64> = IndicatorRef::sma(0).is_above(1.0);
    assert_eq!(
        validation_message(check_build(Some(&zero), true, None, 1, None)),
        "All indicator periods must be at least 1"
    );
    // A zero period on the right-hand side, or in the exit rule, counts too.
    let entry: ConditionNode<f64> = IndicatorRef::ema(20).crosses_above_indicator(IndicatorRef::macd(12, 0, 9));
    assert_eq!(
        validation_message(check_build(Some(&entry), true, None, 1, None)),
        "All indicator periods must be at least 1"
    );
    let ok: ConditionNode<f64> = IndicatorRef::obv().is_above(-1.0);
    let exit: ConditionNode<f64> = IndicatorRef::stoch_d(14, 0).is_below(20.0);
    assert!(has_zero_period_reference(&ok, Some(&exit)));
    assert!(!has_zero_period_reference(&ok, None));
    assert_eq!(
        validation_message(check_build(Some(&ok), true, None, 1, Some(&exit))),
        "All indicator periods must be at least 1"
    );
    assert!(check_build(Some(&ok), true, None, 1, None).is_ok());
    // The period rule comes after the positions rule and before the structure rules.
    match check_build(Some(&zero), true, None, 0, None) {
        Err(MantisError::InvalidParameter { param, .. }) => assert_eq!(param, "max_concurrent_positions"),
        other => panic!("unexpected {:?}", other),
    }
    let wide = ConditionNode::Group(ConditionGroup::AllOf((0..21).map(|_| IndicatorRef::sma(0).is_above(1.0)).collect()));
    assert_eq!(
        validation_message(check_build(Some(&wide), true, None, 1, None)),
        "All indicator periods must be at least 1"
    );
}

#[test]
fn finds_opposed_conditions_in_all_of_groups() {
    let above: ConditionNode<f64> = IndicatorRef::rsi(14).is_above(70.0);
    let below: ConditionNode<f64> = IndicatorRef::rsi(14).is_below(30.0);
    let other: ConditionNode<f64> = IndicatorRef::ema(20).is_below(30.0);
    let all = ConditionNode::Group(ConditionGroup::AllOf(vec![above.clone(), other.clone(), below.clone()]));
    let pairs = opposed_conditions(&all);
    assert_eq!(pairs.len(), 1);
    assert_eq!(pairs[0].0.operator, Operator::IsAbove);
    assert_eq!(pairs[0].1.operator, Operator::IsBelow);
    assert_eq!(pairs[0].0.left, "rsi14");
    // In an any-of group the two may both be wanted: no pair.
    let any = ConditionNode::Group(ConditionGroup::AnyOf(vec![above.clone(), below.clone()]));
    assert!(opposed_conditions(&any).is_empty());
    // A nested all-of group inside an any-of group is still checked.
    let nested = ConditionNode::Group(ConditionGroup::AnyOf(vec![other.clone(), all]));
    assert_eq!(opposed_conditions(&nested).len(), 1);
    // Siblings in different groups are not paired.
    let split = ConditionNode::Group(ConditionGroup::AllOf(vec![
        ConditionNode::Group(ConditionGroup::AllOf(vec![above.clone()])),
        below.clone(),
    ]));
    assert!(opposed_conditions(&split).is_empty());
    // Comparisons with another indicator are not fixed bounds.
    let moving: ConditionNode<f64> = IndicatorRef::rsi(14).is_below_indicator(IndicatorRef::rsi(28));
    let mixed = ConditionNode::Group(ConditionGroup::AllOf(vec![above, moving]));
    assert!(opposed_conditions(&mixed).is_empty());
    assert!(opposed_conditions(&below).is_empty());
}
