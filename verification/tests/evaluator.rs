use mantis_ta::strategy::evaluator::{all_ready, conditions, eval_node, required_indicators, strategy_signal};
use mantis_ta::strategy::names::{parse_indicator, zero_period, Band, IndicatorSpec, MacdLine, StochLine};
use mantis_ta::strategy::indicator_ref::IndicatorRef;
use mantis_ta::strategy::types::{CompareTarget, Condition, ConditionGroup, ConditionNode, Operator};
use mantis_ta::types::{ExitReason, Side, Signal};

fn leaf(name: &str) -> ConditionNode<f64> {
    ConditionNode::Condition(Condition::new(name, Operator::IsAbove, CompareTarget::Value(1.0)))
}

#[test]
fn parses_reference_names() {
    assert_eq!(parse_indicator("sma20"), Some(IndicatorSpec::Sma(20)));
    assert_eq!(parse_indicator("ema14"), Some(IndicatorSpec::Ema(14)));
    assert_eq!(parse_indicator("rsi2"), Some(IndicatorSpec::Rsi(2)));
    assert_eq!(parse_indicator("atr14"), Some(IndicatorSpec::Atr(14)));
    assert_eq!(parse_indicator("sma+7"), Some(IndicatorSpec::Sma(7)));
    assert_eq!(parse_indicator("sma007"), Some(IndicatorSpec::Sma(7)));
    assert_eq!(parse_indicator("sma0"), Some(IndicatorSpec::Sma(0)));
    assert_eq!(parse_indicator("sma"), None);
    assert_eq!(parse_indicator("sma+"), None);
    assert_eq!(parse_indicator("sma-1"), None);
    assert_eq!(parse_indicator("sma1x"), None);
    assert_eq!(parse_indicator("obv"), Some(IndicatorSpec::Obv));
    assert_eq!(parse_indicator("obv1"), None);
    assert_eq!(parse_indicator("pivot_points"), Some(IndicatorSpec::PivotPoints));
    assert_eq!(parse_indicator("volume_sma_20"), Some(IndicatorSpec::VolumeSma(20)));
    assert_eq!(parse_indicator("volume_sma_"), None);
    assert_eq!(parse_indicator("macd_12_26_9_line"), Some(IndicatorSpec::Macd(12, 26, 9, MacdLine::Macd)));
    assert_eq!(parse_indicator("macd_12_26_9_signal"), Some(IndicatorSpec::Macd(12, 26, 9, MacdLine::Signal)));
    assert_eq!(parse_indicator("macd_12_26_9_histogram"), None);
    assert_eq!(parse_indicator("macd_12_26_line"), None);
    assert_eq!(parse_indicator("stoch_14_3_k"), Some(IndicatorSpec::Stoch(14, 3, StochLine::K)));
    assert_eq!(parse_indicator("stoch_14_3_d"), Some(IndicatorSpec::Stoch(14, 3, StochLine::D)));
    assert_eq!(parse_indicator("stoch_14_k"), None);
    assert_eq!(
        parse_indicator("bb_20_2_upper"),
        Some(IndicatorSpec::Bollinger(20, "2".to_string(), Band::Upper))
    );
    assert_eq!(
        parse_indicator("bb_20_2.5_lower"),
        Some(IndicatorSpec::Bollinger(20, "2.5".to_string(), Band::Lower))
    );
    assert_eq!(
        parse_indicator("bb_20_1.5_middle"),
        Some(IndicatorSpec::Bollinger(20, "1.5".to_string(), Band::Middle))
    );
    assert_eq!(parse_indicator("bb_x_2_upper"), None);
    assert_eq!(parse_indicator("close"), None);
    assert_eq!(parse_indicator("sma99999999999999999999999"), None);
    assert_eq!(parse_indicator(&format!("ema{}", usize::MAX)), Some(IndicatorSpec::Ema(usize::MAX)));
}

#[test]
fn reference_names_round_trip() {
    for p in [0usize, 1, 9, 10, 20, 200, 12345, usize::MAX] {
        assert_eq!(parse_indicator(&IndicatorRef::sma(p).name), Some(IndicatorSpec::Sma(p)));
        assert_eq!(parse_indicator(&IndicatorRef::ema(p).name), Some(IndicatorSpec::Ema(p)));
        assert_eq!(parse_indicator(&IndicatorRef::rsi(p).name), Some(IndicatorSpec::Rsi(p)));
        assert_eq!(parse_indicator(&IndicatorRef::atr(p).name), Some(IndicatorSpec::Atr(p)));
        assert_eq!(parse_indicator(&IndicatorRef::volume_sma(p).name), Some(IndicatorSpec::VolumeSma(p)));
        assert_eq!(
            parse_indicator(&IndicatorRef::macd(p, 26, 9).name),
            Some(IndicatorSpec::Macd(p, 26, 9, MacdLine::Macd))
        );
        assert_eq!(
            parse_indicator(&IndicatorRef::macd_signal(12, p, 9).name),
            Some(IndicatorSpec::Macd(12, p, 9, MacdLine::Signal))
        );
        assert_eq!(
            parse_indicator(&IndicatorRef::stoch_k(p, 3).name),
            Some(IndicatorSpec::Stoch(p, 3, StochLine::K))
        );
        assert_eq!(
            parse_indicator(&IndicatorRef::stoch_d(14, p).name),
            Some(IndicatorSpec::Stoch(14, p, StochLine::D))
        );
    }
    assert_eq!(parse_indicator(&IndicatorRef::obv().name), Some(IndicatorSpec::Obv));
    assert_eq!(parse_indicator(&IndicatorRef::pivot_points().name), Some(IndicatorSpec::PivotPoints));
}

#[test]
fn zero_periods_are_found() {
    assert!(zero_period(&IndicatorSpec::<String>::Sma(0)));
    assert!(!zero_period(&IndicatorSpec::<String>::Sma(1)));
    assert!(zero_period(&IndicatorSpec::<String>::Macd(12, 0, 9, MacdLine::Macd)));
    assert!(zero_period(&IndicatorSpec::<String>::Stoch(14, 0, StochLine::D)));
    assert!(zero_period(&IndicatorSpec::Bollinger(0, "2".to_string(), Band::Upper)));
    assert!(!zero_period(&IndicatorSpec::<String>::Obv));
    assert!(!zero_period(&IndicatorSpec::<String>::PivotPoints));
}

#[test]
fn kleene_all_of_and_any_of() {
    let all = ConditionNode::Group(ConditionGroup::AllOf(vec![leaf("a"), leaf("b"), leaf("c")]));
    assert_eq!(eval_node(&all, &vec![Some(true), Some(true), Some(true)]), Some(true));
    assert_eq!(eval_node(&all, &vec![Some(true), None, Some(true)]), None);
    assert_eq!(eval_node(&all, &vec![None, Some(false), Some(true)]), Some(false));
    let any = ConditionNode::Group(ConditionGroup::AnyOf(vec![leaf("a"), leaf("b"), leaf("c")]));
    assert_eq!(eval_node(&any, &vec![Some(false), Some(false), Some(false)]), Some(false));
    assert_eq!(eval_node(&any, &vec![Some(false), None, Some(false)]), None);
    assert_eq!(eval_node(&any, &vec![None, Some(false), Some(true)]), Some(true));
    let empty_all: ConditionNode<f64> = ConditionNode::Group(ConditionGroup::AllOf(vec![]));
    assert_eq!(eval_node(&empty_all, &vec![]), Some(true));
    let empty_any: ConditionNode<f64> = ConditionNode::Group(ConditionGroup::AnyOf(vec![]));
    assert_eq!(eval_node(&empty_any, &vec![]), Some(false));
}

#[test]
fn nested_groups_follow_leaf_order() {
    // a AND (b OR c): leaves a, b, c
    let tree = ConditionNode::Group(ConditionGroup::AllOf(vec![
        leaf("a"),
        ConditionNode::Group(ConditionGroup::AnyOf(vec![leaf("b"), leaf("c")])),
    ]));
    let leaves = conditions(&tree);
    let names: Vec<&str> = leaves.iter().map(|c| c.left.as_str()).collect();
    assert_eq!(names, vec!["a", "b", "c"]);
    assert_eq!(eval_node(&tree, &vec![Some(true), Some(false), Some(true)]), Some(true));
    assert_eq!(eval_node(&tree, &vec![Some(true), Some(false), Some(false)]), Some(false));
    assert_eq!(eval_node(&tree, &vec![Some(false), None, None]), Some(false));
}

#[test]
fn signal_exit_takes_priority_and_warmup_holds() {
    let entry = leaf("sma1");
    let exit = leaf("sma2");
    let yes = vec![Some(true)];
    let no = vec![Some(false)];
    let unknown = vec![None];
    assert_eq!(strategy_signal(&entry, Some(&exit), false, &yes, &yes), Signal::Hold);
    assert_eq!(strategy_signal(&entry, Some(&exit), true, &yes, &yes), Signal::Exit(ExitReason::RuleTriggered));
    assert_eq!(strategy_signal(&entry, Some(&exit), true, &yes, &no), Signal::Entry(Side::Long));
    assert_eq!(strategy_signal(&entry, Some(&exit), true, &unknown, &unknown), Signal::Hold);
    assert_eq!(strategy_signal(&entry, None, true, &yes, &vec![]), Signal::Entry(Side::Long));
    assert_eq!(strategy_signal(&entry, None, true, &no, &vec![]), Signal::Hold);
}

#[test]
fn required_indicators_are_distinct_and_complete() {
    let entry = IndicatorRef::sma(2).crosses_above_indicator::<f64>(IndicatorRef::sma(3));
    let exit = ConditionNode::Group(ConditionGroup::AnyOf(vec![
        IndicatorRef::sma(2).is_below_indicator(IndicatorRef::sma(3)),
        ConditionNode::Condition(Condition::new(
            "rsi14",
            Operator::IsAbove,
            CompareTarget::Scaled { indicator: "atr14".to_string(), multiplier: 2.0 },
        )),
    ]));
    let mut names = required_indicators(&entry, Some(&exit));
    names.sort();
    assert_eq!(names, vec!["atr14", "rsi14", "sma2", "sma3"]);
    let only = required_indicators::<f64>(&leaf("x"), None);
    assert_eq!(only, vec!["x"]);
}

#[test]
fn ready_once_every_required_name_has_a_value() {
    let names = |v: &[&str]| v.iter().map(|s| s.to_string()).collect::<Vec<String>>();
    assert!(all_ready(&names(&[]), &names(&[])));
    assert!(all_ready(&names(&["sma20", "rsi14"]), &names(&["rsi14", "ema5", "sma20"])));
    assert!(!all_ready(&names(&["sma20", "rsi14"]), &names(&["sma20"])));
    assert!(!all_ready(&names(&["obv"]), &names(&[])));
    assert!(all_ready(&names(&["obv", "obv"]), &names(&["obv"])));
}
