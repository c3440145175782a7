use mantis_ta::backtest::{
    backtest_warnings, carried_order, check_candle_count, closing_action, first_candle_issue, on_pending, on_signal, BarAction, BrokerSim, CandleIssue,
    ExecutionModel, OhlcFault, PendingOrder,
};
use mantis_ta::types::{ExitReason, MantisError, Side, Signal};

#[test]
fn next_bar_open_defers_orders() {
    let m = ExecutionModel::NextBarOpen;
    assert_eq!(on_signal(Signal::Entry(Side::Long), m, true, 0, 4), BarAction::Schedule(PendingOrder::EnterLong));
    assert_eq!(on_signal(Signal::Entry(Side::Long), m, false, 2, 4), BarAction::Schedule(PendingOrder::EnterLong));
    assert_eq!(on_signal(Signal::Entry(Side::Long), m, true, 3, 4), BarAction::Nothing);
    assert_eq!(
        on_signal(Signal::Exit(ExitReason::StopLoss), m, false, 1, 4),
        BarAction::Schedule(PendingOrder::ExitLong(ExitReason::StopLoss))
    );
    assert_eq!(on_signal(Signal::Exit(ExitReason::RuleTriggered), m, false, 3, 4), BarAction::Nothing);
    assert_eq!(on_signal(Signal::Hold, m, true, 0, 4), BarAction::Nothing);
    assert_eq!(on_signal(Signal::Entry(Side::Short), m, true, 0, 4), BarAction::Nothing);
}

#[test]
fn current_bar_close_fills_at_once() {
    let m = ExecutionModel::CurrentBarClose;
    assert_eq!(on_signal(Signal::Entry(Side::Long), m, true, 3, 4), BarAction::BuyNow);
    assert_eq!(on_signal(Signal::Entry(Side::Long), m, false, 0, 4), BarAction::Nothing);
    assert_eq!(
        on_signal(Signal::Exit(ExitReason::RuleTriggered), m, false, 0, 4),
        BarAction::SellNow(ExitReason::RuleTriggered)
    );
    assert_eq!(on_signal(Signal::Exit(ExitReason::RuleTriggered), m, true, 0, 4), BarAction::Nothing);
}

#[test]
fn pending_orders_respect_position() {
    assert_eq!(on_pending(PendingOrder::EnterLong, true), BarAction::BuyNow);
    assert_eq!(on_pending(PendingOrder::EnterLong, false), BarAction::Nothing);
    assert_eq!(
        on_pending(PendingOrder::ExitLong(ExitReason::TakeProfit), false),
        BarAction::SellNow(ExitReason::TakeProfit)
    );
    assert_eq!(on_pending(PendingOrder::ExitLong(ExitReason::TakeProfit), true), BarAction::Nothing);
}

#[test]
fn warnings_texts() {
    let w = backtest_warnings(1, 7);
    assert_eq!(
        w,
        vec![
            "Minimum trade count warning: 1 trades (< 30) \u{2014} results may be statistically unreliable".to_string(),
            "Excessive condition warning: 7 conditions (>= 7) \u{2014} potential overfitting".to_string(),
        ]
    );
    assert!(backtest_warnings(30, 6).is_empty());
    assert_eq!(backtest_warnings(29, 0).len(), 1);
}

#[test]
fn broker_sim_constructs() {
    let _a = BrokerSim::new();
    let _b: BrokerSim = Default::default();
}

#[test]
fn candle_series_checks_come_in_order() {
    assert_eq!(first_candle_issue(&vec![], &vec![]), None);
    assert_eq!(first_candle_issue(&vec![None, None, None], &vec![1, 2, 3]), None);
    assert_eq!(
        first_candle_issue(&vec![None, None, None], &vec![1, 2, 2]),
        Some(CandleIssue::NonIncreasingTimestamp(2))
    );
    assert_eq!(
        first_candle_issue(&vec![None, Some(OhlcFault::LowAboveBody), None], &vec![5, 1, 0]),
        Some(CandleIssue::Ohlc(1, OhlcFault::LowAboveBody))
    );
    assert_eq!(
        first_candle_issue(&vec![None, None, Some(OhlcFault::HighBelowLow)], &vec![5, 4, 9]),
        Some(CandleIssue::NonIncreasingTimestamp(1))
    );
    assert_eq!(
        first_candle_issue(&vec![Some(OhlcFault::HighBelowBody)], &vec![7]),
        Some(CandleIssue::Ohlc(0, OhlcFault::HighBelowBody))
    );
}

#[test]
fn run_needs_two_candles() {
    assert!(check_candle_count(2).is_ok());
    assert!(check_candle_count(100).is_ok());
    for n in [0usize, 1] {
        match check_candle_count(n) {
            Err(MantisError::InsufficientData { required, provided }) => {
                assert_eq!(required, 2);
                assert_eq!(provided, n);
            }
            other => panic!("unexpected {:?}", other),
        }
    }
}

#[test]
fn orders_carry_to_the_next_bar_and_positions_close_at_the_end() {
    assert_eq!(carried_order(BarAction::Schedule(PendingOrder::EnterLong)), Some(PendingOrder::EnterLong));
    assert_eq!(
        carried_order(BarAction::Schedule(PendingOrder::ExitLong(ExitReason::TakeProfit))),
        Some(PendingOrder::ExitLong(ExitReason::TakeProfit))
    );
    assert_eq!(carried_order(BarAction::BuyNow), None);
    assert_eq!(carried_order(BarAction::SellNow(ExitReason::StopLoss)), None);
    assert_eq!(carried_order(BarAction::Nothing), None);
    assert_eq!(closing_action(true), BarAction::Nothing);
    assert_eq!(closing_action(false), BarAction::SellNow(ExitReason::RuleTriggered));
    // A signal on the bar before the last becomes an order filled at the last bar's open.
    let a = on_signal(Signal::Entry(Side::Long), ExecutionModel::NextBarOpen, true, 2, 4);
    assert_eq!(on_pending(carried_order(a).unwrap(), true), BarAction::BuyNow);
}
