//! Backtest decisions: when orders are placed and filled, and what a run warns about.
use vstd::prelude::*;
use crate::types::{ExitReason, MantisError, Side, Signal};
use crate::utils::decimal::{decimal, usize_to_decimal};

verus! {

/// Execution model for order fills in backtesting.
#[derive(Debug, Clone, Copy, PartialEq, Eq, Structural)]
pub enum ExecutionModel {
    /// Fill orders at the next bar's open price
    NextBarOpen,
    /// Fill orders at the current bar's close price
    CurrentBarClose,
}

/// An order waiting for the next bar's open.
#[derive(Debug, Clone, Copy, PartialEq, Eq, Structural)]
pub enum PendingOrder {
    EnterLong,
    ExitLong(ExitReason),
}

/// What the simulation does at a point of a bar.
#[derive(Debug, Clone, Copy, PartialEq, Eq, Structural)]
pub enum BarAction {
    /// Nothing to do.
    Nothing,
    /// Open a long position now (sized from the cash at hand).
    BuyNow,
    /// Close the open position now, for the given reason.
    SellNow(ExitReason),
    /// Keep the order for the open of the next bar.
    Schedule(PendingOrder),
}

/// Order simulator; fills carry slippage and commission.
#[derive(Debug, Clone, Copy)]
pub struct BrokerSim;

impl BrokerSim {
    pub fn new() -> (r: Self) {
        BrokerSim
    }
}

impl Default for BrokerSim {
    fn default() -> (r: Self) {
        BrokerSim
    }
}

/// What a pending order does at the open of the bar after it was placed: an
/// entry fills only when no position is open, an exit only when one is.
pub open spec fn pending_action(order: PendingOrder, is_flat: bool) -> BarAction {
    match order {
        PendingOrder::EnterLong => if is_flat { BarAction::BuyNow } else { BarAction::Nothing },
        PendingOrder::ExitLong(reason) => if !is_flat { BarAction::SellNow(reason) } else { BarAction::Nothing },
    }
}

/// What a signal on bar `bar_index` of `bar_count` bars leads to: under
/// `CurrentBarClose` an immediate fill (entry only when flat, exit only when
/// not); under `NextBarOpen` an order for the next bar, when there is one.
pub open spec fn signal_action(signal: Signal, execution: ExecutionModel, is_flat: bool, bar_index: nat, bar_count: nat) -> BarAction {
    match signal {
        Signal::Entry(Side::Long) => match execution {
            ExecutionModel::CurrentBarClose => if is_flat { BarAction::BuyNow } else { BarAction::Nothing },
            ExecutionModel::NextBarOpen => if bar_index + 1 < bar_count {
                BarAction::Schedule(PendingOrder::EnterLong)
            } else {
                BarAction::Nothing
            },
        },
        Signal::Exit(reason) => match execution {
            ExecutionModel::CurrentBarClose => if !is_flat { BarAction::SellNow(reason) } else { BarAction::Nothing },
            ExecutionModel::NextBarOpen => if bar_index + 1 < bar_count {
                BarAction::Schedule(PendingOrder::ExitLong(reason))
            } else {
                BarAction::Nothing
            },
        },
        _ => BarAction::Nothing,
    }
}

/// Decide what a pending order does at the open of the current bar.
pub fn on_pending(order: PendingOrder, is_flat: bool) -> (a: BarAction)
    ensures
        a == pending_action(order, is_flat),
{
    match order {
        PendingOrder::EnterLong => if is_flat { BarAction::BuyNow } else { BarAction::Nothing },
        PendingOrder::ExitLong(reason) => if !is_flat { BarAction::SellNow(reason) } else { BarAction::Nothing },
    }
}

/// Decide what the strategy's signal on bar `bar_index` of `bar_count` bars leads to.
pub fn on_signal(signal: Signal, execution: ExecutionModel, is_flat: bool, bar_index: usize, bar_count: usize) -> (a: BarAction)
    requires
        bar_index < bar_count,
    ensures
        a == signal_action(signal, execution, is_flat, bar_index as nat, bar_count as nat),
        // Next-bar execution never fills on the bar that produced the signal,
        // and never schedules past the last bar.
        execution == ExecutionModel::NextBarOpen ==> (a is Nothing || a is Schedule),
        a is Schedule ==> bar_index + 1 < bar_count,
{
    match signal {
        Signal::Entry(Side::Long) => match execution {
            ExecutionModel::CurrentBarClose => if is_flat { BarAction::BuyNow } else { BarAction::Nothing },
            ExecutionModel::NextBarOpen => if bar_index + 1 < bar_count {
                BarAction::Schedule(PendingOrder::EnterLong)
            } else {
                BarAction::Nothing
            },
        },
        Signal::Exit(reason) => match execution {
            ExecutionModel::CurrentBarClose => if !is_flat { BarAction::SellNow(reason) } else { BarAction::Nothing },
            ExecutionModel::NextBarOpen => if bar_index + 1 < bar_count {
                BarAction::Schedule(PendingOrder::ExitLong(reason))
            } else {
                BarAction::Nothing
            },
        },
        _ => BarAction::Nothing,
    }
}

/// A run needs at least two candles.
pub fn check_candle_count(candle_count: usize) -> (r: Result<(), MantisError>)
    ensures
        candle_count >= 2 ==> r is Ok,
        candle_count < 2 ==> r == Err::<(), MantisError>(
            MantisError::InsufficientData { required: 2, provided: candle_count },
        ),
{
    if candle_count < 2 {
        Err(MantisError::InsufficientData { required: 2, provided: candle_count })
    } else {
        Ok(())
    }
}

/// The order that waits for the next bar's open after a signal's action `a`.
pub fn carried_order(a: BarAction) -> (r: Option<PendingOrder>)
    ensures
        r == match a {
            BarAction::Schedule(o) => Some(o),
            _ => None,
        },
{
    match a {
        BarAction::Schedule(o) => Some(o),
        _ => None,
    }
}

/// What happens after the last bar: a position still open is closed at the
/// last close, for reason `RuleTriggered`.
pub open spec fn closing(is_flat: bool) -> BarAction {
    if is_flat { BarAction::Nothing } else { BarAction::SellNow(ExitReason::RuleTriggered) }
}

/// Decide what happens to the position once the bars are exhausted.
pub fn closing_action(is_flat: bool) -> (a: BarAction)
    ensures
        a == closing(is_flat),
{
    if is_flat { BarAction::Nothing } else { BarAction::SellNow(ExitReason::RuleTriggered) }
}

/// Law: the simulation holds at most one position. Whether from a pending
/// order at the open, from a signal, or at the end of the run, a buy happens
/// only while flat and a sale only while a position is open.
pub proof fn lemma_one_position_at_a_time(
    order: PendingOrder,
    signal: Signal,
    execution: ExecutionModel,
    is_flat: bool,
    bar_index: nat,
    bar_count: nat,
)
    ensures
        pending_action(order, is_flat) is BuyNow ==> is_flat,
        pending_action(order, is_flat) is SellNow ==> !is_flat,
        signal_action(signal, execution, is_flat, bar_index, bar_count) is BuyNow ==> is_flat,
        signal_action(signal, execution, is_flat, bar_index, bar_count) is SellNow ==> !is_flat,
        closing(is_flat) is SellNow ==> !is_flat,
        !(closing(is_flat) is BuyNow),
{
}

/// Law: under current-bar-close execution the action of a signal does not
/// depend on which bar it comes on, nor on how many bars there are: an exit
/// signal with a position open sells at once, and an entry signal while flat
/// buys at once, on every bar.
pub proof fn lemma_close_execution_every_bar(signal: Signal, is_flat: bool, reason: ExitReason, i: nat, n: nat, j: nat, m: nat)
    ensures
        signal_action(signal, ExecutionModel::CurrentBarClose, is_flat, i, n)
            == signal_action(signal, ExecutionModel::CurrentBarClose, is_flat, j, m),
        signal_action(Signal::Exit(reason), ExecutionModel::CurrentBarClose, false, i, n) == BarAction::SellNow(reason),
        signal_action(Signal::Entry(Side::Long), ExecutionModel::CurrentBarClose, true, i, n) == BarAction::BuyNow,
{
}

/// Law: under next-bar execution a signal on bar `i` of `n` fills nothing on
/// its own bar; when a next bar exists, it becomes an order that fills at that
/// bar's open (an entry if flat then, an exit if a position is open then).
pub proof fn lemma_next_bar_fills(signal: Signal, flat_now: bool, flat_next: bool, i: nat, n: nat)
    requires
        i < n,
    ensures
        !(signal_action(signal, ExecutionModel::NextBarOpen, flat_now, i, n) is BuyNow),
        !(signal_action(signal, ExecutionModel::NextBarOpen, flat_now, i, n) is SellNow),
        signal == Signal::Entry(Side::Long) && i + 1 < n ==> {
            let a = signal_action(signal, ExecutionModel::NextBarOpen, flat_now, i, n);
            a == BarAction::Schedule(PendingOrder::EnterLong)
                && pending_action(PendingOrder::EnterLong, flat_next) == (if flat_next {
                    BarAction::BuyNow
                } else {
                    BarAction::Nothing
                })
        },
        forall|reason: ExitReason| signal == Signal::Exit(reason) && i + 1 < n ==> {
            let a = #[trigger] signal_action(Signal::Exit(reason), ExecutionModel::NextBarOpen, flat_now, i, n);
            a == BarAction::Schedule(PendingOrder::ExitLong(reason))
                && pending_action(PendingOrder::ExitLong(reason), flat_next) == (if !flat_next {
                    BarAction::SellNow(reason)
                } else {
                    BarAction::Nothing
                })
        },
        i + 1 == n ==> signal_action(signal, ExecutionModel::NextBarOpen, flat_now, i, n) is Nothing,
{
}

/// A broken price relation within one candle (found by comparing its prices).
#[derive(Debug, Clone, Copy, PartialEq, Eq, Structural)]
pub enum OhlcFault {
    /// The high is below the low.
    HighBelowLow,
    /// The high is below the open or the close.
    HighBelowBody,
    /// The low is above the open or the close.
    LowAboveBody,
}

/// The first reason a candle series is refused, with the candle's index.
#[derive(Debug, Clone, Copy, PartialEq, Eq, Structural)]
pub enum CandleIssue {
    /// Candle `index` has the given price fault.
    Ohlc(usize, OhlcFault),
    /// Candle `index` is not later than the candle before it.
    NonIncreasingTimestamp(usize),
}

/// What is wrong with candle `i`, if anything: its own price fault first,
/// then a timestamp that does not exceed the previous one.
pub open spec fn issue_at(faults: Seq<Option<OhlcFault>>, timestamps: Seq<i64>, i: int) -> Option<CandleIssue> {
    match faults[i] {
        Some(f) => Some(CandleIssue::Ohlc(i as usize, f)),
        None => if i > 0 && timestamps[i] <= timestamps[i - 1] {
            Some(CandleIssue::NonIncreasingTimestamp(i as usize))
        } else {
            None
        },
    }
}

/// Check a candle series in order, given each candle's price fault (if any)
/// and its timestamp: the result is the issue of the first candle that has one.
pub fn first_candle_issue(faults: &Vec<Option<OhlcFault>>, timestamps: &Vec<i64>) -> (r: Option<CandleIssue>)
    requires
        faults.len() == timestamps.len(),
    ensures
        r is None <==> (forall|i: int| 0 <= i < faults.len() ==> #[trigger] issue_at(faults@, timestamps@, i) is None),
        r is Some ==> exists|i: int|
            0 <= i < faults.len() && issue_at(faults@, timestamps@, i) == r
            && (forall|j: int| 0 <= j < i ==> #[trigger] issue_at(faults@, timestamps@, j) is None),
{
    let n = faults.len();
    let mut i: usize = 0;
    while i < n
        invariant
            n == faults.len(),
            n == timestamps.len(),
            i <= n,
            forall|j: int| 0 <= j < i ==> #[trigger] issue_at(faults@, timestamps@, j) is None,
        decreases n - i,
    {
        match faults[i] {
            Some(f) => {
                assert(issue_at(faults@, timestamps@, i as int) == Some(CandleIssue::Ohlc(i, f)));
                return Some(CandleIssue::Ohlc(i, f));
            },
            None => {
                if i > 0 && timestamps[i] <= timestamps[i - 1] {
                    assert(issue_at(faults@, timestamps@, i as int) == Some(CandleIssue::NonIncreasingTimestamp(i)));
                    return Some(CandleIssue::NonIncreasingTimestamp(i));
                }
            },
        }
        assert(issue_at(faults@, timestamps@, i as int) is None);
        i = i + 1;
    }
    None
}

/// Text of the warning about too few trades.
pub open spec fn trade_count_warning(trades: nat) -> Seq<char> {
    "Minimum trade count warning: "@ + decimal(trades)
        + " trades (< 30) \u{2014} results may be statistically unreliable"@
}

/// Text of the warning about too many conditions.
pub open spec fn condition_count_warning(conditions: nat) -> Seq<char> {
    "Excessive condition warning: "@ + decimal(conditions)
        + " conditions (>= 7) \u{2014} potential overfitting"@
}

/// The warnings of a run with `trades` completed trades and a strategy of
/// `conditions` leaf conditions: fewer than 30 trades, then 7 or more conditions.
pub open spec fn run_warnings(trades: nat, conditions: nat) -> Seq<Seq<char>> {
    (if trades < 30 { seq![trade_count_warning(trades)] } else { Seq::empty() })
        + (if conditions >= 7 { seq![condition_count_warning(conditions)] } else { Seq::empty() })
}

/// The texts of a list of strings.
pub open spec fn texts(v: Seq<String>) -> Seq<Seq<char>> {
    v.map_values(|s: String| s@)
}

/// Warnings about the statistical reliability of a run.
pub fn backtest_warnings(trade_count: usize, condition_count: usize) -> (w: Vec<String>)
    ensures
        texts(w@) == run_warnings(trade_count as nat, condition_count as nat),
{
    let mut w: Vec<String> = Vec::new();
    if trade_count < 30 {
        let mut s = String::from_str("Minimum trade count warning: ");
        let digits = usize_to_decimal(trade_count);
        s.append(digits.as_str());
        s.append(" trades (< 30) \u{2014} results may be statistically unreliable");
        w.push(s);
    }
    if condition_count >= 7 {
        let mut s = String::from_str("Excessive condition warning: ");
        let digits = usize_to_decimal(condition_count);
        s.append(digits.as_str());
        s.append(" conditions (>= 7) \u{2014} potential overfitting");
        w.push(s);
    }
    assert(texts(w@) =~= run_warnings(trade_count as nat, condition_count as nat));
    w
}

} // verus!
