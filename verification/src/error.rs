//! Errors of the strategy and its registry.
use vstd::prelude::*;

verus! {

/// Why a strategy computation or a registry request was refused.
#[derive(Debug, Clone)]
pub enum TradingError {
    /// Fewer candles than the period of a highest-high window.
    NotEnoughDataForHigh,
    /// Fewer candles than the period of a lowest-low window.
    NotEnoughDataForLow,
    /// Not more candles than the ATR period.
    NotEnoughDataForAtr,
    /// No candle at all.
    NoCandles,
    /// The entry period is zero.
    ZeroEntryPeriod,
    /// The exit period is zero.
    ZeroExitPeriod,
    /// The ATR period is zero.
    ZeroAtrPeriod,
    /// The risk per trade is not in `(0, 1]`.
    RiskOutOfRange,
    /// The maximum number of units is zero.
    ZeroMaxUnits,
    /// A backtest needs more candles than it was given.
    NotEnoughBacktestData,
    /// No strategy runs for the symbol a backtest asked for.
    StrategyNotFound(String),
    /// No strategy runs for the symbol whose parameters were to change.
    UnknownStrategy(String),
}

} // verus!
