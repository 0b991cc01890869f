//! Market data and parameter types shared by the strategy and the feed.
use vstd::prelude::*;

verus! {

/// Direction of a trading signal.
#[derive(Debug, Clone, Copy, PartialEq, Eq, Structural)]
pub enum SignalType {
    Buy,
    Sell,
    Hold,
}

/// A ticker update as the exchange's public ticker channel sends it: every
/// field is the exchange's text.
#[derive(Debug, Clone)]
pub struct TickerData {
    pub inst_id: String,
    pub last: String,
    pub last_sz: String,
    pub ask_px: String,
    pub ask_sz: String,
    pub bid_px: String,
    pub bid_sz: String,
    pub open24h: String,
    pub high24h: String,
    pub low24h: String,
    pub vol_ccy24h: String,
    pub vol24h: String,
    pub ts: String,
}

/// Channel parameters of a websocket push.
#[derive(Debug, Clone)]
pub struct WsArg {
    pub channel: String,
    pub inst_id: String,
}

/// A websocket push of the ticker channel.
#[derive(Debug, Clone)]
pub struct WsMessage {
    pub arg: WsArg,
    pub data: Vec<TickerData>,
}

/// One candle. `timestamp` is in milliseconds since the Unix epoch; prices
/// and volume are the bit patterns of their doubles.
#[derive(Debug, Clone)]
pub struct CandleData {
    pub timestamp: i64,
    pub symbol: String,
    pub open: u64,
    pub high: u64,
    pub low: u64,
    pub close: u64,
    pub volume: u64,
}

/// Parameters of the turtle strategy. `risk_per_trade` is the bit pattern
/// of the fraction of capital risked on one trade.
#[derive(Debug, Clone, Copy, PartialEq, Eq, Structural)]
pub struct TurtleParams {
    pub entry_period: usize,
    pub exit_period: usize,
    pub atr_period: usize,
    pub risk_per_trade: u64,
    pub max_units: usize,
}

/// Bit pattern of `0.02`, the default risk per trade.
pub const DEFAULT_RISK_PER_TRADE: u64 = 0x3f94_7ae1_47ae_147b;

/// The default parameters: a 20-candle entry channel, a 10-candle exit
/// channel, a 20-candle ATR, 2% risk per trade and at most 4 units.
pub open spec fn default_params() -> TurtleParams {
    TurtleParams {
        entry_period: 20,
        exit_period: 10,
        atr_period: 20,
        risk_per_trade: DEFAULT_RISK_PER_TRADE,
        max_units: 4,
    }
}

impl Default for TurtleParams {
    fn default() -> (r: Self)
        ensures
            r == default_params(),
    {
        TurtleParams {
            entry_period: 20,
            exit_period: 10,
            atr_period: 20,
            risk_per_trade: DEFAULT_RISK_PER_TRADE,
            max_units: 4,
        }
    }
}

} // verus!
