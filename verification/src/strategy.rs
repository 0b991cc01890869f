//! The turtle breakout strategy: channel highs and lows, entry and exit
//! signals, indicator availability and parameter validation.
use vstd::prelude::*;

use crate::error::TradingError;
use crate::ieee::{self, f64_gt, f64_lt, f64_le, f64_max, f64_min, is_nan, rank, NEG_INFINITY, POS_INFINITY, ONE, ZERO};
use crate::types::{CandleData, SignalType, TurtleParams, default_params};

verus! {

/// Which turtle rule produced a signal.
#[derive(Debug, Clone, Copy, PartialEq, Eq, Structural)]
pub enum SignalRule {
    /// The close broke above the entry channel's high.
    LongEntry,
    /// The close broke below the entry channel's low.
    ShortEntry,
    /// The close broke below the exit channel's low.
    LongExit,
    /// The close broke above the exit channel's high.
    ShortExit,
}

/// A signal of the turtle strategy, taken at the last candle analysed.
/// `price` is that candle's close, `level` the channel bound it broke and
/// `period` the length of that channel.
#[derive(Debug)]
pub struct TurtleSignal {
    pub symbol: String,
    pub rule: SignalRule,
    pub signal_type: SignalType,
    pub price: u64,
    pub timestamp: i64,
    pub period: usize,
    pub level: u64,
}

/// What a signal is, as a mathematical value.
pub struct SignalView {
    pub symbol: Seq<char>,
    pub rule: SignalRule,
    pub signal_type: SignalType,
    pub price: u64,
    pub timestamp: i64,
    pub period: usize,
    pub level: u64,
}

impl View for TurtleSignal {
    type V = SignalView;

    open spec fn view(&self) -> SignalView {
        SignalView {
            symbol: self.symbol@,
            rule: self.rule,
            signal_type: self.signal_type,
            price: self.price,
            timestamp: self.timestamp,
            period: self.period,
            level: self.level,
        }
    }
}

/// The direction that each rule signals.
pub open spec fn rule_direction(rule: SignalRule) -> SignalType {
    match rule {
        SignalRule::LongEntry => SignalType::Buy,
        SignalRule::ShortEntry => SignalType::Sell,
        SignalRule::LongExit => SignalType::Sell,
        SignalRule::ShortExit => SignalType::Buy,
    }
}

/// The strategy name that a signal of each rule carries.
pub open spec fn rule_strategy_name(rule: SignalRule) -> Seq<char> {
    match rule {
        SignalRule::LongEntry | SignalRule::ShortEntry => "Turtle"@,
        SignalRule::LongExit | SignalRule::ShortExit => "Turtle_Exit"@,
    }
}

impl TurtleSignal {
    /// The name of the strategy rule set that produced the signal.
    pub fn strategy(&self) -> (r: &'static str)
        ensures
            r@ == rule_strategy_name(self.rule),
    {
        match self.rule {
            SignalRule::LongEntry | SignalRule::ShortEntry => "Turtle",
            SignalRule::LongExit | SignalRule::ShortExit => "Turtle_Exit",
        }
    }
}

/// The signal of `rule` taken at candle `last`, breaking `level` of a
/// channel of `period` candles.
pub open spec fn signal_at(
    symbol: Seq<char>,
    rule: SignalRule,
    last: CandleData,
    period: usize,
    level: u64,
) -> SignalView {
    SignalView {
        symbol,
        rule,
        signal_type: rule_direction(rule),
        price: last.close,
        timestamp: last.timestamp,
        period,
        level,
    }
}

/// The highs of candles `lo .. hi`.
pub open spec fn high_window(c: Seq<CandleData>, lo: int, hi: int) -> Seq<u64> {
    Seq::new((hi - lo) as nat, |k: int| c[lo + k].high)
}

/// The lows of candles `lo .. hi`.
pub open spec fn low_window(c: Seq<CandleData>, lo: int, hi: int) -> Seq<u64> {
    Seq::new((hi - lo) as nat, |k: int| c[lo + k].low)
}

/// Folds `f64_max` over a sequence of doubles from negative infinity.
pub open spec fn fold_max(s: Seq<u64>) -> u64
    decreases s.len(),
{
    if s.len() == 0 {
        NEG_INFINITY
    } else {
        f64_max(fold_max(s.drop_last()), s.last())
    }
}

/// Folds `f64_min` over a sequence of doubles from positive infinity.
pub open spec fn fold_min(s: Seq<u64>) -> u64
    decreases s.len(),
{
    if s.len() == 0 {
        POS_INFINITY
    } else {
        f64_min(fold_min(s.drop_last()), s.last())
    }
}

/// The highest high of the `period` candles before the last one: the
/// channel runs over candles `len - 1 - period .. len - 1`.
pub open spec fn highest_high(c: Seq<CandleData>, period: int) -> u64 {
    fold_max(high_window(c, c.len() - 1 - period, c.len() - 1))
}

/// The lowest low of the `period` candles before the last one.
pub open spec fn lowest_low(c: Seq<CandleData>, period: int) -> u64 {
    fold_min(low_window(c, c.len() - 1 - period, c.len() - 1))
}

/// A channel of `period` candles before the last one needs `period + 1`
/// candles.
pub open spec fn channel_available(c: Seq<CandleData>, period: int) -> bool {
    c.len() >= period + 1
}

/// Outcome of the highest-high computation over a channel of `period`.
pub open spec fn highest_high_result(c: Seq<CandleData>, period: int) -> Result<u64, TradingError> {
    if !channel_available(c, period) {
        Err(TradingError::NotEnoughDataForHigh)
    } else {
        Ok(highest_high(c, period))
    }
}

/// Outcome of the lowest-low computation over a channel of `period`.
pub open spec fn lowest_low_result(c: Seq<CandleData>, period: int) -> Result<u64, TradingError> {
    if !channel_available(c, period) {
        Err(TradingError::NotEnoughDataForLow)
    } else {
        Ok(lowest_low(c, period))
    }
}

/// An ATR over `period` true ranges can be computed from the candles.
pub open spec fn atr_available(c: Seq<CandleData>, period: int) -> bool {
    c.len() >= period + 1
}

/// The entry rule: a close above the entry channel's high is a long entry,
/// one below its low a short entry; an entry needs an ATR, so it fails when
/// the candles are too few for one.
pub open spec fn entry_signal(p: TurtleParams, symbol: Seq<char>, c: Seq<CandleData>) -> Result<
    Option<SignalView>,
    TradingError,
> {
    let n = c.len();
    if n < p.entry_period + 1 {
        Ok(None)
    } else {
        let last = c[n - 1];
        let hi = highest_high(c, p.entry_period as int);
        let lo = lowest_low(c, p.entry_period as int);
        if f64_gt(last.close, hi) {
            if !atr_available(c, p.atr_period as int) {
                Err(TradingError::NotEnoughDataForAtr)
            } else {
                Ok(Some(signal_at(symbol, SignalRule::LongEntry, last, p.entry_period, hi)))
            }
        } else if f64_lt(last.close, lo) {
            if !atr_available(c, p.atr_period as int) {
                Err(TradingError::NotEnoughDataForAtr)
            } else {
                Ok(Some(signal_at(symbol, SignalRule::ShortEntry, last, p.entry_period, lo)))
            }
        } else {
            Ok(None)
        }
    }
}

/// The exit rule: a close below the exit channel's low exits a long, one
/// above its high exits a short.
pub open spec fn exit_signal(p: TurtleParams, symbol: Seq<char>, c: Seq<CandleData>) -> Option<
    SignalView,
> {
    let n = c.len();
    if n < p.exit_period + 1 {
        None
    } else {
        let last = c[n - 1];
        let hi = highest_high(c, p.exit_period as int);
        let lo = lowest_low(c, p.exit_period as int);
        if f64_lt(last.close, lo) {
            Some(signal_at(symbol, SignalRule::LongExit, last, p.exit_period, lo))
        } else if f64_gt(last.close, hi) {
            Some(signal_at(symbol, SignalRule::ShortExit, last, p.exit_period, hi))
        } else {
            None
        }
    }
}

/// The larger of two periods.
pub open spec fn max_period(a: usize, b: usize) -> usize {
    if a >= b {
        a
    } else {
        b
    }
}

/// The signals of one analysis: nothing while there are fewer candles than
/// the entry and ATR periods, else the entry signal (if any) followed by
/// the exit signal (if any).
pub open spec fn analysis(p: TurtleParams, symbol: Seq<char>, c: Seq<CandleData>) -> Result<
    Seq<SignalView>,
    TradingError,
> {
    if c.len() < max_period(p.entry_period, p.atr_period) {
        Ok(Seq::empty())
    } else {
        match entry_signal(p, symbol, c) {
            Err(e) => Err(e),
            Ok(entry) => {
                let first = match entry {
                    Some(s) => seq![s],
                    None => Seq::empty(),
                };
                match exit_signal(p, symbol, c) {
                    Some(s) => Ok(first.push(s)),
                    None => Ok(first),
                }
            },
        }
    }
}

/// The inputs on which an analysis runs to its end: once there are enough
/// candles to analyse, there is at least one.
pub open spec fn analysis_defined(p: TurtleParams, c: Seq<CandleData>) -> bool {
    c.len() >= max_period(p.entry_period, p.atr_period) ==> c.len() >= 1
}

/// What the indicator summary holds, as a mathematical value. A channel
/// bound is present when there are more candles than its period;
/// `atr_ready` tells whether an ATR can be computed.
pub struct IndicatorView {
    pub current_price: u64,
    pub entry_high: Option<u64>,
    pub entry_low: Option<u64>,
    pub exit_high: Option<u64>,
    pub exit_low: Option<u64>,
    pub atr_ready: bool,
    pub timestamp: i64,
}

/// Technical indicators at the last candle.
#[derive(Debug, Clone, Copy)]
pub struct IndicatorSummary {
    pub current_price: u64,
    pub entry_high: Option<u64>,
    pub entry_low: Option<u64>,
    pub exit_high: Option<u64>,
    pub exit_low: Option<u64>,
    pub atr_ready: bool,
    pub timestamp: i64,
}

impl View for IndicatorSummary {
    type V = IndicatorView;

    open spec fn view(&self) -> IndicatorView {
        IndicatorView {
            current_price: self.current_price,
            entry_high: self.entry_high,
            entry_low: self.entry_low,
            exit_high: self.exit_high,
            exit_low: self.exit_low,
            atr_ready: self.atr_ready,
            timestamp: self.timestamp,
        }
    }
}

/// The indicator summary of a candle series: an error when it is empty.
pub open spec fn indicators(p: TurtleParams, c: Seq<CandleData>) -> Result<
    IndicatorView,
    TradingError,
> {
    let n = c.len();
    if n == 0 {
        Err(TradingError::NoCandles)
    } else {
        Ok(
            IndicatorView {
                current_price: c[n - 1].close,
                entry_high: if channel_available(c, p.entry_period as int) {
                    Some(highest_high(c, p.entry_period as int))
                } else {
                    None
                },
                entry_low: if channel_available(c, p.entry_period as int) {
                    Some(lowest_low(c, p.entry_period as int))
                } else {
                    None
                },
                exit_high: if channel_available(c, p.exit_period as int) {
                    Some(highest_high(c, p.exit_period as int))
                } else {
                    None
                },
                exit_low: if channel_available(c, p.exit_period as int) {
                    Some(lowest_low(c, p.exit_period as int))
                } else {
                    None
                },
                atr_ready: atr_available(c, p.atr_period as int),
                timestamp: c[n - 1].timestamp,
            },
        )
    }
}

/// The verdict on a parameter set: the first rule that it breaks, in the
/// order entry period, exit period, ATR period, risk, maximum units.
pub open spec fn params_verdict(p: TurtleParams) -> Result<(), TradingError> {
    if p.entry_period == 0 {
        Err(TradingError::ZeroEntryPeriod)
    } else if p.exit_period == 0 {
        Err(TradingError::ZeroExitPeriod)
    } else if p.atr_period == 0 {
        Err(TradingError::ZeroAtrPeriod)
    } else if f64_le(p.risk_per_trade, ZERO) || f64_gt(p.risk_per_trade, ONE) {
        Err(TradingError::RiskOutOfRange)
    } else if p.max_units == 0 {
        Err(TradingError::ZeroMaxUnits)
    } else {
        Ok(())
    }
}

/// The turtle strategy for one symbol.
pub struct TurtleStrategy {
    params: TurtleParams,
    symbol: String,
}

impl TurtleStrategy {
    /// The parameters in force.
    pub closed spec fn spec_params(&self) -> TurtleParams {
        self.params
    }

    /// The symbol traded.
    pub closed spec fn spec_symbol(&self) -> Seq<char> {
        self.symbol@
    }

    /// A strategy for `symbol`, with `params` or the defaults.
    pub fn new(symbol: String, params: Option<TurtleParams>) -> (r: Self)
        ensures
            r.spec_symbol() == symbol@,
            r.spec_params() == match params {
                Some(p) => p,
                None => default_params(),
            },
    {
        let params = match params {
            Some(p) => p,
            None => TurtleParams::default(),
        };
        TurtleStrategy { params, symbol }
    }

    /// The symbol traded.
    pub fn symbol(&self) -> (r: &String)
        ensures
            r@ == self.spec_symbol(),
    {
        &self.symbol
    }

    /// The parameters in force.
    pub fn get_params(&self) -> (r: &TurtleParams)
        ensures
            *r == self.spec_params(),
    {
        &self.params
    }

    /// Replaces the parameters; the symbol stays.
    pub fn update_params(&mut self, params: TurtleParams)
        ensures
            final(self).spec_params() == params,
            final(self).spec_symbol() == old(self).spec_symbol(),
    {
        self.params = params;
    }

    /// Checks a parameter set: periods and unit count must be positive and
    /// the risk per trade must lie in `(0, 1]`.
    pub fn validate_params(params: &TurtleParams) -> (r: Result<(), TradingError>)
        ensures
            r == params_verdict(*params),
    {
        if params.entry_period == 0 {
            return Err(TradingError::ZeroEntryPeriod);
        }
        if params.exit_period == 0 {
            return Err(TradingError::ZeroExitPeriod);
        }
        if params.atr_period == 0 {
            return Err(TradingError::ZeroAtrPeriod);
        }
        if ieee::le(params.risk_per_trade, ZERO) || ieee::gt(params.risk_per_trade, ONE) {
            return Err(TradingError::RiskOutOfRange);
        }
        if params.max_units == 0 {
            return Err(TradingError::ZeroMaxUnits);
        }
        Ok(())
    }

    /// The highest high of the `period` candles before the last one; an
    /// error when there are not more than `period` candles.
    pub fn calculate_highest_high(&self, candles: &[CandleData], period: usize) -> (r: Result<
        u64,
        TradingError,
    >)
        ensures
            r == highest_high_result(candles@, period as int),
    {
        let len = candles.len();
        if len <= period {
            return Err(TradingError::NotEnoughDataForHigh);
        }
        assert(candles@.take(len as int) =~= candles@);
        Ok(window_high(candles, len, len - 1 - period, len - 1))
    }

    /// The lowest low of the `period` candles before the last one; an error
    /// when there are not more than `period` candles.
    pub fn calculate_lowest_low(&self, candles: &[CandleData], period: usize) -> (r: Result<
        u64,
        TradingError,
    >)
        ensures
            r == lowest_low_result(candles@, period as int),
    {
        let len = candles.len();
        if len <= period {
            return Err(TradingError::NotEnoughDataForLow);
        }
        assert(candles@.take(len as int) =~= candles@);
        Ok(window_low(candles, len, len - 1 - period, len - 1))
    }
}

/// The view of an optional signal.
pub open spec fn signal_option_view(o: Option<TurtleSignal>) -> Option<SignalView> {
    match o {
        Some(s) => Some(s@),
        None => None,
    }
}

impl TurtleStrategy {
    /// The signal of `rule` at the last of the first `n` candles.
    fn make_signal(&self, candles: &[CandleData], n: usize, rule: SignalRule, period: usize, level: u64) -> (r: TurtleSignal)
        requires
            1 <= n <= candles@.len(),
        ensures
            r@ == signal_at(self.spec_symbol(), rule, candles@[n - 1], period, level),
    {
        let last = &candles[n - 1];
        let signal_type = match rule {
            SignalRule::LongEntry => SignalType::Buy,
            SignalRule::ShortEntry => SignalType::Sell,
            SignalRule::LongExit => SignalType::Sell,
            SignalRule::ShortExit => SignalType::Buy,
        };
        TurtleSignal {
            symbol: self.symbol.clone(),
            rule,
            signal_type,
            price: last.close,
            timestamp: last.timestamp,
            period,
            level,
        }
    }

    /// The entry rule on the first `n` candles.
    fn check_entry_signal(&self, candles: &[CandleData], n: usize) -> (r: Result<Option<TurtleSignal>, TradingError>)
        requires
            n <= candles@.len(),
        ensures
            match r {
                Ok(o) => entry_signal(self.spec_params(), self.spec_symbol(), candles@.take(n as int)) == Ok::<Option<SignalView>, TradingError>(signal_option_view(o)),
                Err(e) => entry_signal(self.spec_params(), self.spec_symbol(), candles@.take(n as int)) == Err::<Option<SignalView>, TradingError>(e),
            },
    {
        let ghost c = candles@.take(n as int);
        let p = self.params;
        if n <= p.entry_period {
            return Ok(None);
        }
        assert(c[n - 1] == candles@[n - 1]);
        let entry_high = window_high(candles, n, n - 1 - p.entry_period, n - 1);
        let entry_low = window_low(candles, n, n - 1 - p.entry_period, n - 1);
        let close = candles[n - 1].close;
        if ieee::gt(close, entry_high) {
            if n <= p.atr_period {
                return Err(TradingError::NotEnoughDataForAtr);
            }
            return Ok(Some(self.make_signal(candles, n, SignalRule::LongEntry, p.entry_period, entry_high)));
        }
        if ieee::lt(close, entry_low) {
            if n <= p.atr_period {
                return Err(TradingError::NotEnoughDataForAtr);
            }
            return Ok(Some(self.make_signal(candles, n, SignalRule::ShortEntry, p.entry_period, entry_low)));
        }
        Ok(None)
    }

    /// The exit rule on the first `n` candles.
    fn check_exit_signal(&self, candles: &[CandleData], n: usize) -> (r: Option<TurtleSignal>)
        requires
            n <= candles@.len(),
        ensures
            signal_option_view(r) == exit_signal(self.spec_params(), self.spec_symbol(), candles@.take(n as int)),
    {
        let ghost c = candles@.take(n as int);
        let p = self.params;
        if n <= p.exit_period {
            return None;
        }
        assert(c[n - 1] == candles@[n - 1]);
        let exit_high = window_high(candles, n, n - 1 - p.exit_period, n - 1);
        let exit_low = window_low(candles, n, n - 1 - p.exit_period, n - 1);
        let close = candles[n - 1].close;
        if ieee::lt(close, exit_low) {
            return Some(self.make_signal(candles, n, SignalRule::LongExit, p.exit_period, exit_low));
        }
        if ieee::gt(close, exit_high) {
            return Some(self.make_signal(candles, n, SignalRule::ShortExit, p.exit_period, exit_high));
        }
        None
    }

    /// Analyses the first `n` candles.
    pub fn analyze_prefix(&self, candles: &[CandleData], n: usize) -> (r: Result<Vec<TurtleSignal>, TradingError>)
        requires
            n <= candles@.len(),
            analysis_defined(self.spec_params(), candles@.take(n as int)),
        ensures
            match r {
                Ok(v) => analysis(self.spec_params(), self.spec_symbol(), candles@.take(n as int))
                    == Ok::<Seq<SignalView>, TradingError>(v@.map_values(|s: TurtleSignal| s@)),
                Err(e) => analysis(self.spec_params(), self.spec_symbol(), candles@.take(n as int))
                    == Err::<Seq<SignalView>, TradingError>(e),
            },
    {
        let ghost c = candles@.take(n as int);
        let p = self.params;
        let min_len = if p.entry_period >= p.atr_period { p.entry_period } else { p.atr_period };
        if n < min_len {
            let v: Vec<TurtleSignal> = Vec::new();
            assert(v@.map_values(|s: TurtleSignal| s@) =~= Seq::<SignalView>::empty());
            return Ok(v);
        }
        assert(n >= 1 ==> c[n - 1] == candles@[n - 1]);
        let mut signals: Vec<TurtleSignal> = Vec::new();
        let entry = self.check_entry_signal(candles, n);
        match entry {
            Err(e) => {
                return Err(e);
            },
            Ok(Some(s)) => {
                signals.push(s);
            },
            Ok(None) => {},
        }
        let exit = self.check_exit_signal(candles, n);
        match exit {
            Some(s) => {
                signals.push(s);
            },
            None => {},
        }
        proof {
            let first = match entry_signal(p, self.spec_symbol(), c) {
                Ok(Some(s)) => seq![s],
                _ => Seq::<SignalView>::empty(),
            };
            let expected = match exit_signal(p, self.spec_symbol(), c) {
                Some(s) => first.push(s),
                None => first,
            };
            assert(signals@.map_values(|s: TurtleSignal| s@) =~= expected);
        }
        Ok(signals)
    }

    /// Analyses a candle series (oldest first) and returns the signals at
    /// its last candle: the entry signal, if any, then the exit signal, if
    /// any; no signal while the series is shorter than the entry and ATR
    /// periods.
    pub fn analyze(&self, candles: &[CandleData]) -> (r: Result<Vec<TurtleSignal>, TradingError>)
        requires
            analysis_defined(self.spec_params(), candles@),
        ensures
            match r {
                Ok(v) => analysis(self.spec_params(), self.spec_symbol(), candles@)
                    == Ok::<Seq<SignalView>, TradingError>(v@.map_values(|s: TurtleSignal| s@)),
                Err(e) => analysis(self.spec_params(), self.spec_symbol(), candles@)
                    == Err::<Seq<SignalView>, TradingError>(e),
            },
    {
        assert(candles@.take(candles@.len() as int) =~= candles@);
        self.analyze_prefix(candles, candles.len())
    }

    /// The indicator summary at the last candle: current price, channel
    /// bounds where there are enough candles, and whether an ATR can be
    /// computed.
    pub fn calculate_indicators(&self, candles: &[CandleData]) -> (r: Result<IndicatorSummary, TradingError>)
        ensures
            match r {
                Ok(s) => indicators(self.spec_params(), candles@) == Ok::<IndicatorView, TradingError>(s@),
                Err(e) => indicators(self.spec_params(), candles@) == Err::<IndicatorView, TradingError>(e),
            },
    {
        let n = candles.len();
        if n == 0 {
            return Err(TradingError::NoCandles);
        }
        assert(candles@.take(n as int) =~= candles@);
        let p = self.params;
        let entry_high = if n > p.entry_period {
            Some(window_high(candles, n, n - 1 - p.entry_period, n - 1))
        } else {
            None
        };
        let entry_low = if n > p.entry_period {
            Some(window_low(candles, n, n - 1 - p.entry_period, n - 1))
        } else {
            None
        };
        let exit_high = if n > p.exit_period {
            Some(window_high(candles, n, n - 1 - p.exit_period, n - 1))
        } else {
            None
        };
        let exit_low = if n > p.exit_period {
            Some(window_low(candles, n, n - 1 - p.exit_period, n - 1))
        } else {
            None
        };
        let atr_ready = n > p.atr_period;
        Ok(IndicatorSummary {
            current_price: candles[n - 1].close,
            entry_high,
            entry_low,
            exit_high,
            exit_low,
            atr_ready,
            timestamp: candles[n - 1].timestamp,
        })
    }
}

/// Highest high over candles `lo .. hi` of the first `n` candles.
fn window_high(candles: &[CandleData], n: usize, lo: usize, hi: usize) -> (r: u64)
    requires
        lo <= hi <= n <= candles@.len(),
    ensures
        r == fold_max(high_window(candles@.take(n as int), lo as int, hi as int)),
{
    let ghost c = candles@.take(n as int);
    let mut acc: u64 = NEG_INFINITY;
    let mut i: usize = lo;
    while i < hi
        invariant
            lo <= i <= hi <= n <= candles@.len(),
            c == candles@.take(n as int),
            acc == fold_max(high_window(c, lo as int, i as int)),
        decreases hi - i,
    {
        proof {
            assert(high_window(c, lo as int, i + 1).drop_last() =~= high_window(c, lo as int, i as int));
        }
        acc = ieee::max(acc, candles[i].high);
        i = i + 1;
    }
    acc
}

/// Lowest low over candles `lo .. hi` of the first `n` candles.
fn window_low(candles: &[CandleData], n: usize, lo: usize, hi: usize) -> (r: u64)
    requires
        lo <= hi <= n <= candles@.len(),
    ensures
        r == fold_min(low_window(candles@.take(n as int), lo as int, hi as int)),
{
    let ghost c = candles@.take(n as int);
    let mut acc: u64 = POS_INFINITY;
    let mut i: usize = lo;
    while i < hi
        invariant
            lo <= i <= hi <= n <= candles@.len(),
            c == candles@.take(n as int),
            acc == fold_min(low_window(c, lo as int, i as int)),
        decreases hi - i,
    {
        proof {
            assert(low_window(c, lo as int, i + 1).drop_last() =~= low_window(c, lo as int, i as int));
        }
        acc = ieee::min(acc, candles[i].low);
        i = i + 1;
    }
    acc
}

} // verus!

verus! {

/// Every non-NaN element of `s` is at most `fold_max(s)`, which is never
/// NaN and is either negative infinity or an element of `s`.
proof fn lemma_fold_max(s: Seq<u64>)
    ensures
        !is_nan(fold_max(s)),
        forall|k: int| 0 <= k < s.len() && !is_nan(s[k]) ==> rank(s[k]) <= rank(fold_max(s)),
        fold_max(s) == NEG_INFINITY || exists|k: int| 0 <= k < s.len() && fold_max(s) == s[k],
    decreases s.len(),
{
    if s.len() > 0 {
        let t = s.drop_last();
        lemma_fold_max(t);
        assert forall|k: int| 0 <= k < s.len() && !is_nan(s[k]) implies rank(s[k]) <= rank(fold_max(s)) by {
            if k < s.len() - 1 {
                assert(s[k] == t[k]);
            }
        }
        if fold_max(s) != NEG_INFINITY {
            if fold_max(s) == s.last() {
                assert(fold_max(s) == s[s.len() - 1]);
            } else {
                let k = choose|k: int| 0 <= k < t.len() && fold_max(t) == t[k];
                assert(fold_max(s) == s[k]);
            }
        }
    }
}

/// Every non-NaN element of `s` is at least `fold_min(s)`, which is never
/// NaN and is either positive infinity or an element of `s`.
proof fn lemma_fold_min(s: Seq<u64>)
    ensures
        !is_nan(fold_min(s)),
        forall|k: int| 0 <= k < s.len() && !is_nan(s[k]) ==> rank(fold_min(s)) <= rank(s[k]),
        fold_min(s) == POS_INFINITY || exists|k: int| 0 <= k < s.len() && fold_min(s) == s[k],
    decreases s.len(),
{
    if s.len() > 0 {
        let t = s.drop_last();
        lemma_fold_min(t);
        assert forall|k: int| 0 <= k < s.len() && !is_nan(s[k]) implies rank(fold_min(s)) <= rank(s[k]) by {
            if k < s.len() - 1 {
                assert(s[k] == t[k]);
            }
        }
        if fold_min(s) != POS_INFINITY {
            if fold_min(s) == s.last() {
                assert(fold_min(s) == s[s.len() - 1]);
            } else {
                let k = choose|k: int| 0 <= k < t.len() && fold_min(t) == t[k];
                assert(fold_min(s) == s[k]);
            }
        }
    }
}

/// The channel high is the highest of the channel's highs: no candle of the
/// channel (`len - 1 - period .. len - 1`) has a higher high that is a number,
/// and the channel high is negative infinity or one of those highs. The
/// channel low is, likewise, the lowest of the channel's lows.
pub proof fn law_channel_bounds(c: Seq<CandleData>, period: int)
    requires
        0 <= period,
        period + 1 <= c.len(),
    ensures
        !is_nan(highest_high(c, period)),
        !is_nan(lowest_low(c, period)),
        forall|j: int|
            c.len() - 1 - period <= j < c.len() - 1 && !is_nan(#[trigger] c[j].high) ==> rank(c[j].high) <= rank(
                highest_high(c, period),
            ),
        forall|j: int|
            c.len() - 1 - period <= j < c.len() - 1 && !is_nan(#[trigger] c[j].low) ==> rank(lowest_low(c, period))
                <= rank(c[j].low),
        highest_high(c, period) == NEG_INFINITY || exists|j: int|
            c.len() - 1 - period <= j < c.len() - 1 && highest_high(c, period) == #[trigger] c[j].high,
        lowest_low(c, period) == POS_INFINITY || exists|j: int|
            c.len() - 1 - period <= j < c.len() - 1 && lowest_low(c, period) == #[trigger] c[j].low,
{
    let lo = c.len() - 1 - period;
    let hw = high_window(c, lo, c.len() - 1);
    let lw = low_window(c, lo, c.len() - 1);
    lemma_fold_max(hw);
    lemma_fold_min(lw);
    assert forall|j: int| lo <= j < c.len() - 1 && !is_nan(#[trigger] c[j].high) implies rank(c[j].high)
        <= rank(highest_high(c, period)) by {
        assert(hw[j - lo] == c[j].high);
    }
    assert forall|j: int| lo <= j < c.len() - 1 && !is_nan(#[trigger] c[j].low) implies rank(
        lowest_low(c, period),
    ) <= rank(c[j].low) by {
        assert(lw[j - lo] == c[j].low);
    }
    if highest_high(c, period) != NEG_INFINITY {
        let k = choose|k: int| 0 <= k < hw.len() && fold_max(hw) == hw[k];
        assert(highest_high(c, period) == c[lo + k].high);
    }
    if lowest_low(c, period) != POS_INFINITY {
        let k = choose|k: int| 0 <= k < lw.len() && fold_min(lw) == lw[k];
        assert(lowest_low(c, period) == c[lo + k].low);
    }
}

/// A long entry closes above every high of the entry channel that is a
/// number, and a short entry below every such low.
pub proof fn law_entry_breaks_channel(p: TurtleParams, symbol: Seq<char>, c: Seq<CandleData>)
    ensures
        entry_signal(p, symbol, c) matches Ok(Some(s)) ==> (s.rule == SignalRule::LongEntry ==> forall|j: int|
            c.len() - 1 - p.entry_period <= j < c.len() - 1 && !is_nan(#[trigger] c[j].high) ==> f64_gt(
                c[c.len() - 1].close,
                c[j].high,
            )),
        entry_signal(p, symbol, c) matches Ok(Some(s)) ==> (s.rule == SignalRule::ShortEntry ==> forall|j: int|
            c.len() - 1 - p.entry_period <= j < c.len() - 1 && !is_nan(#[trigger] c[j].low) ==> f64_lt(
                c[c.len() - 1].close,
                c[j].low,
            )),
{
    if c.len() >= p.entry_period + 1 {
        law_channel_bounds(c, p.entry_period as int);
    }
}

/// The candles are sound: every high and low is a number and no low lies
/// above its candle's high.
pub open spec fn sound_candles(c: Seq<CandleData>) -> bool {
    forall|j: int|
        0 <= j < c.len() ==> !is_nan(#[trigger] c[j].high) && !is_nan(c[j].low) && rank(c[j].low) <= rank(
            c[j].high,
        )
}

/// On sound candles, with entry and exit channels of at least one candle,
/// one analysis never signals both a buy and a sell.
pub proof fn law_signals_agree(p: TurtleParams, symbol: Seq<char>, c: Seq<CandleData>)
    requires
        p.entry_period >= 1,
        p.exit_period >= 1,
        sound_candles(c),
    ensures
        analysis(p, symbol, c) matches Ok(v) ==> forall|i: int, k: int|
            0 <= i < v.len() && 0 <= k < v.len() ==> (#[trigger] v[i]).signal_type == (#[trigger] v[k]).signal_type,
{
    let n = c.len();
    if n >= max_period(p.entry_period, p.atr_period) && n >= p.entry_period + 1 && n >= p.exit_period + 1 {
        law_channel_bounds(c, p.entry_period as int);
        law_channel_bounds(c, p.exit_period as int);
        let j = n - 2;
        assert(!is_nan(c[j].high) && !is_nan(c[j].low) && rank(c[j].low) <= rank(c[j].high));
        assert(rank(c[j].high) <= rank(highest_high(c, p.entry_period as int)));
        assert(rank(c[j].high) <= rank(highest_high(c, p.exit_period as int)));
        assert(rank(lowest_low(c, p.entry_period as int)) <= rank(c[j].low));
        assert(rank(lowest_low(c, p.exit_period as int)) <= rank(c[j].low));
    }
}

/// A long exit closes below every low of the exit channel that is a number,
/// and a short exit above every such high.
pub proof fn law_exit_breaks_channel(p: TurtleParams, symbol: Seq<char>, c: Seq<CandleData>)
    ensures
        exit_signal(p, symbol, c) matches Some(s) ==> (s.rule == SignalRule::LongExit ==> forall|j: int|
            c.len() - 1 - p.exit_period <= j < c.len() - 1 && !is_nan(#[trigger] c[j].low) ==> f64_lt(
                c[c.len() - 1].close,
                c[j].low,
            )),
        exit_signal(p, symbol, c) matches Some(s) ==> (s.rule == SignalRule::ShortExit ==> forall|j: int|
            c.len() - 1 - p.exit_period <= j < c.len() - 1 && !is_nan(#[trigger] c[j].high) ==> f64_gt(
                c[c.len() - 1].close,
                c[j].high,
            )),
{
    if c.len() >= p.exit_period + 1 {
        law_channel_bounds(c, p.exit_period as int);
    }
}

/// An analysis yields at most two signals: an entry signal first, then an
/// exit signal, all taken at the last candle at its close.
pub proof fn law_analysis_shape(p: TurtleParams, symbol: Seq<char>, c: Seq<CandleData>)
    ensures
        analysis(p, symbol, c) matches Ok(v) ==> {
            &&& v.len() <= 2
            &&& v.len() == 2 ==> (v[0].rule == SignalRule::LongEntry || v[0].rule == SignalRule::ShortEntry)
                && (v[1].rule == SignalRule::LongExit || v[1].rule == SignalRule::ShortExit)
            &&& forall|i: int|
                0 <= i < v.len() ==> (#[trigger] v[i]).price == c[c.len() - 1].close && v[i].timestamp
                    == c[c.len() - 1].timestamp && v[i].signal_type == rule_direction(v[i].rule)
                    && v[i].symbol == symbol
        },
{
}

} // verus!

verus! {

/// `x` tops the highs of candles `lo .. hi`: it is a number, no numeric
/// high there exceeds it, and it is one of those highs unless it is
/// negative infinity.
pub open spec fn tops_highs(c: Seq<CandleData>, lo: int, hi: int, x: u64) -> bool {
    &&& !is_nan(x)
    &&& forall|j: int| lo <= j < hi && !is_nan(#[trigger] c[j].high) ==> rank(c[j].high) <= rank(x)
    &&& x == NEG_INFINITY || exists|j: int| lo <= j < hi && x == #[trigger] c[j].high
}

/// `x` floors the lows of candles `lo .. hi`: it is a number, no numeric
/// low there is below it, and it is one of those lows unless it is
/// positive infinity.
pub open spec fn floors_lows(c: Seq<CandleData>, lo: int, hi: int, x: u64) -> bool {
    &&& !is_nan(x)
    &&& forall|j: int| lo <= j < hi && !is_nan(#[trigger] c[j].low) ==> rank(x) <= rank(c[j].low)
    &&& x == POS_INFINITY || exists|j: int| lo <= j < hi && x == #[trigger] c[j].low
}

/// The double `x` lies above negative infinity and above every numeric
/// high of candles `lo .. hi`.
pub open spec fn above_highs(c: Seq<CandleData>, lo: int, hi: int, x: u64) -> bool {
    &&& f64_gt(x, NEG_INFINITY)
    &&& forall|j: int| lo <= j < hi && !is_nan(#[trigger] c[j].high) ==> rank(c[j].high) < rank(x)
}

/// The double `x` lies below positive infinity and below every numeric low
/// of candles `lo .. hi`.
pub open spec fn below_lows(c: Seq<CandleData>, lo: int, hi: int, x: u64) -> bool {
    &&& f64_lt(x, POS_INFINITY)
    &&& forall|j: int| lo <= j < hi && !is_nan(#[trigger] c[j].low) ==> rank(x) < rank(c[j].low)
}

/// Some numeric high of candles `lo .. hi` is at least the number `x`.
pub open spec fn reaches_a_high(c: Seq<CandleData>, lo: int, hi: int, x: u64) -> bool {
    !is_nan(x) && exists|j: int| lo <= j < hi && !is_nan(#[trigger] c[j].high) && rank(x) <= rank(c[j].high)
}

/// Some numeric low of candles `lo .. hi` is at most the number `x`.
pub open spec fn reaches_a_low(c: Seq<CandleData>, lo: int, hi: int, x: u64) -> bool {
    !is_nan(x) && exists|j: int| lo <= j < hi && !is_nan(#[trigger] c[j].low) && rank(c[j].low) <= rank(x)
}

/// The channel results in the terms above: the channel high tops the
/// channel's highs, the channel low floors its lows, a close above all its
/// highs is above the channel high, and a close below all its lows is below
/// the channel low.
proof fn lemma_channel_facts(c: Seq<CandleData>, period: int)
    requires
        0 <= period,
        period + 1 <= c.len(),
    ensures
        tops_highs(c, c.len() - 1 - period, c.len() - 1, highest_high(c, period)),
        floors_lows(c, c.len() - 1 - period, c.len() - 1, lowest_low(c, period)),
        forall|x: u64| above_highs(c, c.len() - 1 - period, c.len() - 1, x) ==> f64_gt(x, highest_high(c, period)),
        forall|x: u64| below_lows(c, c.len() - 1 - period, c.len() - 1, x) ==> f64_lt(x, lowest_low(c, period)),
        forall|x: u64| reaches_a_high(c, c.len() - 1 - period, c.len() - 1, x) ==> !f64_gt(x, highest_high(c, period)),
        forall|x: u64| reaches_a_low(c, c.len() - 1 - period, c.len() - 1, x) ==> !f64_lt(x, lowest_low(c, period)),
{
    law_channel_bounds(c, period);
    let lo = c.len() - 1 - period;
    let hi = c.len() - 1;
    let h = highest_high(c, period);
    let l = lowest_low(c, period);
    assert forall|x: u64| above_highs(c, lo, hi, x) implies f64_gt(x, h) by {
        if h != NEG_INFINITY {
            let j = choose|j: int| lo <= j < hi && h == #[trigger] c[j].high;
            assert(!is_nan(c[j].high));
        }
    }
    assert forall|x: u64| below_lows(c, lo, hi, x) implies f64_lt(x, l) by {
        if l != POS_INFINITY {
            let j = choose|j: int| lo <= j < hi && l == #[trigger] c[j].low;
            assert(!is_nan(c[j].low));
        }
    }
    assert forall|x: u64| reaches_a_high(c, lo, hi, x) implies !f64_gt(x, h) by {
        let j = choose|j: int| lo <= j < hi && !is_nan(#[trigger] c[j].high) && rank(x) <= rank(c[j].high);
        assert(rank(c[j].high) <= rank(h));
    }
    assert forall|x: u64| reaches_a_low(c, lo, hi, x) implies !f64_lt(x, l) by {
        let j = choose|j: int| lo <= j < hi && !is_nan(#[trigger] c[j].low) && rank(c[j].low) <= rank(x);
        assert(rank(l) <= rank(c[j].low));
    }
}

/// The entry rule fires on every breakout: with more candles than the entry
/// period and the ATR period, a last close above every numeric high of the
/// entry channel makes the analysis open with a long entry (a buy at that
/// close, at the channel's top), and a last close below every numeric low
/// that does not also clear the channel's highs makes it open with a short
/// entry (a sell at that close, at the channel's floor).
pub proof fn law_entry_on_breakout(p: TurtleParams, symbol: Seq<char>, c: Seq<CandleData>)
    requires
        c.len() >= p.entry_period + 1,
        c.len() >= p.atr_period + 1,
    ensures
        above_highs(c, c.len() - 1 - p.entry_period, c.len() - 1, c[c.len() - 1].close) ==> (analysis(
            p,
            symbol,
            c,
        ) matches Ok(v) && v.len() >= 1 && v[0].rule == SignalRule::LongEntry && v[0].signal_type
            == SignalType::Buy && v[0].price == c[c.len() - 1].close && v[0].timestamp == c[c.len()
            - 1].timestamp && v[0].period == p.entry_period && v[0].symbol == symbol && tops_highs(
            c,
            c.len() - 1 - p.entry_period,
            c.len() - 1,
            v[0].level,
        )),
        below_lows(c, c.len() - 1 - p.entry_period, c.len() - 1, c[c.len() - 1].close) && reaches_a_high(
            c,
            c.len() - 1 - p.entry_period,
            c.len() - 1,
            c[c.len() - 1].close,
        ) ==> (analysis(p, symbol, c) matches Ok(v) && v.len() >= 1 && v[0].rule == SignalRule::ShortEntry
            && v[0].signal_type == SignalType::Sell && v[0].price == c[c.len() - 1].close && v[0].timestamp
            == c[c.len() - 1].timestamp && v[0].period == p.entry_period && v[0].symbol == symbol
            && floors_lows(c, c.len() - 1 - p.entry_period, c.len() - 1, v[0].level)),
{
    lemma_channel_facts(c, p.entry_period as int);
}

/// An entry breakout with no more candles than the ATR period fails the
/// analysis: an entry needs an ATR.
pub proof fn law_entry_needs_atr(p: TurtleParams, symbol: Seq<char>, c: Seq<CandleData>)
    requires
        c.len() >= p.entry_period + 1,
        c.len() == p.atr_period,
        above_highs(c, c.len() - 1 - p.entry_period, c.len() - 1, c[c.len() - 1].close) || (below_lows(
            c,
            c.len() - 1 - p.entry_period,
            c.len() - 1,
            c[c.len() - 1].close,
        ) && reaches_a_high(c, c.len() - 1 - p.entry_period, c.len() - 1, c[c.len() - 1].close)),
    ensures
        analysis(p, symbol, c) == Err::<Seq<SignalView>, TradingError>(TradingError::NotEnoughDataForAtr),
{
    lemma_channel_facts(c, p.entry_period as int);
}

/// No entry while the last close stays within the entry channel: it neither
/// clears every high nor undercuts every low.
pub proof fn law_no_entry_inside_channel(p: TurtleParams, symbol: Seq<char>, c: Seq<CandleData>)
    requires
        c.len() >= p.entry_period + 1,
        reaches_a_high(c, c.len() - 1 - p.entry_period, c.len() - 1, c[c.len() - 1].close),
        reaches_a_low(c, c.len() - 1 - p.entry_period, c.len() - 1, c[c.len() - 1].close),
    ensures
        entry_signal(p, symbol, c) == Ok::<Option<SignalView>, TradingError>(None),
{
    lemma_channel_facts(c, p.entry_period as int);
}

/// The exit rule fires on every breakout: with more candles than the exit
/// period, and an analysis that runs (at least as many candles as the entry
/// and ATR periods, and more than the ATR period), a last close below every
/// numeric low of the exit channel ends the analysis with a long exit (a
/// sell at the channel's floor), and one above every numeric high that does
/// not also undercut the channel's lows ends it with a short exit (a buy at
/// the channel's top).
pub proof fn law_exit_on_breakout(p: TurtleParams, symbol: Seq<char>, c: Seq<CandleData>)
    requires
        c.len() >= p.exit_period + 1,
        c.len() >= p.entry_period,
        c.len() >= p.atr_period + 1,
    ensures
        below_lows(c, c.len() - 1 - p.exit_period, c.len() - 1, c[c.len() - 1].close) ==> (analysis(
            p,
            symbol,
            c,
        ) matches Ok(v) && v.len() >= 1 && v.last().rule == SignalRule::LongExit && v.last().signal_type
            == SignalType::Sell && v.last().price == c[c.len() - 1].close && v.last().period == p.exit_period
            && v.last().symbol == symbol && floors_lows(c, c.len() - 1 - p.exit_period, c.len() - 1, v.last().level)),
        above_highs(c, c.len() - 1 - p.exit_period, c.len() - 1, c[c.len() - 1].close) && reaches_a_low(
            c,
            c.len() - 1 - p.exit_period,
            c.len() - 1,
            c[c.len() - 1].close,
        ) ==> (analysis(p, symbol, c) matches Ok(v) && v.len() >= 1 && v.last().rule == SignalRule::ShortExit
            && v.last().signal_type == SignalType::Buy && v.last().price == c[c.len() - 1].close
            && v.last().period == p.exit_period && v.last().symbol == symbol && tops_highs(
            c,
            c.len() - 1 - p.exit_period,
            c.len() - 1,
            v.last().level,
        )),
{
    lemma_channel_facts(c, p.exit_period as int);
}

/// No exit while the last close stays within the exit channel.
pub proof fn law_no_exit_inside_channel(p: TurtleParams, symbol: Seq<char>, c: Seq<CandleData>)
    requires
        c.len() >= p.exit_period + 1,
        reaches_a_high(c, c.len() - 1 - p.exit_period, c.len() - 1, c[c.len() - 1].close),
        reaches_a_low(c, c.len() - 1 - p.exit_period, c.len() - 1, c[c.len() - 1].close),
    ensures
        exit_signal(p, symbol, c) is None,
{
    lemma_channel_facts(c, p.exit_period as int);
}

/// The indicator summary of a non-empty series: the last candle's close and
/// time; each channel bound present exactly when there are more candles than
/// its period, the high topping the channel's highs and the low flooring
/// its lows; an ATR ready exactly when there are more candles than the ATR
/// period. An empty series has no summary.
pub proof fn law_indicator_summary(p: TurtleParams, c: Seq<CandleData>)
    ensures
        c.len() == 0 ==> indicators(p, c) == Err::<IndicatorView, TradingError>(TradingError::NoCandles),
        c.len() >= 1 ==> (indicators(p, c) matches Ok(v) && {
            let n = c.len();
            let e = p.entry_period as int;
            let x = p.exit_period as int;
            &&& v.current_price == c[n - 1].close
            &&& v.timestamp == c[n - 1].timestamp
            &&& v.atr_ready == (n >= p.atr_period + 1)
            &&& (v.entry_high is Some) == (n >= e + 1)
            &&& (v.entry_low is Some) == (n >= e + 1)
            &&& (v.exit_high is Some) == (n >= x + 1)
            &&& (v.exit_low is Some) == (n >= x + 1)
            &&& v.entry_high matches Some(h) ==> tops_highs(c, n - 1 - e, n - 1, h)
            &&& v.entry_low matches Some(l) ==> floors_lows(c, n - 1 - e, n - 1, l)
            &&& v.exit_high matches Some(h) ==> tops_highs(c, n - 1 - x, n - 1, h)
            &&& v.exit_low matches Some(l) ==> floors_lows(c, n - 1 - x, n - 1, l)
        }),
{
    if c.len() >= p.entry_period + 1 {
        lemma_channel_facts(c, p.entry_period as int);
    }
    if c.len() >= p.exit_period + 1 {
        lemma_channel_facts(c, p.exit_period as int);
    }
}

/// Parameter validation: each zero period or unit count is reported, in
/// the order entry, exit, ATR, units after risk; with positive periods the
/// risk is refused exactly when it is a number at most zero or above one
/// (`0x3ff0_0000_0000_0000` is the pattern of 1.0), and with positive
/// periods and units every other risk is accepted.
pub proof fn law_params_verdict(p: TurtleParams)
    ensures
        p.entry_period == 0 ==> params_verdict(p) == Err::<(), TradingError>(TradingError::ZeroEntryPeriod),
        p.entry_period > 0 && p.exit_period == 0 ==> params_verdict(p) == Err::<(), TradingError>(
            TradingError::ZeroExitPeriod,
        ),
        p.entry_period > 0 && p.exit_period > 0 && p.atr_period == 0 ==> params_verdict(p) == Err::<
            (),
            TradingError,
        >(TradingError::ZeroAtrPeriod),
        p.entry_period > 0 && p.exit_period > 0 && p.atr_period > 0 ==> ((params_verdict(p) == Err::<
            (),
            TradingError,
        >(TradingError::RiskOutOfRange)) <==> (!is_nan(p.risk_per_trade) && (rank(p.risk_per_trade) <= 0
            || rank(p.risk_per_trade) > rank(0x3ff0_0000_0000_0000u64)))),
        p.entry_period > 0 && p.exit_period > 0 && p.atr_period > 0 && !(!is_nan(p.risk_per_trade) && (rank(
            p.risk_per_trade,
        ) <= 0 || rank(p.risk_per_trade) > rank(0x3ff0_0000_0000_0000u64))) ==> (p.max_units == 0
            <==> params_verdict(p) == Err::<(), TradingError>(TradingError::ZeroMaxUnits)) && (p.max_units > 0
            <==> params_verdict(p) is Ok),
{
}

} // verus!

verus! {

/// A channel of `period` candles before the last one is computed exactly
/// when there are more candles than `period`; its high then tops the
/// channel's highs and its low floors the channel's lows.
pub proof fn law_channel_results(c: Seq<CandleData>, period: int)
    requires
        0 <= period,
    ensures
        highest_high_result(c, period) is Err <==> c.len() <= period,
        lowest_low_result(c, period) is Err <==> c.len() <= period,
        highest_high_result(c, period) matches Ok(h) ==> tops_highs(c, c.len() - 1 - period, c.len() - 1, h),
        lowest_low_result(c, period) matches Ok(l) ==> floors_lows(c, c.len() - 1 - period, c.len() - 1, l),
{
    if c.len() > period {
        lemma_channel_facts(c, period);
    }
}

/// Without enough candles nothing is signalled: no signal at all while the
/// series is shorter than the entry or the ATR period, no entry while it
/// has no more candles than the entry period, and no exit while it has no
/// more candles than the exit period.
pub proof fn law_quiet_without_history(p: TurtleParams, symbol: Seq<char>, c: Seq<CandleData>)
    ensures
        c.len() < p.entry_period || c.len() < p.atr_period ==> analysis(p, symbol, c) == Ok::<
            Seq<SignalView>,
            TradingError,
        >(Seq::empty()),
        c.len() <= p.entry_period ==> entry_signal(p, symbol, c) == Ok::<Option<SignalView>, TradingError>(None),
        c.len() <= p.exit_period ==> exit_signal(p, symbol, c) is None,
{
}

} // verus!
