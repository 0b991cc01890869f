//! The registry of strategies by symbol, the signal routing of trading and
//! backtesting, and the signal series of a backtest.
use vstd::prelude::*;

use crate::error::TradingError;
use crate::ieee::{self, f64_gt, f64_le, is_nan, rank, ZERO};
use crate::strategy::{analysis, SignalView, TurtleSignal, TurtleStrategy};
use crate::types::{default_params, CandleData, SignalType, TurtleParams};

verus! {

/// The symbol that backtests run on.
pub const BACKTEST_SYMBOL: &'static str = "SOL-USDT";

/// Candles that a backtest needs before its first analysis; the first
/// analysis covers one candle more.
pub const BACKTEST_WARMUP: usize = 50;

/// What to do with a signal, given the position held.
#[derive(Debug, Clone, Copy, PartialEq, Eq, Structural)]
pub enum TradeAction {
    /// Open a long position.
    OpenLong,
    /// Close the long position held.
    CloseLong,
    /// Leave the position as it is.
    Keep,
}

/// The routing rule: a buy opens a long when no position is held or the
/// quantity held is not above zero; a sell closes a long whose quantity is
/// above zero; anything else keeps the position.
pub open spec fn route(signal_type: SignalType, position_quantity: Option<u64>) -> TradeAction {
    match signal_type {
        SignalType::Buy => match position_quantity {
            None => TradeAction::OpenLong,
            Some(q) => if f64_le(q, ZERO) {
                TradeAction::OpenLong
            } else {
                TradeAction::Keep
            },
        },
        SignalType::Sell => match position_quantity {
            Some(q) => if f64_gt(q, ZERO) {
                TradeAction::CloseLong
            } else {
                TradeAction::Keep
            },
            None => TradeAction::Keep,
        },
        SignalType::Hold => TradeAction::Keep,
    }
}

/// Routes a signal against the position held (`position_quantity` is the
/// bit pattern of its quantity, `None` when no position is held). Live
/// trading and backtests route alike: a sell with a long held closes it,
/// as a short entry is not traded on a spot account.
pub fn route_signal(signal_type: SignalType, position_quantity: Option<u64>) -> (r: TradeAction)
    ensures
        r == route(signal_type, position_quantity),
{
    match signal_type {
        SignalType::Buy => match position_quantity {
            None => TradeAction::OpenLong,
            Some(q) => if ieee::le(q, ZERO) {
                TradeAction::OpenLong
            } else {
                TradeAction::Keep
            },
        },
        SignalType::Sell => match position_quantity {
            Some(q) => if ieee::gt(q, ZERO) {
                TradeAction::CloseLong
            } else {
                TradeAction::Keep
            },
            None => TradeAction::Keep,
        },
        SignalType::Hold => TradeAction::Keep,
    }
}

/// How each signal meets the position held: a sell closes a long whose
/// quantity is a number above zero and otherwise keeps the position; a buy
/// opens a long when nothing is held or the quantity held is a number at
/// most zero, and otherwise keeps the position; a hold always keeps it. A
/// buy never closes and a sell never opens.
pub proof fn law_routing(signal_type: SignalType, position_quantity: Option<u64>)
    ensures
        signal_type == SignalType::Sell ==> (route(signal_type, position_quantity) == TradeAction::CloseLong
            <==> (position_quantity matches Some(q) && !is_nan(q) && rank(q) > 0)),
        signal_type == SignalType::Sell ==> route(signal_type, position_quantity) != TradeAction::OpenLong,
        signal_type == SignalType::Buy ==> (route(signal_type, position_quantity) == TradeAction::OpenLong
            <==> (position_quantity is None || (position_quantity matches Some(q) && !is_nan(q) && rank(q) <= 0))),
        signal_type == SignalType::Buy ==> route(signal_type, position_quantity) != TradeAction::CloseLong,
        signal_type == SignalType::Hold ==> route(signal_type, position_quantity) == TradeAction::Keep,
{
}

/// The strategies run, one per symbol.
pub struct StrategyManager {
    strategies: Vec<TurtleStrategy>,
}

/// The signals of one analysis, as views.
pub open spec fn signal_views(v: Vec<TurtleSignal>) -> Seq<SignalView> {
    v@.map_values(|s: TurtleSignal| s@)
}

impl StrategyManager {
    /// No two strategies trade the same symbol.
    #[verifier::type_invariant]
    spec fn distinct_symbols(self) -> bool {
        forall|i: int, j: int|
            0 <= i < self.strategies@.len() && 0 <= j < self.strategies@.len() && i != j
                ==> self.strategies@[i].spec_symbol() != self.strategies@[j].spec_symbol()
    }

    /// Some strategy trades `symbol`.
    pub closed spec fn runs(self, symbol: Seq<char>) -> bool {
        exists|i: int| 0 <= i < self.strategies@.len() && self.strategies@[i].spec_symbol() == symbol
    }

    /// The position of the strategy that trades `symbol`.
    closed spec fn slot(self, symbol: Seq<char>) -> int {
        choose|i: int| 0 <= i < self.strategies@.len() && self.strategies@[i].spec_symbol() == symbol
    }

    /// The parameters of each symbol's strategy.
    pub closed spec fn params_map(self) -> Map<Seq<char>, TurtleParams> {
        Map::new(|s: Seq<char>| self.runs(s), |s: Seq<char>| self.strategies@[self.slot(s)].spec_params())
    }

    /// The slot of a symbol is the one position that trades it.
    proof fn lemma_slot(self, i: int)
        requires
            self.distinct_symbols(),
            0 <= i < self.strategies@.len(),
        ensures
            self.runs(self.strategies@[i].spec_symbol()),
            self.slot(self.strategies@[i].spec_symbol()) == i,
    {
        let s = self.strategies@[i].spec_symbol();
        assert(self.runs(s));
        let k = self.slot(s);
        assert(self.strategies@[k].spec_symbol() == s);
    }

    /// Where `symbol` stands in the registry, if anywhere.
    fn find(&self, symbol: &String) -> (r: Option<usize>)
        ensures
            match r {
                Some(i) => i < self.strategies@.len() && self.strategies@[i as int].spec_symbol() == symbol@,
                None => !self.runs(symbol@),
            },
    {
        let mut i: usize = 0;
        while i < self.strategies.len()
            invariant
                i <= self.strategies@.len(),
                forall|k: int| 0 <= k < i ==> self.strategies@[k].spec_symbol() != symbol@,
            decreases self.strategies@.len() - i,
        {
            if *self.strategies[i].symbol() == *symbol {
                return Some(i);
            }
            i = i + 1;
        }
        None
    }

    /// A manager that runs the default turtle strategy on SOL-USDT.
    pub fn new() -> (r: Self)
        ensures
            r.params_map() == map!["SOL-USDT"@ => default_params()],
    {
        let strategy = TurtleStrategy::new("SOL-USDT".to_owned(), None);
        let mut strategies: Vec<TurtleStrategy> = Vec::new();
        strategies.push(strategy);
        let r = StrategyManager { strategies };
        proof {
            r.lemma_slot(0);
            assert(r.params_map() =~= map!["SOL-USDT"@ => default_params()]);
        }
        r
    }

    /// Runs a strategy for `symbol` with `params` or the defaults, in place
    /// of any strategy that ran for it.
    pub fn add_strategy(&mut self, symbol: String, params: Option<TurtleParams>) -> (r: Result<(), TradingError>)
        ensures
            r is Ok,
            final(self).params_map() == old(self).params_map().insert(
                symbol@,
                match params {
                    Some(p) => p,
                    None => default_params(),
                },
            ),
    {
        proof {
            use_type_invariant(&*self);
        }
        let ghost old_self = *self;
        let found = self.find(&symbol);
        let strategy = TurtleStrategy::new(symbol, params);
        let mut strategies: Vec<TurtleStrategy> = Vec::new();
        std::mem::swap(&mut strategies, &mut self.strategies);
        match found {
            Some(i) => {
                strategies.set(i, strategy);
            },
            None => {
                strategies.push(strategy);
            },
        }
        proof {
            assert forall|a: int, b: int|
                0 <= a < strategies@.len() && 0 <= b < strategies@.len() && a != b implies strategies@[a].spec_symbol()
                != strategies@[b].spec_symbol() by {
                if found is None {
                    if a < old_self.strategies@.len() && b < old_self.strategies@.len() {
                    } else if a < old_self.strategies@.len() {
                        assert(old_self.strategies@[a] == strategies@[a]);
                    } else {
                        assert(old_self.strategies@[b] == strategies@[b]);
                    }
                }
            }
        }
        self.strategies = strategies;
        proof {
            let new_self = *self;
            let expected = old_self.params_map().insert(
                symbol@,
                match params {
                    Some(p) => p,
                    None => default_params(),
                },
            );
            assert forall|s: Seq<char>| new_self.runs(s) <==> expected.contains_key(s) by {
                if new_self.runs(s) {
                    let k = choose|k: int| 0 <= k < new_self.strategies@.len() && new_self.strategies@[k].spec_symbol() == s;
                    if s != symbol@ {
                        assert(old_self.strategies@[k] == new_self.strategies@[k]);
                    }
                }
                if old_self.runs(s) && s != symbol@ {
                    let k = choose|k: int| 0 <= k < old_self.strategies@.len() && old_self.strategies@[k].spec_symbol() == s;
                    assert(old_self.strategies@[k] == new_self.strategies@[k]);
                }
                if s == symbol@ {
                    match found {
                        Some(i) => { assert(new_self.strategies@[i as int].spec_symbol() == s); },
                        None => { assert(new_self.strategies@[old_self.strategies@.len() as int].spec_symbol() == s); },
                    }
                }
            }
            assert forall|s: Seq<char>| #[trigger] new_self.runs(s) implies new_self.strategies@[new_self.slot(s)].spec_params()
                == expected[s] by {
                let k = new_self.slot(s);
                new_self.lemma_slot(k);
                if s != symbol@ {
                    assert(old_self.strategies@[k] == new_self.strategies@[k]);
                    old_self.lemma_slot(k);
                }
            }
            assert(new_self.params_map() =~= expected);
        }
        Ok(())
    }

    /// The parameters of the strategy that trades `symbol`, if one does.
    pub fn get_strategy_params(&self, symbol: &str) -> (r: Option<&TurtleParams>)
        ensures
            match r {
                Some(p) => self.params_map().contains_key(symbol@) && *p == self.params_map()[symbol@],
                None => !self.params_map().contains_key(symbol@),
            },
    {
        match self.strategy(symbol) {
            Some(s) => Some(s.get_params()),
            None => None,
        }
    }

    /// The strategy that trades `symbol`, if one does.
    pub fn strategy(&self, symbol: &str) -> (r: Option<&TurtleStrategy>)
        ensures
            match r {
                Some(s) => self.params_map().contains_key(symbol@) && s.spec_symbol() == symbol@ && s.spec_params()
                    == self.params_map()[symbol@],
                None => !self.params_map().contains_key(symbol@),
            },
    {
        proof {
            use_type_invariant(self);
        }
        let key = symbol.to_owned();
        match self.find(&key) {
            Some(i) => {
                proof {
                    self.lemma_slot(i as int);
                }
                Some(&self.strategies[i])
            },
            None => None,
        }
    }

    /// Replaces the parameters of the strategy that trades `symbol`, once
    /// they pass validation. An unknown symbol or invalid parameters leave
    /// the registry as it was.
    pub fn update_strategy_params(&mut self, symbol: &str, params: TurtleParams) -> (r: Result<(), TradingError>)
        ensures
            !old(self).params_map().contains_key(symbol@) ==> (r matches Err(TradingError::UnknownStrategy(s))
                && s@ == symbol@ && final(self).params_map() == old(self).params_map()),
            old(self).params_map().contains_key(symbol@) && crate::strategy::params_verdict(params) is Err ==> (r
                == crate::strategy::params_verdict(params) && final(self).params_map() == old(self).params_map()),
            old(self).params_map().contains_key(symbol@) && crate::strategy::params_verdict(params) is Ok ==> (r is Ok
                && final(self).params_map() == old(self).params_map().insert(symbol@, params)),
    {
        proof {
            use_type_invariant(&*self);
        }
        let ghost old_self = *self;
        let key = symbol.to_owned();
        let found = self.find(&key);
        match found {
            None => {
                return Err(TradingError::UnknownStrategy(key));
            },
            Some(i) => {
                match TurtleStrategy::validate_params(&params) {
                    Err(e) => {
                        return Err(e);
                    },
                    Ok(()) => {},
                }
                let mut strategies: Vec<TurtleStrategy> = Vec::new();
        std::mem::swap(&mut strategies, &mut self.strategies);
                let mut strategy = strategies.remove(i);
                strategy.update_params(params);
                strategies.insert(i, strategy);
                proof {
                    assert forall|a: int, b: int|
                        0 <= a < strategies@.len() && 0 <= b < strategies@.len() && a != b implies strategies@[a].spec_symbol()
                        != strategies@[b].spec_symbol() by {
                        assert(a != i ==> strategies@[a] == old_self.strategies@[a]);
                        assert(b != i ==> strategies@[b] == old_self.strategies@[b]);
                    }
                }
                self.strategies = strategies;
                proof {
                    let new_self = *self;
                    let expected = old_self.params_map().insert(symbol@, params);
                    old_self.lemma_slot(i as int);
                    new_self.lemma_slot(i as int);
                    assert forall|s: Seq<char>| new_self.runs(s) <==> expected.contains_key(s) by {
                        if new_self.runs(s) {
                            let k = choose|k: int| 0 <= k < new_self.strategies@.len() && new_self.strategies@[k].spec_symbol() == s;
                            if k != i {
                                assert(old_self.strategies@[k] == new_self.strategies@[k]);
                            }
                        }
                        if old_self.runs(s) {
                            let k = choose|k: int| 0 <= k < old_self.strategies@.len() && old_self.strategies@[k].spec_symbol() == s;
                            if k != i {
                                assert(old_self.strategies@[k] == new_self.strategies@[k]);
                            }
                        }
                    }
                    assert forall|s: Seq<char>| #[trigger] new_self.runs(s) implies new_self.strategies@[new_self.slot(s)].spec_params()
                        == expected[s] by {
                        let k = new_self.slot(s);
                        new_self.lemma_slot(k);
                        if k != i {
                            assert(old_self.strategies@[k] == new_self.strategies@[k]);
                            old_self.lemma_slot(k);
                        }
                    }
                    assert(new_self.params_map() =~= expected);
                }
                Ok(())
            },
        }
    }

    /// The signals that a live update of `symbol` yields on the latest
    /// candles (oldest first): none without candles or without a strategy
    /// for the symbol, else the strategy's analysis.
    pub fn real_time_signals(&self, symbol: &str, candles: &[CandleData]) -> (r: Result<Vec<TurtleSignal>, TradingError>)
        ensures
            candles@.len() == 0 || !self.params_map().contains_key(symbol@) ==> (r matches Ok(v) && v@.len() == 0),
            candles@.len() > 0 && self.params_map().contains_key(symbol@) ==> match r {
                Ok(v) => analysis(self.params_map()[symbol@], symbol@, candles@) == Ok::<Seq<SignalView>, TradingError>(
                    signal_views(v),
                ),
                Err(e) => analysis(self.params_map()[symbol@], symbol@, candles@) == Err::<Seq<SignalView>, TradingError>(e),
            },
    {
        if candles.len() == 0 {
            return Ok(Vec::new());
        }
        match self.strategy(symbol) {
            Some(strategy) => strategy.analyze(candles),
            None => Ok(Vec::new()),
        }
    }

    /// The signals of a backtest over `candles` (oldest first) on the
    /// SOL-USDT strategy: one analysis per candle from the one after the
    /// warm-up on, each over all candles up to it. Too few candles or no
    /// SOL-USDT strategy refuse the backtest; otherwise the result holds
    /// the signals of the analyses that succeeded, in order, and the error
    /// of the first one that failed, after which no analysis runs.
    pub fn backtest_signals(&self, candles: &[CandleData]) -> (r: Result<
        (Vec<Vec<TurtleSignal>>, Option<TradingError>),
        TradingError,
    >)
        ensures
            candles@.len() < BACKTEST_WARMUP ==> r matches Err(TradingError::NotEnoughBacktestData),
            candles@.len() >= BACKTEST_WARMUP && !self.params_map().contains_key(BACKTEST_SYMBOL@) ==> (r matches Err(
                TradingError::StrategyNotFound(s),
            ) && s@ == BACKTEST_SYMBOL@),
            candles@.len() >= BACKTEST_WARMUP && self.params_map().contains_key(BACKTEST_SYMBOL@) ==> {
                let p = self.params_map()[BACKTEST_SYMBOL@];
                &&& r is Ok
                &&& r matches Ok((v, f)) ==> {
                    &&& v@.len() <= candles@.len() - BACKTEST_WARMUP
                    &&& forall|k: int|
                        0 <= k < v@.len() ==> analysis(p, BACKTEST_SYMBOL@, candles@.take(BACKTEST_WARMUP + k + 1))
                            == Ok::<Seq<SignalView>, TradingError>(signal_views(#[trigger] v@[k]))
                    &&& f is None ==> v@.len() == candles@.len() - BACKTEST_WARMUP
                    &&& f matches Some(e) ==> v@.len() < candles@.len() - BACKTEST_WARMUP && analysis(
                        p,
                        BACKTEST_SYMBOL@,
                        candles@.take(BACKTEST_WARMUP + v@.len() + 1),
                    ) == Err::<Seq<SignalView>, TradingError>(e)
                }
            },
    {
        if candles.len() < BACKTEST_WARMUP {
            return Err(TradingError::NotEnoughBacktestData);
        }
        let strategy = match self.strategy(BACKTEST_SYMBOL) {
            Some(s) => s,
            None => {
                return Err(TradingError::StrategyNotFound(BACKTEST_SYMBOL.to_owned()));
            },
        };
        let ghost p = self.params_map()[BACKTEST_SYMBOL@];
        let mut steps: Vec<Vec<TurtleSignal>> = Vec::new();
        let mut i: usize = BACKTEST_WARMUP;
        while i < candles.len()
            invariant
                BACKTEST_WARMUP <= i <= candles@.len(),
                self.params_map().contains_key(BACKTEST_SYMBOL@),
                p == self.params_map()[BACKTEST_SYMBOL@],
                strategy.spec_params() == p,
                strategy.spec_symbol() == BACKTEST_SYMBOL@,
                steps@.len() == i - BACKTEST_WARMUP,
                forall|k: int|
                    0 <= k < steps@.len() ==> analysis(p, BACKTEST_SYMBOL@, candles@.take(BACKTEST_WARMUP + k + 1))
                        == Ok::<Seq<SignalView>, TradingError>(signal_views(#[trigger] steps@[k])),
            decreases candles@.len() - i,
        {
            match strategy.analyze_prefix(candles, i + 1) {
                Ok(signals) => {
                    steps.push(signals);
                },
                Err(e) => {
                    return Ok((steps, Some(e)));
                },
            }
            i = i + 1;
        }
        Ok((steps, None))
    }
}

} // verus!
