use quant_trader::error::TradingError;
use quant_trader::manager::{route_signal, StrategyManager, TradeAction, BACKTEST_SYMBOL, BACKTEST_WARMUP};
use quant_trader::strategy::SignalRule;
use quant_trader::types::{CandleData, SignalType, TurtleParams};

fn candle(i: i64, high: f64, low: f64, close: f64) -> CandleData {
    CandleData {
        timestamp: i * 60_000,
        symbol: "SOL-USDT".to_string(),
        open: close.to_bits(),
        high: high.to_bits(),
        low: low.to_bits(),
        close: close.to_bits(),
        volume: 1.0f64.to_bits(),
    }
}

fn params(entry: usize, exit: usize, atr: usize, risk: f64, units: usize) -> TurtleParams {
    TurtleParams {
        entry_period: entry,
        exit_period: exit,
        atr_period: atr,
        risk_per_trade: risk.to_bits(),
        max_units: units,
    }
}

#[test]
fn new_manager_runs_default_sol_strategy() {
    let m = StrategyManager::new();
    let p = m.get_strategy_params("SOL-USDT").unwrap();
    assert_eq!(*p, TurtleParams::default());
    assert!(m.get_strategy_params("BTC-USDT").is_none());
    assert_eq!(m.strategy("SOL-USDT").unwrap().symbol(), "SOL-USDT");
}

#[test]
fn add_strategy_then_read_back() {
    let mut m = StrategyManager::new();
    assert!(m.add_strategy("BTC-USDT".to_string(), Some(params(30, 15, 25, 0.01, 2))).is_ok());
    assert_eq!(m.get_strategy_params("BTC-USDT").unwrap().entry_period, 30);
    // adding again replaces
    assert!(m.add_strategy("BTC-USDT".to_string(), None).is_ok());
    assert_eq!(*m.get_strategy_params("BTC-USDT").unwrap(), TurtleParams::default());
    assert_eq!(*m.get_strategy_params("SOL-USDT").unwrap(), TurtleParams::default());
}

#[test]
fn update_strategy_params_read_after_write() {
    let mut m = StrategyManager::new();
    let p = params(25, 12, 22, 0.05, 3);
    assert!(m.update_strategy_params("SOL-USDT", p).is_ok());
    assert_eq!(*m.get_strategy_params("SOL-USDT").unwrap(), p);
}

#[test]
fn update_unknown_strategy_is_refused() {
    let mut m = StrategyManager::new();
    match m.update_strategy_params("ETH-USDT", TurtleParams::default()) {
        Err(TradingError::UnknownStrategy(s)) => assert_eq!(s, "ETH-USDT"),
        other => panic!("unexpected {:?}", other),
    }
    assert!(m.get_strategy_params("ETH-USDT").is_none());
}

#[test]
fn invalid_update_leaves_params() {
    let mut m = StrategyManager::new();
    let bad = params(0, 10, 20, 0.02, 4);
    assert!(matches!(m.update_strategy_params("SOL-USDT", bad), Err(TradingError::ZeroEntryPeriod)));
    assert_eq!(*m.get_strategy_params("SOL-USDT").unwrap(), TurtleParams::default());
}

#[test]
fn routing_of_signals() {
    assert_eq!(route_signal(SignalType::Buy, None), TradeAction::OpenLong);
    assert_eq!(route_signal(SignalType::Buy, Some(0.0f64.to_bits())), TradeAction::OpenLong);
    assert_eq!(route_signal(SignalType::Buy, Some((-1.0f64).to_bits())), TradeAction::OpenLong);
    assert_eq!(route_signal(SignalType::Buy, Some(2.0f64.to_bits())), TradeAction::Keep);
    assert_eq!(route_signal(SignalType::Sell, Some(2.0f64.to_bits())), TradeAction::CloseLong);
    assert_eq!(route_signal(SignalType::Sell, Some(0.0f64.to_bits())), TradeAction::Keep);
    assert_eq!(route_signal(SignalType::Sell, None), TradeAction::Keep);
    assert_eq!(route_signal(SignalType::Hold, None), TradeAction::Keep);
    assert_eq!(route_signal(SignalType::Buy, Some(f64::NAN.to_bits())), TradeAction::Keep);
}

fn rising(n: i64) -> Vec<CandleData> {
    (0..n).map(|i| {
        let p = 100.0 + i as f64;
        candle(i, p + 0.5, p - 0.5, p + 0.4)
    }).collect()
}

#[test]
fn real_time_signals_follow_the_strategy() {
    let m = StrategyManager::new();
    let signals = m.real_time_signals("SOL-USDT", &rising(30)).unwrap();
    assert_eq!(signals.len(), 2);
    assert_eq!(signals[0].rule, SignalRule::LongEntry);
    assert_eq!(m.real_time_signals("SOL-USDT", &[]).unwrap().len(), 0);
    assert_eq!(m.real_time_signals("BTC-USDT", &rising(30)).unwrap().len(), 0);
}

#[test]
fn backtest_needs_fifty_candles() {
    let m = StrategyManager::new();
    assert_eq!(BACKTEST_WARMUP, 50);
    assert_eq!(BACKTEST_SYMBOL, "SOL-USDT");
    assert!(matches!(m.backtest_signals(&rising(49)), Err(TradingError::NotEnoughBacktestData)));
}

#[test]
fn backtest_analyses_each_candle_after_warmup() {
    let m = StrategyManager::new();
    let candles = rising(55);
    let (steps, failure) = m.backtest_signals(&candles).unwrap();
    assert!(failure.is_none());
    assert_eq!(steps.len(), 5);
    for (k, step) in steps.iter().enumerate() {
        assert_eq!(step.len(), 2);
        assert_eq!(step[0].rule, SignalRule::LongEntry);
        assert_eq!(step[0].timestamp, candles[BACKTEST_WARMUP + k].timestamp);
    }
    let (steps, failure) = m.backtest_signals(&rising(50)).unwrap();
    assert!(steps.is_empty() && failure.is_none());
}

#[test]
fn backtest_stops_at_a_failing_analysis() {
    // the first analysis covers 51 candles, one too few for an ATR over 51
    let mut m = StrategyManager::new();
    m.add_strategy("SOL-USDT".to_string(), Some(params(5, 3, 51, 0.02, 4))).unwrap();
    let (steps, failure) = m.backtest_signals(&rising(55)).unwrap();
    assert!(steps.is_empty());
    assert!(matches!(failure, Some(TradingError::NotEnoughDataForAtr)));
    // with an ATR over 50 true ranges every analysis has enough candles
    m.add_strategy("SOL-USDT".to_string(), Some(params(5, 3, 50, 0.02, 4))).unwrap();
    let (steps, failure) = m.backtest_signals(&rising(55)).unwrap();
    assert_eq!(steps.len(), 5);
    assert!(failure.is_none());
}
