use quant_trader::error::TradingError;
use quant_trader::strategy::{SignalRule, TurtleStrategy};
use quant_trader::types::{CandleData, SignalType, TurtleParams, DEFAULT_RISK_PER_TRADE};

fn candle(i: i64, open: f64, high: f64, low: f64, close: f64, volume: f64) -> CandleData {
    CandleData {
        timestamp: 1_700_000_000_000 + i * 60_000,
        symbol: "SOL-USDT".to_string(),
        open: open.to_bits(),
        high: high.to_bits(),
        low: low.to_bits(),
        close: close.to_bits(),
        volume: volume.to_bits(),
    }
}

fn create_test_candles() -> Vec<CandleData> {
    let mut candles = Vec::new();
    for i in 0..30 {
        let step = i as f64 * 0.1;
        candles.push(candle(i, 100.0 + step, 102.0 + step, 98.0 + step, 101.0 + step, 1000.0));
    }
    candles
}

fn rising() -> Vec<CandleData> {
    let mut candles = Vec::new();
    for i in 0..30 {
        let p = 100.0 + i as f64;
        candles.push(candle(i, p, p + 0.5, p - 0.5, p + 0.4, 10.0));
    }
    candles
}

fn params(entry: usize, exit: usize, atr: usize) -> TurtleParams {
    TurtleParams {
        entry_period: entry,
        exit_period: exit,
        atr_period: atr,
        risk_per_trade: 0.02f64.to_bits(),
        max_units: 4,
    }
}

#[test]
fn test_turtle_strategy_creation() {
    let strategy = TurtleStrategy::new("SOL-USDT".to_string(), None);
    assert_eq!(strategy.symbol(), "SOL-USDT");
    assert_eq!(strategy.get_params().entry_period, 20);
}

#[test]
fn test_highest_high_calculation() {
    let strategy = TurtleStrategy::new("SOL-USDT".to_string(), None);
    let candles = create_test_candles();

    let high = strategy.calculate_highest_high(&candles, 10).unwrap();
    assert!(f64::from_bits(high) > 100.0);
}

#[test]
fn default_params_are_the_documented_ones() {
    let p = TurtleParams::default();
    assert_eq!(p.entry_period, 20);
    assert_eq!(p.exit_period, 10);
    assert_eq!(p.atr_period, 20);
    assert_eq!(f64::from_bits(p.risk_per_trade), 0.02);
    assert_eq!(DEFAULT_RISK_PER_TRADE, 0.02f64.to_bits());
    assert_eq!(p.max_units, 4);
}

#[test]
fn highest_high_is_the_max_of_the_channel_before_the_last_candle() {
    let strategy = TurtleStrategy::new("SOL-USDT".to_string(), None);
    let candles = create_test_candles();
    // a channel of 10 covers the 10 candles before the last: 19..=28
    let high = strategy.calculate_highest_high(&candles, 10).unwrap();
    assert_eq!(high, (102.0 + 28.0 * 0.1f64).to_bits());
    let low = strategy.calculate_lowest_low(&candles, 10).unwrap();
    assert_eq!(low, (98.0 + 19.0 * 0.1f64).to_bits());
}

#[test]
fn channel_of_one_candle_is_the_previous_candle() {
    let strategy = TurtleStrategy::new("SOL-USDT".to_string(), None);
    let candles = create_test_candles();
    assert_eq!(strategy.calculate_highest_high(&candles, 1).unwrap(), candles[28].high);
    assert_eq!(strategy.calculate_lowest_low(&candles, 1).unwrap(), candles[28].low);
    let two = vec![candle(0, 1.0, 5.0, 0.5, 2.0, 1.0), candle(1, 2.0, 3.0, 1.0, 2.5, 1.0)];
    assert_eq!(strategy.calculate_highest_high(&two, 1).unwrap(), 5.0f64.to_bits());
    assert_eq!(strategy.calculate_lowest_low(&two, 1).unwrap(), 0.5f64.to_bits());
}

#[test]
fn channel_of_zero_candles_is_unbounded() {
    let strategy = TurtleStrategy::new("SOL-USDT".to_string(), None);
    let candles = create_test_candles();
    assert_eq!(strategy.calculate_highest_high(&candles, 0).unwrap(), f64::NEG_INFINITY.to_bits());
    assert_eq!(strategy.calculate_lowest_low(&candles, 0).unwrap(), f64::INFINITY.to_bits());
}

#[test]
fn channel_needs_one_candle_more_than_its_period() {
    let strategy = TurtleStrategy::new("SOL-USDT".to_string(), None);
    let candles = create_test_candles();
    assert!(matches!(strategy.calculate_highest_high(&candles, 30), Err(TradingError::NotEnoughDataForHigh)));
    assert!(matches!(strategy.calculate_lowest_low(&candles, 30), Err(TradingError::NotEnoughDataForLow)));
    assert!(strategy.calculate_highest_high(&candles, 29).is_ok());
    assert!(matches!(strategy.calculate_highest_high(&[], 0), Err(TradingError::NotEnoughDataForHigh)));
}

#[test]
fn close_breaking_only_the_oldest_channel_candle_signals() {
    // entry channel of 2: candles 1 and 2 before the last; candle 1 has the high
    let strategy = TurtleStrategy::new("SOL-USDT".to_string(), Some(params(2, 5, 1)));
    let candles = vec![
        candle(0, 10.0, 10.5, 9.5, 10.0, 1.0),
        candle(1, 10.0, 12.0, 9.5, 10.0, 1.0),
        candle(2, 10.0, 10.5, 9.5, 10.0, 1.0),
        candle(3, 10.0, 11.5, 9.5, 11.0, 1.0),
    ];
    // 11.0 is above candle 2's high but not above candle 1's: no entry
    assert_eq!(strategy.analyze(&candles).unwrap().len(), 0);
    let mut higher = candles.clone();
    higher[3].close = 12.5f64.to_bits();
    let signals = strategy.analyze(&higher).unwrap();
    assert_eq!(signals.len(), 1);
    assert_eq!(signals[0].rule, SignalRule::LongEntry);
    assert_eq!(signals[0].level, 12.0f64.to_bits());
}

#[test]
fn nan_highs_are_skipped_by_the_channel() {
    let strategy = TurtleStrategy::new("SOL-USDT".to_string(), None);
    let mut candles = create_test_candles();
    candles[28].high = f64::NAN.to_bits();
    let high = strategy.calculate_highest_high(&candles, 10).unwrap();
    assert_eq!(high, (102.0 + 27.0 * 0.1f64).to_bits());
}

#[test]
fn rising_series_gives_long_entry_and_short_exit() {
    let strategy = TurtleStrategy::new("SOL-USDT".to_string(), None);
    let candles = rising();
    // the last close, 129.4, is above every earlier high (at most 128.5)
    let signals = strategy.analyze(&candles).unwrap();
    assert_eq!(signals.len(), 2);
    assert_eq!(signals[0].rule, SignalRule::LongEntry);
    assert_eq!(signals[0].signal_type, SignalType::Buy);
    assert_eq!(signals[0].strategy(), "Turtle");
    assert_eq!(signals[0].period, 20);
    assert_eq!(signals[0].price, candles[29].close);
    assert_eq!(signals[0].timestamp, candles[29].timestamp);
    assert_eq!(signals[0].symbol, "SOL-USDT");
    assert_eq!(signals[1].rule, SignalRule::ShortExit);
    assert_eq!(signals[1].signal_type, SignalType::Buy);
    assert_eq!(signals[1].strategy(), "Turtle_Exit");
    assert_eq!(signals[1].period, 10);
}

#[test]
fn falling_series_gives_short_entry_and_long_exit() {
    let strategy = TurtleStrategy::new("SOL-USDT".to_string(), None);
    let mut candles = Vec::new();
    for i in 0..30 {
        let p = 200.0 - i as f64;
        candles.push(candle(i, p, p + 1.0, p - 1.0, p - 0.5, 10.0));
    }
    let signals = strategy.analyze(&candles).unwrap();
    assert_eq!(signals.len(), 2);
    assert_eq!(signals[0].rule, SignalRule::ShortEntry);
    assert_eq!(signals[0].signal_type, SignalType::Sell);
    assert_eq!(signals[1].rule, SignalRule::LongExit);
    assert_eq!(signals[1].signal_type, SignalType::Sell);
}

#[test]
fn flat_series_gives_no_signal() {
    let strategy = TurtleStrategy::new("SOL-USDT".to_string(), None);
    let mut candles = Vec::new();
    for i in 0..30 {
        candles.push(candle(i, 100.0, 101.0, 99.0, 100.0, 10.0));
    }
    assert_eq!(strategy.analyze(&candles).unwrap().len(), 0);
}

#[test]
fn too_few_candles_give_no_signal() {
    let strategy = TurtleStrategy::new("SOL-USDT".to_string(), None);
    let candles: Vec<CandleData> = create_test_candles().into_iter().take(19).collect();
    assert_eq!(strategy.analyze(&candles).unwrap().len(), 0);
}

#[test]
fn entry_without_enough_candles_for_atr_fails() {
    // entry channel of 5, ATR over 29 true ranges: 29 candles are not enough
    let strategy = TurtleStrategy::new("SOL-USDT".to_string(), Some(params(5, 3, 29)));
    let candles: Vec<CandleData> = rising().into_iter().take(29).collect();
    assert!(matches!(strategy.analyze(&candles), Err(TradingError::NotEnoughDataForAtr)));
    let candles = rising();
    assert!(strategy.analyze(&candles).is_ok());
}

#[test]
fn channels_of_zero_candles_signal_both_ways() {
    // the input on which signals disagree: both channels are empty
    let strategy = TurtleStrategy::new("SOL-USDT".to_string(), Some(params(0, 0, 1)));
    let candles = create_test_candles();
    let signals = strategy.analyze(&candles).unwrap();
    assert_eq!(signals.len(), 2);
    assert_eq!(signals[0].signal_type, SignalType::Buy);
    assert_eq!(signals[1].signal_type, SignalType::Sell);
}

#[test]
fn indicators_report_channels_and_atr_readiness() {
    let strategy = TurtleStrategy::new("SOL-USDT".to_string(), None);
    let candles = create_test_candles();
    let summary = strategy.calculate_indicators(&candles).unwrap();
    assert_eq!(summary.current_price, candles[29].close);
    assert_eq!(summary.timestamp, candles[29].timestamp);
    assert_eq!(summary.exit_high, Some((102.0 + 28.0 * 0.1f64).to_bits()));
    assert_eq!(summary.entry_low, Some((98.0 + 9.0 * 0.1f64).to_bits()));
    assert!(summary.atr_ready);
    let short: Vec<CandleData> = candles.iter().take(15).cloned().collect();
    let summary = strategy.calculate_indicators(&short).unwrap();
    assert_eq!(summary.entry_high, None);
    assert!(summary.exit_low.is_some());
    assert!(!summary.atr_ready);
    // an entry channel of 20 needs 21 candles
    let twenty: Vec<CandleData> = candles.iter().take(20).cloned().collect();
    assert_eq!(strategy.calculate_indicators(&twenty).unwrap().entry_high, None);
    let twenty_one: Vec<CandleData> = candles.iter().take(21).cloned().collect();
    assert!(strategy.calculate_indicators(&twenty_one).unwrap().entry_high.is_some());
}

#[test]
fn indicators_of_one_candle_have_no_atr() {
    let strategy = TurtleStrategy::new("SOL-USDT".to_string(), None);
    let one = vec![candle(0, 1.0, 2.0, 0.5, 1.5, 3.0)];
    let summary = strategy.calculate_indicators(&one).unwrap();
    assert!(!summary.atr_ready);
}

#[test]
fn indicators_need_a_candle() {
    let strategy = TurtleStrategy::new("SOL-USDT".to_string(), None);
    assert!(matches!(strategy.calculate_indicators(&[]), Err(TradingError::NoCandles)));
}

#[test]
fn validate_params_reports_each_rule() {
    assert!(TurtleStrategy::validate_params(&TurtleParams::default()).is_ok());
    assert!(matches!(TurtleStrategy::validate_params(&params(0, 10, 20)), Err(TradingError::ZeroEntryPeriod)));
    assert!(matches!(TurtleStrategy::validate_params(&params(20, 0, 20)), Err(TradingError::ZeroExitPeriod)));
    assert!(matches!(TurtleStrategy::validate_params(&params(20, 10, 0)), Err(TradingError::ZeroAtrPeriod)));
    let mut p = params(20, 10, 20);
    p.risk_per_trade = 0.0f64.to_bits();
    assert!(matches!(TurtleStrategy::validate_params(&p), Err(TradingError::RiskOutOfRange)));
    p.risk_per_trade = 1.5f64.to_bits();
    assert!(matches!(TurtleStrategy::validate_params(&p), Err(TradingError::RiskOutOfRange)));
    p.risk_per_trade = (-0.1f64).to_bits();
    assert!(matches!(TurtleStrategy::validate_params(&p), Err(TradingError::RiskOutOfRange)));
    p.risk_per_trade = 1.0f64.to_bits();
    assert!(TurtleStrategy::validate_params(&p).is_ok());
    p.risk_per_trade = f64::NAN.to_bits();
    assert!(TurtleStrategy::validate_params(&p).is_ok());
    p.risk_per_trade = 0.5f64.to_bits();
    p.max_units = 0;
    assert!(matches!(TurtleStrategy::validate_params(&p), Err(TradingError::ZeroMaxUnits)));
}

#[test]
fn update_params_keeps_the_symbol() {
    let mut strategy = TurtleStrategy::new("BTC-USDT".to_string(), None);
    strategy.update_params(params(5, 3, 4));
    assert_eq!(strategy.get_params().entry_period, 5);
    assert_eq!(strategy.symbol(), "BTC-USDT");
}
