use quant_trader::feed::{
    decode_candles_page, menu_choice, oldest_first, ws_action, Backfill, BackfillStep, CandlesResponse,
    MenuChoice, PageError, WsAction, WsEvent, PAGE_LIMIT, TARGET_BACKFILL_COUNT,
};
use quant_trader::ieee;
use quant_trader::text::{parse_i64, parse_i64_or_zero, text_eq};
use quant_trader::types::TickerData;

fn ticker(ts: &str) -> TickerData {
    TickerData {
        inst_id: "SOL-USDT".to_string(),
        last: "150.1".to_string(),
        last_sz: "1".to_string(),
        ask_px: "150.2".to_string(),
        ask_sz: "3".to_string(),
        bid_px: "150.0".to_string(),
        bid_sz: "2".to_string(),
        open24h: "140".to_string(),
        high24h: "155".to_string(),
        low24h: "139".to_string(),
        vol_ccy24h: "1000000".to_string(),
        vol24h: "7000".to_string(),
        ts: ts.to_string(),
    }
}

#[test]
fn parse_i64_matches_std() {
    for s in ["0", "17", "-17", "+17", "", "+", "-", "12a", " 1", "1 ", "9223372036854775807",
        "9223372036854775808", "-9223372036854775808", "-9223372036854775809", "007", "+-1",
        "99999999999999999999999"] {
        assert_eq!(parse_i64(s), s.parse::<i64>().ok(), "input {:?}", s);
    }
    assert_eq!(parse_i64_or_zero("1700000000000"), 1_700_000_000_000);
    assert_eq!(parse_i64_or_zero("abc"), 0);
}

#[test]
fn ticker_timestamp_is_parsed() {
    assert_eq!(ticker("1700000000123").ts_millis(), 1_700_000_000_123);
    assert_eq!(ticker("not a time").ts_millis(), 0);
}

#[test]
fn text_eq_compares_text() {
    assert!(text_eq("abc", "abc"));
    assert!(!text_eq("abc", "abd"));
    assert!(!text_eq("abc", "ab"));
}

fn row(fields: &[Option<&str>]) -> Option<Vec<Option<String>>> {
    Some(fields.iter().map(|f| f.map(|s| s.to_string())).collect())
}

#[test]
fn candle_page_is_decoded() {
    let resp = CandlesResponse {
        code: Some("0".to_string()),
        data: Some(vec![
            row(&[Some("1700000060000"), Some("1"), Some("2"), Some("0.5"), Some("1.5"), Some("10"), Some("x")]),
            row(&[Some("1"), Some("2")]),
            None,
            row(&[None, Some("1"), None, Some("0.5"), Some("1.5"), Some("10")]),
        ]),
    };
    let candles = decode_candles_page(&resp).unwrap();
    assert_eq!(candles.len(), 2);
    assert_eq!(candles[0].timestamp, 1_700_000_060_000);
    assert_eq!(candles[0].high, "2");
    assert_eq!(candles[0].volume, "10");
    assert_eq!(candles[1].timestamp, 0);
    assert_eq!(candles[1].high, "0");
}

#[test]
fn candle_page_errors() {
    let bad_code = CandlesResponse { code: Some("51000".to_string()), data: Some(vec![]) };
    assert!(matches!(decode_candles_page(&bad_code), Err(PageError::ApiError)));
    let no_code = CandlesResponse { code: None, data: Some(vec![]) };
    assert!(matches!(decode_candles_page(&no_code), Err(PageError::ApiError)));
    let no_data = CandlesResponse { code: Some("0".to_string()), data: None };
    assert!(matches!(decode_candles_page(&no_data), Err(PageError::BadFormat)));
}

#[test]
fn backfill_walks_back_and_stops() {
    assert_eq!(TARGET_BACKFILL_COUNT, 5000);
    assert_eq!(PAGE_LIMIT, 300);
    let mut b = Backfill::new();
    assert_eq!(b.before, None);
    let page: Vec<i64> = vec![300, 100, 200];
    assert_eq!(b.on_page(&page), BackfillStep::Continue);
    assert_eq!(b.total_collected, 3);
    assert_eq!(b.before, Some(100));
    let big: Vec<i64> = (0..4997).map(|i| 50 - i).collect();
    assert_eq!(b.on_page(&big), BackfillStep::TargetReached);
    assert_eq!(b.total_collected, 5000);
    assert_eq!(b.before, Some(50 - 4996));
    let before = b;
    assert_eq!(b.on_page(&vec![]), BackfillStep::Exhausted);
    assert_eq!(b.total_collected, before.total_collected);
    assert_eq!(b.before, before.before);
}

#[test]
fn websocket_actions() {
    assert!(matches!(ws_action(WsEvent::Text("hi".to_string())), WsAction::Process(t) if t == "hi"));
    assert!(matches!(ws_action(WsEvent::Ping(vec![1, 2])), WsAction::Pong(p) if p == vec![1, 2]));
    assert!(matches!(ws_action(WsEvent::Close), WsAction::Stop));
    assert!(matches!(ws_action(WsEvent::Failed), WsAction::Stop));
    assert!(matches!(ws_action(WsEvent::Other), WsAction::Ignore));
}

#[test]
fn rows_come_out_oldest_first() {
    assert_eq!(oldest_first(vec![3, 2, 1]), vec![1, 2, 3]);
    assert_eq!(oldest_first(Vec::<i32>::new()), Vec::<i32>::new());
}

#[test]
fn menu_entries() {
    assert_eq!(menu_choice("1"), MenuChoice::CollectData);
    assert_eq!(menu_choice("2"), MenuChoice::Backtest);
    assert_eq!(menu_choice("3"), MenuChoice::LiveTrading);
    assert_eq!(menu_choice("4"), MenuChoice::TradeHistory);
    assert_eq!(menu_choice("5"), MenuChoice::Exit);
    assert_eq!(menu_choice("6"), MenuChoice::Invalid);
    assert_eq!(menu_choice(""), MenuChoice::Invalid);
}

#[test]
fn ieee_order_matches_f64() {
    let values = [f64::NEG_INFINITY, -3.5, -0.0, 0.0, 1e-300, 2.0, 7.25, f64::INFINITY, f64::NAN];
    for &a in values.iter() {
        for &b in values.iter() {
            assert_eq!(ieee::lt(a.to_bits(), b.to_bits()), a < b, "{} < {}", a, b);
            assert_eq!(ieee::le(a.to_bits(), b.to_bits()), a <= b, "{} <= {}", a, b);
            assert_eq!(ieee::gt(a.to_bits(), b.to_bits()), a > b, "{} > {}", a, b);
            assert_eq!(ieee::ge(a.to_bits(), b.to_bits()), a >= b, "{} >= {}", a, b);
            let m = f64::from_bits(ieee::max(a.to_bits(), b.to_bits()));
            let n = f64::from_bits(ieee::min(a.to_bits(), b.to_bits()));
            assert!(m == a.max(b) || (m.is_nan() && a.max(b).is_nan()));
            assert!(n == a.min(b) || (n.is_nan() && a.min(b).is_nan()));
        }
        assert_eq!(ieee::nan(a.to_bits()), a.is_nan());
    }
}
