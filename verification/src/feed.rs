//! Decisions of market-data collection: ticker timestamps, decoding of the
//! exchange's candle pages, the history backfill, the websocket session,
//! ordering of stored candles, and the console menu.
use vstd::prelude::*;

use crate::text::{all_digits, decimal_value, i64_or_zero, parse_i64_or_zero, text_eq};
use crate::types::TickerData;

verus! {

impl TickerData {
    /// The update's timestamp in milliseconds: its `ts` text parsed as an
    /// `i64`, zero when that text is no integer.
    pub fn ts_millis(&self) -> (r: i64)
        ensures
            r == i64_or_zero(self.ts@),
    {
        parse_i64_or_zero(self.ts.as_str())
    }
}

/// A candle page as the exchange's REST answer gives it: the text of its
/// `code` field when that is a string, and its `data` field when that is an
/// array, with each entry's elements as text where they are strings.
pub struct CandlesResponse {
    pub code: Option<String>,
    pub data: Option<Vec<Option<Vec<Option<String>>>>>,
}

/// A candle row of a page: its timestamp in milliseconds and the texts of
/// its prices and volume.
#[derive(Debug)]
pub struct RawCandle {
    pub timestamp: i64,
    pub open: String,
    pub high: String,
    pub low: String,
    pub close: String,
    pub volume: String,
}

/// A candle row, as a mathematical value.
pub struct RawCandleView {
    pub timestamp: i64,
    pub open: Seq<char>,
    pub high: Seq<char>,
    pub low: Seq<char>,
    pub close: Seq<char>,
    pub volume: Seq<char>,
}

impl View for RawCandle {
    type V = RawCandleView;

    open spec fn view(&self) -> RawCandleView {
        RawCandleView {
            timestamp: self.timestamp,
            open: self.open@,
            high: self.high@,
            low: self.low@,
            close: self.close@,
            volume: self.volume@,
        }
    }
}

/// Why a candle page was refused.
#[derive(Debug, Clone, Copy, PartialEq, Eq, Structural)]
pub enum PageError {
    /// The answer's `code` is not the string `"0"`.
    ApiError,
    /// The answer's `data` is not an array.
    BadFormat,
}

/// The text of a row element, `"0"` where it is no string.
pub open spec fn field_text(f: Option<String>) -> Seq<char> {
    match f {
        Some(s) => s@,
        None => "0"@,
    }
}

/// The candle of a row that holds at least six elements: timestamp, open,
/// high, low, close, volume.
pub open spec fn row_candle(row: Seq<Option<String>>) -> RawCandleView {
    RawCandleView {
        timestamp: i64_or_zero(field_text(row[0])),
        open: field_text(row[1]),
        high: field_text(row[2]),
        low: field_text(row[3]),
        close: field_text(row[4]),
        volume: field_text(row[5]),
    }
}

/// The candles of a page's entries, in order: an entry yields one when it
/// is an array of at least six elements.
pub open spec fn page_candles(entries: Seq<Option<Vec<Option<String>>>>) -> Seq<RawCandleView>
    decreases entries.len(),
{
    if entries.len() == 0 {
        Seq::empty()
    } else {
        let rest = page_candles(entries.drop_last());
        match entries.last() {
            Some(row) => if row@.len() >= 6 {
                rest.push(row_candle(row@))
            } else {
                rest
            },
            None => rest,
        }
    }
}

/// The outcome of decoding a page: refused unless its code is `"0"` and its
/// data an array.
pub open spec fn page_outcome(resp: CandlesResponse) -> Result<Seq<RawCandleView>, PageError> {
    if !(resp.code matches Some(c) && c@ == "0"@) {
        Err(PageError::ApiError)
    } else {
        match resp.data {
            None => Err(PageError::BadFormat),
            Some(entries) => Ok(page_candles(entries@)),
        }
    }
}

/// The text of a row element, `"0"` where it is no string.
fn element_text(f: &Option<String>) -> (r: String)
    ensures
        r@ == field_text(*f),
{
    match f {
        Some(s) => s.clone(),
        None => "0".to_owned(),
    }
}

/// Decodes a candle page of the exchange's REST answer.
pub fn decode_candles_page(resp: &CandlesResponse) -> (r: Result<Vec<RawCandle>, PageError>)
    ensures
        match r {
            Ok(v) => page_outcome(*resp) == Ok::<Seq<RawCandleView>, PageError>(v@.map_values(|c: RawCandle| c@)),
            Err(e) => page_outcome(*resp) == Err::<Seq<RawCandleView>, PageError>(e),
        },
{
    let code_ok = match &resp.code {
        Some(c) => text_eq(c.as_str(), "0"),
        None => false,
    };
    if !code_ok {
        return Err(PageError::ApiError);
    }
    let entries = match &resp.data {
        Some(d) => d,
        None => {
            return Err(PageError::BadFormat);
        },
    };
    let mut candles: Vec<RawCandle> = Vec::new();
    let mut i: usize = 0;
    while i < entries.len()
        invariant
            i <= entries@.len(),
            candles@.map_values(|c: RawCandle| c@) == page_candles(entries@.take(i as int)),
        decreases entries@.len() - i,
    {
        proof {
            assert(entries@.take(i + 1).drop_last() =~= entries@.take(i as int));
            assert(entries@.take(i + 1).last() == entries@[i as int]);
        }
        match &entries[i] {
            Some(row) => {
                if row.len() >= 6 {
                    let timestamp = parse_i64_or_zero(element_text(&row[0]).as_str());
                    let candle = RawCandle {
                        timestamp,
                        open: element_text(&row[1]),
                        high: element_text(&row[2]),
                        low: element_text(&row[3]),
                        close: element_text(&row[4]),
                        volume: element_text(&row[5]),
                    };
                    let ghost before = candles@;
                    candles.push(candle);
                    assert(candles@.map_values(|c: RawCandle| c@) =~= before.map_values(|c: RawCandle| c@).push(
                        row_candle(row@),
                    ));
                }
            },
            None => {},
        }
        i = i + 1;
    }
    assert(entries@.take(entries@.len() as int) =~= entries@);
    Ok(candles)
}

/// Candles a history backfill aims to collect.
pub const TARGET_BACKFILL_COUNT: usize = 5000;

/// Candles asked for per page.
pub const PAGE_LIMIT: usize = 300;

/// What the backfill does after a page.
#[derive(Debug, Clone, Copy, PartialEq, Eq, Structural)]
pub enum BackfillStep {
    /// The page was empty: the history is exhausted; nothing to store.
    Exhausted,
    /// Store the page and ask for the next, older one.
    Continue,
    /// Store the page; the target is reached.
    TargetReached,
}

/// `t` is the text that a row element stands for: its string, or `0` when
/// it is no string.
pub open spec fn element_holds(e: Option<String>, t: Seq<char>) -> bool {
    match e {
        Some(s) => t == s@,
        None => t == seq!['0'],
    }
}

/// The candle is taken position by position from a row of at least six
/// elements: the timestamp parsed from element 0 (zero when it is no
/// integer or no string), then open, high, low, close and volume from
/// elements 1 to 5.
pub open spec fn taken_from_row(v: RawCandleView, row: Seq<Option<String>>) -> bool {
    &&& row.len() >= 6
    &&& match row[0] {
        Some(s) => v.timestamp == i64_or_zero(s@),
        None => v.timestamp == 0,
    }
    &&& element_holds(row[1], v.open)
    &&& element_holds(row[2], v.high)
    &&& element_holds(row[3], v.low)
    &&& element_holds(row[4], v.close)
    &&& element_holds(row[5], v.volume)
}

/// An entry is an array of at least six elements.
pub open spec fn full_row(e: Option<Vec<Option<String>>>) -> bool {
    e matches Some(row) && row@.len() >= 6
}

/// The decoded candle of a full row is taken from it position by position.
proof fn lemma_row_candle(row: Seq<Option<String>>)
    requires
        row.len() >= 6,
    ensures
        taken_from_row(row_candle(row), row),
{
    reveal_strlit("0");
    let z = seq!['0'];
    assert("0"@ == z);
    assert(z.drop_last() =~= Seq::<char>::empty());
    assert(decimal_value(Seq::<char>::empty()) == 0);
    assert(z.last() == '0');
    assert(('0' as u32) == 48);
    assert(decimal_value(z) == 0);
    assert(all_digits(z));
    assert(i64_or_zero(z) == 0);
}

/// Every decoded candle comes from a full entry, position by position; when
/// every entry is full, the candles are those of the entries, in order.
proof fn lemma_page_candles(entries: Seq<Option<Vec<Option<String>>>>)
    ensures
        forall|k: int|
            #![trigger page_candles(entries)[k]]
            0 <= k < page_candles(entries).len() ==> exists|i: int|
                0 <= i < entries.len() && full_row(#[trigger] entries[i]) && taken_from_row(
                    page_candles(entries)[k],
                    entries[i]->Some_0@,
                ),
        (forall|i: int| 0 <= i < entries.len() ==> full_row(#[trigger] entries[i])) ==> page_candles(entries).len()
            == entries.len() && forall|k: int|
            0 <= k < entries.len() ==> taken_from_row(#[trigger] page_candles(entries)[k], entries[k]->Some_0@),
    decreases entries.len(),
{
    if entries.len() > 0 {
        let t = entries.drop_last();
        lemma_page_candles(t);
        let rest = page_candles(t);
        let v = page_candles(entries);
        if full_row(entries.last()) {
            lemma_row_candle(entries.last()->Some_0@);
        }
        assert forall|k: int| #![trigger v[k]] 0 <= k < v.len() implies exists|i: int|
            0 <= i < entries.len() && full_row(#[trigger] entries[i]) && taken_from_row(v[k], entries[i]->Some_0@) by {
            if k < rest.len() {
                let i = choose|i: int| 0 <= i < t.len() && full_row(#[trigger] t[i]) && taken_from_row(rest[k], t[i]->Some_0@);
                assert(entries[i] == t[i]);
            } else {
                assert(entries[entries.len() - 1] == entries.last());
            }
        }
        if forall|i: int| 0 <= i < entries.len() ==> full_row(#[trigger] entries[i]) {
            assert forall|i: int| 0 <= i < t.len() implies full_row(#[trigger] t[i]) by {
                assert(t[i] == entries[i]);
            }
            assert(full_row(entries[entries.len() - 1]));
            assert forall|k: int| 0 <= k < entries.len() implies taken_from_row(#[trigger] v[k], entries[k]->Some_0@) by {
                if k < t.len() {
                    assert(t[k] == entries[k]);
                }
            }
        }
    }
}

/// A candle page is refused as an API error exactly when its code is not
/// the string `0`; with that code, it is refused as malformed exactly when
/// it has no data array. Each decoded candle comes, position by position,
/// from an entry of at least six elements, and when every entry has six
/// elements or more, there is one candle per entry, in order.
pub proof fn law_candle_page(resp: CandlesResponse)
    ensures
        (page_outcome(resp) == Err::<Seq<RawCandleView>, PageError>(PageError::ApiError)) <==> !(resp.code matches Some(
            c,
        ) && c@ == seq!['0']),
        (resp.code matches Some(c) && c@ == seq!['0']) ==> ((page_outcome(resp) == Err::<
            Seq<RawCandleView>,
            PageError,
        >(PageError::BadFormat)) <==> resp.data is None),
        page_outcome(resp) matches Ok(v) ==> (resp.data matches Some(entries) && forall|k: int|
            #![trigger v[k]]
            0 <= k < v.len() ==> exists|i: int|
                0 <= i < entries@.len() && full_row(#[trigger] entries@[i]) && taken_from_row(
                    v[k],
                    entries@[i]->Some_0@,
                )),
        page_outcome(resp) matches Ok(v) ==> (resp.data matches Some(entries) && ((forall|i: int|
            0 <= i < entries@.len() ==> full_row(#[trigger] entries@[i])) ==> v.len() == entries@.len() && forall|k: int|
            0 <= k < v.len() ==> taken_from_row(#[trigger] v[k], entries@[k]->Some_0@))),
{
    reveal_strlit("0");
    assert("0"@ == seq!['0']);
    if let Some(entries) = resp.data {
        lemma_page_candles(entries@);
    }
}

/// The smallest timestamp of a non-empty page.
pub open spec fn min_timestamp(s: Seq<i64>) -> i64
    decreases s.len(),
{
    if s.len() <= 1 {
        s[0]
    } else {
        let m = min_timestamp(s.drop_last());
        if s.last() < m {
            s.last()
        } else {
            m
        }
    }
}

/// The smallest timestamp of a non-empty page is one of its timestamps and
/// is no larger than any of them.
pub proof fn law_min_timestamp(s: Seq<i64>)
    requires
        s.len() >= 1,
    ensures
        exists|i: int| 0 <= i < s.len() && s[i] == min_timestamp(s),
        forall|i: int| 0 <= i < s.len() ==> min_timestamp(s) <= #[trigger] s[i],
    decreases s.len(),
{
    if s.len() > 1 {
        let t = s.drop_last();
        law_min_timestamp(t);
        assert forall|i: int| 0 <= i < s.len() implies min_timestamp(s) <= #[trigger] s[i] by {
            if i < s.len() - 1 {
                assert(s[i] == t[i]);
            }
        }
        if min_timestamp(s) == s.last() {
            assert(s[s.len() - 1] == min_timestamp(s));
        } else {
            let i = choose|i: int| 0 <= i < t.len() && t[i] == min_timestamp(t);
            assert(s[i] == t[i]);
        }
    } else {
        assert(s[0] == min_timestamp(s));
    }
}

/// Progress of a history backfill that walks back page by page.
#[derive(Debug, Clone, Copy)]
pub struct Backfill {
    /// Candles collected so far.
    pub total_collected: usize,
    /// The cursor: only candles older than this timestamp are asked for
    /// next; `None` asks for the newest.
    pub before: Option<i64>,
}

impl Backfill {
    /// A backfill that has collected nothing and starts at the newest page.
    pub fn new() -> (r: Self)
        ensures
            r.total_collected == 0,
            r.before is None,
    {
        Backfill { total_collected: 0, before: None }
    }

    /// Records a fetched page, given its candles' timestamps: an empty page
    /// ends the backfill; otherwise its candles are counted, the cursor
    /// moves to its oldest candle, and the backfill ends once the target is
    /// reached.
    pub fn on_page(&mut self, page_timestamps: &Vec<i64>) -> (r: BackfillStep)
        requires
            old(self).total_collected + page_timestamps@.len() <= usize::MAX,
        ensures
            page_timestamps@.len() == 0 ==> r == BackfillStep::Exhausted && *final(self) == *old(self),
            page_timestamps@.len() > 0 ==> {
                &&& final(self).total_collected == old(self).total_collected + page_timestamps@.len()
                &&& final(self).before == Some(min_timestamp(page_timestamps@))
                &&& r == if final(self).total_collected >= TARGET_BACKFILL_COUNT {
                    BackfillStep::TargetReached
                } else {
                    BackfillStep::Continue
                }
            },
    {
        let n = page_timestamps.len();
        if n == 0 {
            return BackfillStep::Exhausted;
        }
        let mut oldest = page_timestamps[0];
        let mut i: usize = 1;
        while i < n
            invariant
                1 <= i <= n == page_timestamps@.len(),
                oldest == min_timestamp(page_timestamps@.take(i as int)),
            decreases n - i,
        {
            proof {
                assert(page_timestamps@.take(i + 1).drop_last() =~= page_timestamps@.take(i as int));
            }
            if page_timestamps[i] < oldest {
                oldest = page_timestamps[i];
            }
            i = i + 1;
        }
        proof {
            assert(page_timestamps@.take(1) =~= seq![page_timestamps@[0]]);
            assert(page_timestamps@.take(n as int) =~= page_timestamps@);
        }
        self.total_collected = self.total_collected + n;
        self.before = Some(oldest);
        if self.total_collected >= TARGET_BACKFILL_COUNT {
            BackfillStep::TargetReached
        } else {
            BackfillStep::Continue
        }
    }
}

/// An event of the websocket session.
#[derive(Debug)]
pub enum WsEvent {
    /// A text frame.
    Text(String),
    /// A ping with its payload.
    Ping(Vec<u8>),
    /// The server closed the connection.
    Close,
    /// Reading from the connection failed.
    Failed,
    /// Any other frame.
    Other,
}

/// What the session does on an event.
#[derive(Debug)]
pub enum WsAction {
    /// Hand the text to the message processing.
    Process(String),
    /// Answer with a pong that carries the payload.
    Pong(Vec<u8>),
    /// End the session.
    Stop,
    /// Go on reading.
    Ignore,
}

/// The session's rule: text is processed, a ping answered with its payload,
/// a close or a failure ends the session, anything else is skipped.
pub open spec fn ws_rule(event: WsEvent) -> WsAction {
    match event {
        WsEvent::Text(t) => WsAction::Process(t),
        WsEvent::Ping(p) => WsAction::Pong(p),
        WsEvent::Close => WsAction::Stop,
        WsEvent::Failed => WsAction::Stop,
        WsEvent::Other => WsAction::Ignore,
    }
}

/// Decides what the websocket session does on an event.
pub fn ws_action(event: WsEvent) -> (r: WsAction)
    ensures
        r == ws_rule(event),
{
    match event {
        WsEvent::Text(t) => WsAction::Process(t),
        WsEvent::Ping(p) => WsAction::Pong(p),
        WsEvent::Close => WsAction::Stop,
        WsEvent::Failed => WsAction::Stop,
        WsEvent::Other => WsAction::Ignore,
    }
}

/// Puts rows read newest first into oldest-first order.
pub fn oldest_first<T>(rows: Vec<T>) -> (r: Vec<T>)
    ensures
        r@ == rows@.reverse(),
{
    let mut rows = rows;
    let ghost given = rows@;
    let mut out: Vec<T> = Vec::new();
    while rows.len() > 0
        invariant
            rows@ == given.take(rows@.len() as int),
            rows@.len() <= given.len(),
            out@ == given.skip(rows@.len() as int).reverse(),
        decreases rows@.len(),
    {
        let ghost before = rows@;
        let x = rows.pop().unwrap();
        proof {
            assert(rows@ =~= given.take(rows@.len() as int));
            assert(given.skip(rows@.len() as int) =~= seq![x] + given.skip(before.len() as int));
        }
        out.push(x);
        proof {
            assert(out@ =~= given.skip(rows@.len() as int).reverse());
        }
    }
    assert(given.skip(0) =~= given);
    out
}

/// An entry of the console menu.
#[derive(Debug, Clone, Copy, PartialEq, Eq, Structural)]
pub enum MenuChoice {
    CollectData,
    Backtest,
    LiveTrading,
    TradeHistory,
    Exit,
    Invalid,
}

/// The menu entry that a (trimmed) input line selects.
pub open spec fn menu_rule(input: Seq<char>) -> MenuChoice {
    if input == "1"@ {
        MenuChoice::CollectData
    } else if input == "2"@ {
        MenuChoice::Backtest
    } else if input == "3"@ {
        MenuChoice::LiveTrading
    } else if input == "4"@ {
        MenuChoice::TradeHistory
    } else if input == "5"@ {
        MenuChoice::Exit
    } else {
        MenuChoice::Invalid
    }
}

/// Selects the menu entry of a trimmed input line.
pub fn menu_choice(input: &str) -> (r: MenuChoice)
    ensures
        r == menu_rule(input@),
{
    if text_eq(input, "1") {
        MenuChoice::CollectData
    } else if text_eq(input, "2") {
        MenuChoice::Backtest
    } else if text_eq(input, "3") {
        MenuChoice::LiveTrading
    } else if text_eq(input, "4") {
        MenuChoice::TradeHistory
    } else if text_eq(input, "5") {
        MenuChoice::Exit
    } else {
        MenuChoice::Invalid
    }
}

} // verus!
