//! Text helpers: equality of string slices and decimal `i64` parsing as
//! `str::parse::<i64>` performs it.
use vstd::prelude::*;

verus! {

/// The text of `a` equals that of `b`.
pub fn text_eq(a: &str, b: &str) -> (r: bool)
    ensures
        r == (a@ == b@),
{
    let n = a.unicode_len();
    if n != b.unicode_len() {
        return false;
    }
    let mut i: usize = 0;
    while i < n
        invariant
            n == a@.len() == b@.len(),
            i <= n,
            forall|k: int| 0 <= k < i ==> a@[k] == b@[k],
        decreases n - i,
    {
        if a.get_char(i) != b.get_char(i) {
            return false;
        }
        i = i + 1;
    }
    assert(a@ =~= b@);
    true
}

/// An ASCII decimal digit.
pub open spec fn is_digit(c: char) -> bool {
    48 <= c as u32 <= 57
}

/// Every character is an ASCII decimal digit.
pub open spec fn all_digits(s: Seq<char>) -> bool {
    forall|i: int| 0 <= i < s.len() ==> is_digit(#[trigger] s[i])
}

/// The number that a run of decimal digits writes.
pub open spec fn decimal_value(s: Seq<char>) -> int
    decreases s.len(),
{
    if s.len() == 0 {
        0
    } else {
        decimal_value(s.drop_last()) * 10 + (s.last() as u32 - 48)
    }
}

/// What `str::parse::<i64>` gives: an optional `+` or `-` followed by at
/// least one decimal digit and nothing else, whose value fits in an `i64`.
pub open spec fn parsed_i64(s: Seq<char>) -> Option<i64> {
    if s.len() == 0 {
        None
    } else if s[0] == '-' || s[0] == '+' {
        let d = s.drop_first();
        let v = if s[0] == '-' {
            -decimal_value(d)
        } else {
            decimal_value(d)
        };
        if d.len() == 0 || !all_digits(d) || v < i64::MIN || v > i64::MAX {
            None
        } else {
            Some(v as i64)
        }
    } else if all_digits(s) && decimal_value(s) <= i64::MAX {
        Some(decimal_value(s) as i64)
    } else {
        None
    }
}

/// The parsed value, or zero when the text is no `i64`.
pub open spec fn i64_or_zero(s: Seq<char>) -> i64 {
    match parsed_i64(s) {
        Some(v) => v,
        None => 0,
    }
}

/// A digit run is worth no less than any of its prefixes.
proof fn lemma_decimal_prefix(s: Seq<char>, k: int)
    requires
        all_digits(s),
        0 <= k <= s.len(),
    ensures
        decimal_value(s.take(k)) <= decimal_value(s),
        0 <= decimal_value(s.take(k)),
    decreases s.len(),
{
    if k < s.len() {
        let t = s.drop_last();
        assert(all_digits(t)) by {
            assert forall|i: int| 0 <= i < t.len() implies is_digit(#[trigger] t[i]) by {
                assert(t[i] == s[i]);
            }
        }
        lemma_decimal_prefix(t, k);
        assert(t.take(k) =~= s.take(k));
        lemma_decimal_prefix(t, t.len() as int);
        assert(t.take(t.len() as int) =~= t);
        assert(is_digit(s[s.len() - 1]));
    } else {
        assert(s.take(k) =~= s);
        lemma_decimal_nonneg(s);
    }
}

/// A digit run is worth at least zero.
proof fn lemma_decimal_nonneg(s: Seq<char>)
    requires
        all_digits(s),
    ensures
        0 <= decimal_value(s),
    decreases s.len(),
{
    if s.len() > 0 {
        let t = s.drop_last();
        assert forall|i: int| 0 <= i < t.len() implies is_digit(#[trigger] t[i]) by {
            assert(t[i] == s[i]);
        }
        lemma_decimal_nonneg(t);
        assert(is_digit(s[s.len() - 1]));
    }
}

/// Decimal parsing, digit by digit: no text parses when it is empty or
/// holds a character that is neither a digit nor a leading sign; a single
/// digit parses to its value; appending a digit to a digit run multiplies
/// its value by ten and adds the digit, as long as the result fits; and a
/// leading `-` negates a digit run while a leading `+` keeps it.
pub proof fn law_parse_i64(s: Seq<char>, d: char)
    ensures
        s.len() == 0 ==> parsed_i64(s) is None,
        (exists|i: int|
            0 <= i < s.len() && !is_digit(#[trigger] s[i]) && !(i == 0 && (s[0] == '-' || s[0] == '+')))
            ==> parsed_i64(s) is None,
        is_digit(d) ==> parsed_i64(seq![d]) == Some((d as u32 - 48) as i64),
        is_digit(d) && s.len() >= 1 && all_digits(s) ==> (parsed_i64(s) matches Some(v) ==> (10 * v + (d as u32
            - 48) <= i64::MAX ==> parsed_i64(s.push(d)) == Some((10 * v + (d as u32 - 48)) as i64))),
        s.len() >= 1 && all_digits(s) ==> (parsed_i64(s) matches Some(v) ==> parsed_i64(seq!['-'] + s) == Some(
            (-v) as i64,
        ) && parsed_i64(seq!['+'] + s) == Some(v)),
{
    if exists|i: int| 0 <= i < s.len() && !is_digit(#[trigger] s[i]) && !(i == 0 && (s[0] == '-' || s[0] == '+')) {
        let i = choose|i: int| 0 <= i < s.len() && !is_digit(#[trigger] s[i]) && !(i == 0 && (s[0] == '-' || s[0] == '+'));
        if s[0] == '-' || s[0] == '+' {
            assert(s.drop_first()[i - 1] == s[i]);
        }
    }
    if is_digit(d) {
        let one = seq![d];
        assert(one.drop_last() =~= Seq::<char>::empty());
        assert(decimal_value(Seq::<char>::empty()) == 0);
        assert(all_digits(one));
        assert(one[0] == d);
    }
    if is_digit(d) && s.len() >= 1 && all_digits(s) {
        let t = s.push(d);
        assert(t.drop_last() =~= s);
        assert(all_digits(t)) by {
            assert forall|k: int| 0 <= k < t.len() implies is_digit(#[trigger] t[k]) by {
                if k < s.len() {
                    assert(t[k] == s[k]);
                }
            }
        }
        assert(t[0] == s[0]);
        assert(is_digit(s[0]));
        lemma_decimal_nonneg(s);
    }
    if s.len() >= 1 && all_digits(s) {
        assert((seq!['-'] + s).drop_first() =~= s);
        assert((seq!['+'] + s).drop_first() =~= s);
        assert((seq!['-'] + s)[0] == '-');
        assert((seq!['+'] + s)[0] == '+');
        assert(is_digit(s[0]));
        lemma_decimal_nonneg(s);
    }
}

/// Parses decimal text into an `i64` as `str::parse::<i64>` does.
pub fn parse_i64(s: &str) -> (r: Option<i64>)
    ensures
        r == parsed_i64(s@),
{
    let n = s.unicode_len();
    if n == 0 {
        return None;
    }
    let first = s.get_char(0);
    let negative = first == '-';
    let start: usize = if first == '-' || first == '+' {
        1
    } else {
        0
    };
    if start == n {
        return None;
    }
    let ghost d = s@.subrange(start as int, n as int);
    assert(start == 1 ==> d =~= s@.drop_first());
    assert(start == 0 ==> d =~= s@);
    let limit: u128 = if negative {
        0x8000_0000_0000_0000
    } else {
        0x7fff_ffff_ffff_ffff
    };
    let mut acc: u128 = 0;
    let mut i: usize = start;
    while i < n
        invariant
            n == s@.len(),
            n > 0,
            first == s@[0],
            negative == (first == '-'),
            start == (if first == '-' || first == '+' { 1usize } else { 0usize }),
            start < n,
            start <= i <= n,
            d == s@.subrange(start as int, n as int),
            all_digits(d.take(i - start)),
            acc == decimal_value(d.take(i - start)),
            acc <= limit,
            limit == if negative { 0x8000_0000_0000_0000u128 } else { 0x7fff_ffff_ffff_ffffu128 },
        decreases n - i,
    {
        let c = s.get_char(i);
        if !('0' <= c && c <= '9') {
            assert(d[i - start] == c);
            assert(!all_digits(d));
            return None;
        }
        let digit: u128 = (c as u32 - 48) as u128;
        proof {
            assert(d.take(i - start + 1).drop_last() =~= d.take(i - start));
            assert(d.take(i - start + 1).last() == c);
            assert(all_digits(d.take(i - start + 1))) by {
                assert forall|k: int| 0 <= k < i - start + 1 implies is_digit(#[trigger] d.take(i - start + 1)[k]) by {
                    if k < i - start {
                        assert(d.take(i - start + 1)[k] == d.take(i - start)[k]);
                    }
                }
            }
        }
        acc = acc * 10 + digit;
        if acc > limit {
            proof {
                assert(acc == decimal_value(d.take(i - start + 1)));
                if all_digits(d) {
                    lemma_decimal_prefix(d, i - start + 1);
                    assert(decimal_value(d) > limit);
                }
                if start == 1 {
                    assert(d =~= s@.drop_first());
                } else {
                    assert(d =~= s@);
                }
            }
            return None;
        }
        i = i + 1;
    }
    assert(d.take(n - start) =~= d);
    if negative {
        Some((0 - (acc as i128)) as i64)
    } else {
        Some(acc as i64)
    }
}

/// Parses decimal text into an `i64`, zero when it is none.
pub fn parse_i64_or_zero(s: &str) -> (r: i64)
    ensures
        r == i64_or_zero(s@),
{
    match parse_i64(s) {
        Some(v) => v,
        None => 0,
    }
}

} // verus!
