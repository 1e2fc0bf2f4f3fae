use crate::distance::{distance_exponent, path_loss};
use crate::signal::{clamped_bars, generate_signal_indicator, indicator_text, NumSignalBars};
use colored::{Color, ColoredString};
use vstd::prelude::*;

verus! {

/// The reading assumed for a record whose signal level cannot be read.
pub const UNREADABLE_SIGNAL: i32 = -100;

/// A decimal digit.
pub open spec fn is_digit(c: char) -> bool {
    '0' <= c && c <= '9'
}

/// The value of a decimal digit.
pub open spec fn digit_value(c: char) -> int {
    c as int - '0' as int
}

/// The value of a string of decimal digits, most significant first.
pub open spec fn digits_value(d: Seq<char>) -> int
    decreases d.len(),
{
    if d.len() == 0 {
        0
    } else {
        digits_value(d.drop_last()) * 10 + digit_value(d.last())
    }
}

/// The text without its sign, if it starts with `+` or `-`.
pub open spec fn unsigned_part(t: Seq<char>) -> Seq<char> {
    if t.len() > 0 && (t[0] == '-' || t[0] == '+') {
        t.drop_first()
    } else {
        t
    }
}

/// The decimal integer that `t` writes: an optional `+` or `-` sign, then one
/// or more digits and nothing else; `None` for any other text or for a value
/// outside `i32`.
pub open spec fn decimal_i32(t: Seq<char>) -> Option<int> {
    let body = unsigned_part(t);
    if body.len() == 0 || !(forall|i: int| 0 <= i < body.len() ==> is_digit(#[trigger] body[i])) {
        None
    } else {
        let v = if t[0] == '-' {
            -digits_value(body)
        } else {
            digits_value(body)
        };
        if i32::MIN as int <= v && v <= i32::MAX as int {
            Some(v)
        } else {
            None
        }
    }
}

/// The reading that a signal-level text stands for: its value when it is a
/// decimal `i32`, else the weakest reading.
pub open spec fn signal_reading(t: Seq<char>) -> int {
    match decimal_i32(t) {
        Some(v) => v,
        None => UNREADABLE_SIGNAL as int,
    }
}

proof fn lemma_digits_value_nonneg(d: Seq<char>)
    requires
        forall|i: int| 0 <= i < d.len() ==> is_digit(#[trigger] d[i]),
    ensures
        digits_value(d) >= 0,
    decreases d.len(),
{
    if d.len() > 0 {
        lemma_digits_value_nonneg(d.drop_last());
    }
}

/// Reads a signal level in dBm; text that is not a decimal `i32` reads as the
/// weakest reading rather than failing.
pub fn parse_signal_level(text: &str) -> (r: i32)
    ensures
        r as int == signal_reading(text@),
{
    let len = text.unicode_len();
    let mut start: usize = 0;
    let mut negative = false;
    if len > 0 {
        let c = text.get_char(0);
        if c == '-' {
            negative = true;
            start = 1;
        } else if c == '+' {
            start = 1;
        }
    }
    let ghost body = unsigned_part(text@);
    assert(body =~= text@.subrange(start as int, len as int));
    if start == len {
        return UNREADABLE_SIGNAL;
    }
    // `acc` holds the value read so far while it stays within 2^31.
    let mut acc: i64 = 0;
    let mut too_large = false;
    let mut i: usize = start;
    while i < len
        invariant
            start <= i <= len,
            len == text@.len(),
            body == text@.subrange(start as int, len as int),
            body == unsigned_part(text@),
            negative <==> (text@.len() > 0 && text@[0] == '-'),
            forall|k: int| 0 <= k < i - start ==> is_digit(#[trigger] body[k]),
            !too_large ==> acc == digits_value(body.subrange(0, i - start)),
            too_large ==> digits_value(body.subrange(0, i - start)) > 0x8000_0000,
            0 <= acc <= 0x8000_0000,
        decreases len - i,
    {
        let c = text.get_char(i);
        if c < '0' || c > '9' {
            assert(body[i - start] == c);
            assert(!is_digit(body[i - start]));
            return UNREADABLE_SIGNAL;
        }
        let ghost prev = body.subrange(0, i - start);
        let ghost next = body.subrange(0, i + 1 - start);
        assert(next.drop_last() =~= prev);
        assert(next.last() == c);
        proof {
            lemma_digits_value_nonneg(prev);
        }
        let d: i64 = (c as u32 - '0' as u32) as i64;
        if !too_large {
            let v: i64 = acc * 10 + d;
            if v > 0x8000_0000 {
                too_large = true;
            } else {
                acc = v;
            }
        }
        i = i + 1;
    }
    assert(body.subrange(0, len - start) =~= body);
    if too_large {
        UNREADABLE_SIGNAL
    } else if negative {
        (-acc) as i32
    } else if acc > 0x7fff_ffff {
        UNREADABLE_SIGNAL
    } else {
        acc as i32
    }
}


/// Bar positions of the report's indicator.
pub const REPORT_BARS: u8 = 5;

/// Weakest reading of the report's bar scale, in dBm.
pub const MIN_STRENGTH: i32 = -100;

/// Strongest reading of the report's bar scale, in dBm.
pub const MAX_STRENGTH: i32 = -30;

/// One access point as the wireless scan reports it.
pub struct NetworkRecord {
    pub mac: String,
    pub ssid: String,
    pub channel: String,
    pub signal_level: String,
    pub security: String,
}

/// One line of the report. The distance is `10 ^ (distance_exponent / 20)`
/// meters.
pub struct ReportRow {
    pub mac: String,
    pub ssid: String,
    pub channel: String,
    pub signal_level: i32,
    pub indicator: ColoredString,
    pub security: String,
    pub distance_exponent: i64,
}

/// `row` is the report line of `rec` on a bar of `n` positions over `[lo, hi]`:
/// the text fields carried over, the signal level read (the weakest reading when
/// unreadable), its green indicator and its distance exponent.
pub open spec fn is_row_of(row: ReportRow, rec: NetworkRecord, n: nat, lo: int, hi: int) -> bool {
    let s = signal_reading(rec.signal_level@);
    &&& row.mac@ == rec.mac@
    &&& row.ssid@ == rec.ssid@
    &&& row.channel@ == rec.channel@
    &&& row.security@ == rec.security@
    &&& row.signal_level as int == s
    &&& row.indicator.input@ == indicator_text(s, n, lo, hi)
    &&& row.indicator.fgcolor == Some(Color::Green)
    &&& row.indicator.bgcolor.is_none()
    &&& row.distance_exponent as int == path_loss(s)
}

/// The report line of one scanned access point.
pub fn build_row(
    record: &NetworkRecord,
    total_bars: NumSignalBars,
    min_strength: i32,
    max_strength: i32,
) -> (r: ReportRow)
    ensures
        is_row_of(r, *record, total_bars@, min_strength as int, max_strength as int),
{
    let signal_level = parse_signal_level(record.signal_level.as_str());
    let indicator = generate_signal_indicator(
        signal_level,
        total_bars,
        min_strength,
        max_strength,
    );
    ReportRow {
        mac: record.mac.clone(),
        ssid: record.ssid.clone(),
        channel: record.channel.clone(),
        signal_level,
        indicator,
        security: record.security.clone(),
        distance_exponent: distance_exponent(signal_level),
    }
}

/// The report lines of a scan, one per record and in the scan's order, on a
/// bar of five positions over -100 to -30 dBm.
pub fn assemble_report(records: &Vec<NetworkRecord>) -> (r: Vec<ReportRow>)
    ensures
        r.len() == records.len(),
        forall|i: int|
            0 <= i < r.len() ==> is_row_of(
                #[trigger] r[i],
                records[i],
                clamped_bars(REPORT_BARS as int),
                MIN_STRENGTH as int,
                MAX_STRENGTH as int,
            ),
{
    let total_bars = NumSignalBars::new(REPORT_BARS);
    let mut rows: Vec<ReportRow> = Vec::new();
    let mut i: usize = 0;
    while i < records.len()
        invariant
            i <= records.len(),
            rows.len() == i,
            total_bars@ == clamped_bars(REPORT_BARS as int),
            forall|k: int|
                0 <= k < i ==> is_row_of(
                    #[trigger] rows[k],
                    records[k],
                    clamped_bars(REPORT_BARS as int),
                    MIN_STRENGTH as int,
                    MAX_STRENGTH as int,
                ),
        decreases records.len() - i,
    {
        let row = build_row(&records[i], total_bars, MIN_STRENGTH, MAX_STRENGTH);
        rows.push(row);
        i = i + 1;
    }
    rows
}

} // verus!
