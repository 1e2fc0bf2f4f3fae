use colored::{Color, ColoredString, Colorize};
use vstd::prelude::*;

verus! {

/// The smallest number of glyph positions a bar indicator may have.
pub const MIN_BARS: u8 = 3;

/// How many glyph positions represent the full signal range; never below three.
#[derive(Debug, Clone, Copy)]
pub struct NumSignalBars(u8);

impl View for NumSignalBars {
    type V = nat;

    closed spec fn view(&self) -> nat {
        self.0 as nat
    }
}

/// The effective bar count that a requested value yields.
pub open spec fn clamped_bars(value: int) -> nat {
    if value < MIN_BARS as int {
        MIN_BARS as nat
    } else {
        value as nat
    }
}

impl NumSignalBars {
    #[verifier::type_invariant]
    spec fn at_least_min(self) -> bool {
        self.0 >= MIN_BARS
    }

    /// Raises `value` to three when it is smaller; larger values pass unchanged.
    pub fn new(value: u8) -> (r: Self)
        ensures
            r@ == clamped_bars(value as int),
    {
        let clamped_value: u8 = if value < MIN_BARS {
            MIN_BARS
        } else {
            value
        };
        NumSignalBars(clamped_value)
    }

    /// The bar count as a plain integer.
    pub fn get(&self) -> (r: u8)
        ensures
            r as nat == self@,
            r >= MIN_BARS,
    {
        proof {
            use_type_invariant(self);
        }
        self.0
    }
}

/// Reads the bar count as a `u8`.
impl std::ops::Deref for NumSignalBars {
    type Target = u8;

    fn deref(&self) -> (r: &u8)
        ensures
            *r as nat == self@,
            *r >= MIN_BARS,
    {
        proof {
            use_type_invariant(self);
        }
        &self.0
    }
}

/// Glyph of a filled bar position.
pub const FILLED_GLYPH: char = '▃';

/// Glyph of an unfilled bar position.
pub const UNFILLED_GLYPH: char = '▁';

/// `filled` copies of `f` followed by `total - filled` copies of `u` (none when
/// `filled` already reaches `total`).
pub open spec fn bar_text(filled: nat, total: nat, f: char, u: char) -> Seq<char> {
    Seq::new(filled, |i: int| f) + Seq::new(
        if total > filled {
            (total - filled) as nat
        } else {
            0
        },
        |i: int| u,
    )
}

/// Relies on std's `String::push`: appends one character.
#[verifier::external_body]
fn push_char(s: &mut String, c: char)
    ensures
        final(s)@ == old(s)@.push(c),
{
    s.push(c);
}

/// Builds the glyph string of a bar: `filled_bars` filled symbols, then unfilled
/// symbols up to `total_bars` positions.
pub fn generate_bar(
    filled_bars: usize,
    total_bars: usize,
    filled_symbol: char,
    unfilled_symbol: char,
) -> (r: String)
    ensures
        r@ == bar_text(filled_bars as nat, total_bars as nat, filled_symbol, unfilled_symbol),
{
    let mut bars: String = String::new();
    let mut i: usize = 0;
    while i < filled_bars
        invariant
            i <= filled_bars,
            bars@ == Seq::new(i as nat, |k: int| filled_symbol),
        decreases filled_bars - i,
    {
        push_char(&mut bars, filled_symbol);
        i = i + 1;
        assert(bars@ =~= Seq::new(i as nat, |k: int| filled_symbol));
    }
    let mut j: usize = filled_bars;
    while j < total_bars
        invariant
            filled_bars <= j || total_bars <= filled_bars,
            j == filled_bars || (filled_bars < j <= total_bars),
            bars@ == Seq::new(filled_bars as nat, |k: int| filled_symbol) + Seq::new(
                (j - filled_bars) as nat,
                |k: int| unfilled_symbol,
            ),
        decreases total_bars - j,
    {
        push_char(&mut bars, unfilled_symbol);
        j = j + 1;
        assert(bars@ =~= Seq::new(filled_bars as nat, |k: int| filled_symbol) + Seq::new(
            (j - filled_bars) as nat,
            |k: int| unfilled_symbol,
        ));
    }
    assert(bars@ =~= bar_text(
        filled_bars as nat,
        total_bars as nat,
        filled_symbol,
        unfilled_symbol,
    ));
    bars
}


/// Filled positions of a bar of `n` positions calibrated over `[lo, hi]`: all
/// of them for a degenerate range or a reading above it, none below it, and in
/// between `(s - lo) / (hi - lo) * n` rounded to nearest, halves upwards.
pub open spec fn filled_count(s: int, n: int, lo: int, hi: int) -> int {
    if lo == hi {
        n
    } else if s < lo {
        0
    } else if s > hi {
        n
    } else {
        (2 * (s - lo) * n + (hi - lo)) / (2 * (hi - lo))
    }
}

/// The glyphs of the indicator of reading `s` on a bar of `n` positions
/// calibrated over `[lo, hi]`.
pub open spec fn indicator_text(s: int, n: nat, lo: int, hi: int) -> Seq<char> {
    bar_text(filled_count(s, n as int, lo, hi) as nat, n, FILLED_GLYPH, UNFILLED_GLYPH)
}

/// How many of `total_bars` positions a reading of `signal_strength` fills.
pub fn filled_bars(
    signal_strength: i32,
    total_bars: NumSignalBars,
    min_strength: i32,
    max_strength: i32,
) -> (r: usize)
    ensures
        r as int == filled_count(
            signal_strength as int,
            total_bars@ as int,
            min_strength as int,
            max_strength as int,
        ),
        r <= total_bars@,
{
    let n: u8 = total_bars.get();
    if min_strength == max_strength {
        n as usize
    } else if signal_strength < min_strength {
        0
    } else if signal_strength > max_strength {
        n as usize
    } else {
        let adjusted: u64 = (signal_strength as i64 - min_strength as i64) as u64;
        let range: u64 = (max_strength as i64 - min_strength as i64) as u64;
        let n64: u64 = n as u64;
        assert(adjusted <= range && range < 0x1_0000_0000 && n64 < 256);
        assert(2 * adjusted * n64 + range <= 0x1000_0000_0000) by (nonlinear_arith)
            requires
                adjusted <= range,
                range < 0x1_0000_0000,
                n64 < 256,
        ;
        let num: u64 = 2 * adjusted * n64 + range;
        let den: u64 = 2 * range;
        assert(adjusted as int == signal_strength as int - min_strength as int);
        assert(range as int == max_strength as int - min_strength as int);
        assert(num as int == 2 * (signal_strength as int - min_strength as int) * (n as int) + (
        max_strength as int - min_strength as int));
        assert(num / den <= n64) by (nonlinear_arith)
            requires
                adjusted <= range,
                range > 0,
                num == 2 * adjusted * n64 + range,
                den == 2 * range,
        {
            assert(num < den * (n64 + 1));
        }
        (num / den) as usize
    }
}

/// The glyph string of a reading: a filled prefix of the length that
/// `filled_count` gives, then unfilled glyphs up to `total_bars` positions.
pub fn signal_bar(
    signal_strength: i32,
    total_bars: NumSignalBars,
    min_strength: i32,
    max_strength: i32,
) -> (r: String)
    ensures
        r@ == indicator_text(
            signal_strength as int,
            total_bars@,
            min_strength as int,
            max_strength as int,
        ),
{
    let filled = filled_bars(signal_strength, total_bars, min_strength, max_strength);
    generate_bar(filled, total_bars.get() as usize, FILLED_GLYPH, UNFILLED_GLYPH)
}

/// colored's `Color`, an enum whose variants Verus reads.
#[verifier::external_type_specification]
pub struct ExColor(colored::Color);

/// colored's `Style`, held opaque.
#[verifier::external_type_specification]
#[verifier::external_body]
pub struct ExStyle(colored::Style);

/// colored's `ColoredString`, whose fields are all public: its text, its
/// foreground and background colors and its style.
#[verifier::external_type_specification]
pub struct ExColoredString(colored::ColoredString);

/// Relies on colored's `Colorize::color` for `&str` with the name "green": the
/// text is kept as `input`, the foreground is `Color::Green`, and no background
/// is set.
#[verifier::external_body]
fn paint_green(text: &str) -> (r: ColoredString)
    ensures
        r.input@ == text@,
        r.fgcolor == Some(Color::Green),
        r.bgcolor.is_none(),
{
    text.color("green")
}

/// The bar indicator of a reading, painted green for display.
pub fn generate_signal_indicator(
    signal_strength: i32,
    total_bars: NumSignalBars,
    min_strength: i32,
    max_strength: i32,
) -> (r: ColoredString)
    ensures
        r.input@ == indicator_text(
            signal_strength as int,
            total_bars@,
            min_strength as int,
            max_strength as int,
        ),
        r.fgcolor == Some(Color::Green),
        r.bgcolor.is_none(),
{
    let bars = signal_bar(signal_strength, total_bars, min_strength, max_strength);
    paint_green(bars.as_str())
}


/// A filled count never goes below zero nor above the number of positions.
pub proof fn lemma_filled_count_bounds(s: int, n: nat, lo: int, hi: int)
    ensures
        0 <= filled_count(s, n as int, lo, hi) <= n,
{
    if lo != hi && lo <= s <= hi {
        let a = s - lo;
        let d = hi - lo;
        assert(0 <= (2 * a * n + d) / (2 * d) <= n) by (nonlinear_arith)
            requires
                0 <= a <= d,
                d > 0,
                n >= 0,
        {
            assert(2 * a * n + d < 2 * d * (n + 1));
            assert(2 * a * n + d >= 0);
        }
    }
}

/// Whatever the reading and the range, the indicator has exactly as many glyphs
/// as the bar has positions.
pub proof fn lemma_indicator_length(s: int, n: nat, lo: int, hi: int)
    ensures
        indicator_text(s, n, lo, hi).len() == n,
{
    lemma_filled_count_bounds(s, n, lo, hi);
}

/// Over a degenerate range, whose ends coincide, every position is filled,
/// whatever the reading.
pub proof fn lemma_degenerate_range_full(s: int, n: nat, edge: int)
    ensures
        indicator_text(s, n, edge, edge) == Seq::new(n, |i: int| FILLED_GLYPH),
{
    assert(indicator_text(s, n, edge, edge) =~= Seq::new(n, |i: int| FILLED_GLYPH));
}

/// A reading one below a proper range fills no position.
pub proof fn lemma_below_range_empty(n: nat, lo: int, hi: int)
    requires
        lo < hi,
    ensures
        indicator_text(lo - 1, n, lo, hi) == Seq::new(n, |i: int| UNFILLED_GLYPH),
{
    assert(indicator_text(lo - 1, n, lo, hi) =~= Seq::new(n, |i: int| UNFILLED_GLYPH));
}

/// A reading one above a range fills every position.
pub proof fn lemma_above_range_full(n: nat, lo: int, hi: int)
    requires
        lo <= hi,
    ensures
        indicator_text(hi + 1, n, lo, hi) == Seq::new(n, |i: int| FILLED_GLYPH),
{
    assert(indicator_text(hi + 1, n, lo, hi) =~= Seq::new(n, |i: int| FILLED_GLYPH));
}

/// The filled glyphs of an indicator always form a prefix: no unfilled glyph
/// comes before a filled one.
pub proof fn lemma_filled_prefix(s: int, n: nat, lo: int, hi: int, i: int, j: int)
    requires
        0 <= i < j < n,
        indicator_text(s, n, lo, hi)[j] == FILLED_GLYPH,
    ensures
        indicator_text(s, n, lo, hi)[i] == FILLED_GLYPH,
{
    lemma_filled_count_bounds(s, n, lo, hi);
}

} // verus!
