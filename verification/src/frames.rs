//! The wire grammar of the feed.
//!
//! Outbound control frames (`subscribe` / `unsubscribe`) are built here,
//! and inbound trade frames are parsed here.  A trade frame is an object
//! `{"type":"trade","data":[{"p":<number>,"t":<epoch-ms>,"v":<volume>,
//! ...}, ...]}`: field order is free, unknown fields are skipped, and a
//! single frame may batch several trades.  The grammar the parser
//! recognizes is written out below as spec functions; a frame outside it
//! is not an error — the session ignores it, as it ignores every frame
//! that is not a trade batch.
//!
//! Prices travel as decimal numbers and are held as fixed-point integers
//! in units of `1 / PRICE_SCALE`; fractional digits beyond the fourth are
//! truncated.  Skipped fields may hold strings, numbers, literals, or
//! one-level arrays and objects of those; deeper nesting, and exponent
//! notation in a price, are outside the recognized grammar.

use vstd::prelude::*;

verus! {

use vstd::string::StringSliceAdditionalSpecFns;

/// Price unit: prices are carried as multiples of `1 / PRICE_SCALE`.
pub const PRICE_SCALE: u64 = 10000;

/// One trade tick parsed off the wire.
#[derive(Debug, Clone, Copy, PartialEq, Eq, Structural)]
pub struct PriceEvent {
    /// Price in units of `1 / PRICE_SCALE`.
    pub price_scaled: u64,
    /// Exchange timestamp, whole seconds since the Unix epoch (the wire
    /// carries milliseconds; they are divided down).
    pub epoch_secs: u64,
    /// Trade volume, when the wire carries a whole number for it.
    pub volume: Option<u64>,
}

/// JSON insignificant whitespace.
pub open spec fn is_ws(b: u8) -> bool {
    b == 32 || b == 9 || b == 10 || b == 13
}

/// ASCII decimal digit.
pub open spec fn is_digit(b: u8) -> bool {
    48 <= b && b <= 57
}

/// First position at or after `i` holding no whitespace.
pub open spec fn spec_skip_ws(s: Seq<u8>, i: int) -> int
    decreases s.len() - i,
{
    if 0 <= i < s.len() && is_ws(s[i]) {
        spec_skip_ws(s, i + 1)
    } else {
        i
    }
}

pub proof fn lemma_skip_ws_bounds(s: Seq<u8>, i: int)
    requires
        0 <= i <= s.len(),
    ensures
        i <= spec_skip_ws(s, i) <= s.len(),
    decreases s.len() - i,
{
    if 0 <= i < s.len() && is_ws(s[i]) {
        lemma_skip_ws_bounds(s, i + 1);
    }
}

/// The body of a string, read from just past the opening quote with the
/// bytes seen so far in `acc`: ends at an unescaped closing quote; a
/// backslash keeps itself and the byte after it, uninterpreted.
pub open spec fn spec_scan_string(s: Seq<u8>, i: int, acc: Seq<u8>) -> Option<(Seq<u8>, int)>
    decreases s.len() - i,
{
    if !(0 <= i < s.len()) {
        None
    } else if s[i] == 34 {
        Some((acc, i + 1))
    } else if s[i] == 92 {
        if i + 1 < s.len() {
            spec_scan_string(s, i + 2, acc.push(s[i]).push(s[i + 1]))
        } else {
            None
        }
    } else {
        spec_scan_string(s, i + 1, acc.push(s[i]))
    }
}

/// A whole string, quote to quote; yields its raw body.
pub open spec fn spec_parse_string(s: Seq<u8>, i: int) -> Option<(Seq<u8>, int)> {
    if 0 <= i < s.len() && s[i] == 34 {
        spec_scan_string(s, i + 1, Seq::empty())
    } else {
        None
    }
}

pub proof fn lemma_scan_string_bounds(s: Seq<u8>, i: int, acc: Seq<u8>)
    requires
        0 <= i <= s.len(),
    ensures
        spec_scan_string(s, i, acc) matches Some((c, j)) ==> i < j <= s.len(),
    decreases s.len() - i,
{
    if 0 <= i < s.len() && s[i] != 34 {
        if s[i] == 92 {
            if i + 1 < s.len() {
                lemma_scan_string_bounds(s, i + 2, acc.push(s[i]).push(s[i + 1]));
            }
        } else {
            lemma_scan_string_bounds(s, i + 1, acc.push(s[i]));
        }
    }
}

pub proof fn lemma_parse_string_bounds(s: Seq<u8>, i: int)
    requires
        0 <= i <= s.len(),
    ensures
        spec_parse_string(s, i) matches Some((c, j)) ==> i + 1 < j <= s.len(),
{
    if 0 <= i < s.len() && s[i] == 34 {
        lemma_scan_string_bounds(s, i + 1, Seq::empty());
    }
}

/// First position at or after `i` holding no decimal digit.
pub open spec fn spec_scan_digits(s: Seq<u8>, i: int) -> int
    decreases s.len() - i,
{
    if 0 <= i < s.len() && is_digit(s[i]) {
        spec_scan_digits(s, i + 1)
    } else {
        i
    }
}

pub proof fn lemma_scan_digits_bounds(s: Seq<u8>, i: int)
    requires
        0 <= i <= s.len(),
    ensures
        i <= spec_scan_digits(s, i) <= s.len(),
        forall|k: int| i <= k < spec_scan_digits(s, i) ==> is_digit(s[k]),
    decreases s.len() - i,
{
    if 0 <= i < s.len() && is_digit(s[i]) {
        lemma_scan_digits_bounds(s, i + 1);
    }
}

/// Value of the digit run `s[i .. j)`, most significant first.
pub open spec fn spec_digits_value(s: Seq<u8>, i: int, j: int) -> int
    decreases j - i,
{
    if i < j {
        spec_digits_value(s, i, j - 1) * 10 + (s[j - 1] - 48)
    } else {
        0
    }
}

/// A run of digits has a non-negative value.
pub proof fn lemma_digits_value_nonneg(s: Seq<u8>, i: int, j: int)
    requires
        forall|m: int| i <= m < j ==> is_digit(#[trigger] s[m]),
    ensures
        spec_digits_value(s, i, j) >= 0,
    decreases j - i,
{
    if i < j {
        lemma_digits_value_nonneg(s, i, j - 1);
    }
}

/// Digit values only grow as the run extends to the right.
pub proof fn lemma_digits_value_monotone(s: Seq<u8>, i: int, j: int, k: int)
    requires
        i <= j <= k,
        forall|m: int| i <= m < k ==> is_digit(#[trigger] s[m]),
    ensures
        spec_digits_value(s, i, j) <= spec_digits_value(s, i, k),
    decreases k - j,
{
    if j < k {
        lemma_digits_value_monotone(s, i, j, k - 1);
        lemma_digits_value_nonneg(s, i, k - 1);
    }
}

/// The span of one JSON number starting at `i`: an optional sign, digits,
/// an optional fraction, an optional exponent.
pub open spec fn spec_scan_number(s: Seq<u8>, i: int) -> Option<int> {
    if !(0 <= i < s.len()) {
        None
    } else {
        let st = if s[i] == 45 {
            i + 1
        } else {
            i
        };
        let d = spec_scan_digits(s, st);
        if d == st {
            None
        } else {
            let e1 = if d < s.len() && s[d] == 46 {
                spec_scan_digits(s, d + 1)
            } else {
                d
            };
            if d < s.len() && s[d] == 46 && e1 == d + 1 {
                None
            } else {
                if e1 < s.len() && (s[e1] == 101 || s[e1] == 69) {
                    let sg = if e1 + 1 < s.len() && (s[e1 + 1] == 43 || s[e1 + 1] == 45) {
                        e1 + 2
                    } else {
                        e1 + 1
                    };
                    let x = spec_scan_digits(s, sg);
                    if x == sg {
                        None
                    } else {
                        Some(x)
                    }
                } else {
                    Some(e1)
                }
            }
        }
    }
}

pub proof fn lemma_scan_number_bounds(s: Seq<u8>, i: int)
    requires
        0 <= i <= s.len(),
    ensures
        spec_scan_number(s, i) matches Some(j) ==> i < j <= s.len(),
{
    if 0 <= i < s.len() {
        let st = if s[i] == 45 {
            i + 1
        } else {
            i
        };
        lemma_scan_digits_bounds(s, st);
        let d = spec_scan_digits(s, st);
        if d != st {
            if d < s.len() && s[d] == 46 {
                lemma_scan_digits_bounds(s, d + 1);
            }
            let e1 = if d < s.len() && s[d] == 46 {
                spec_scan_digits(s, d + 1)
            } else {
                d
            };
            if e1 < s.len() && (s[e1] == 101 || s[e1] == 69) {
                let sg = if e1 + 1 < s.len() && (s[e1 + 1] == 43 || s[e1 + 1] == 45) {
                    e1 + 2
                } else {
                    e1 + 1
                };
                lemma_scan_digits_bounds(s, sg);
            }
        }
    }
}

/// Ten to the `k`-th, for the fractional scaling only (`0 <= k <= 4`).
pub open spec fn pow10_small(k: int) -> int {
    if k <= 0 {
        1
    } else if k == 1 {
        10
    } else if k == 2 {
        100
    } else if k == 3 {
        1000
    } else {
        10000
    }
}

/// The value of a number span read as a whole number: all digits, no
/// sign, no fraction, no exponent, and small enough for `u64`.
pub open spec fn spec_number_as_u64(s: Seq<u8>, a: int, b: int) -> Option<u64> {
    let d = spec_scan_digits(s, a);
    if a < d && d == b && spec_digits_value(s, a, d) <= u64::MAX {
        Some(spec_digits_value(s, a, d) as u64)
    } else {
        None
    }
}

/// The value of a number span read as a fixed-point price: digits with an
/// optional fraction, scaled by `PRICE_SCALE`, fractional digits beyond
/// the fourth truncated.  Signed or exponent forms carry no price.
pub open spec fn spec_number_as_price(s: Seq<u8>, a: int, b: int) -> Option<u64> {
    let d = spec_scan_digits(s, a);
    if a >= d {
        None
    } else if d == b {
        let v = spec_digits_value(s, a, d) * (PRICE_SCALE as int);
        if v <= u64::MAX {
            Some(v as u64)
        } else {
            None
        }
    } else if d < s.len() && s[d] == 46 {
        let f = spec_scan_digits(s, d + 1);
        if f == b && d + 1 < f {
            let m = if f - (d + 1) < 4 {
                f - (d + 1)
            } else {
                4
            };
            let v = spec_digits_value(s, a, d) * (PRICE_SCALE as int) + spec_digits_value(
                s,
                d + 1,
                d + 1 + m,
            ) * pow10_small(4 - m);
            if v <= u64::MAX {
                Some(v as u64)
            } else {
                None
            }
        } else {
            None
        }
    } else {
        None
    }
}

/// Advances over whitespace.
fn skip_ws(s: &[u8], i: usize) -> (r: usize)
    ensures
        r == spec_skip_ws(s@, i as int),
        i <= r,
    decreases s@.len() - i,
{
    let mut k = i;
    while k < s.len() && (s[k] == 32 || s[k] == 9 || s[k] == 10 || s[k] == 13)
        invariant
            i <= k <= s@.len() || k == i,
            spec_skip_ws(s@, i as int) == spec_skip_ws(s@, k as int),
        decreases s@.len() - k,
    {
        k = k + 1;
    }
    k
}

/// Advances over digits.
fn scan_digits(s: &[u8], i: usize) -> (r: usize)
    ensures
        r == spec_scan_digits(s@, i as int),
        i <= r,
{
    let mut k = i;
    while k < s.len() && 48 <= s[k] && s[k] <= 57
        invariant
            i <= k <= s@.len() || k == i,
            spec_scan_digits(s@, i as int) == spec_scan_digits(s@, k as int),
        decreases s@.len() - k,
    {
        k = k + 1;
    }
    k
}

/// The value of the digit run `s[a .. b)`, if it fits.
fn digits_to_u64(s: &[u8], a: usize, b: usize) -> (r: Option<u64>)
    requires
        a <= b <= s@.len(),
        forall|m: int| a <= m < b ==> is_digit(#[trigger] s@[m]),
    ensures
        spec_digits_value(s@, a as int, b as int) <= u64::MAX ==> r == Some(
            spec_digits_value(s@, a as int, b as int) as u64,
        ),
        spec_digits_value(s@, a as int, b as int) > u64::MAX ==> r is None,
{
    proof {
        lemma_digits_value_nonneg(s@, a as int, b as int);
    }
    let mut acc: u64 = 0;
    let mut k = a;
    while k < b
        invariant
            a <= k <= b <= s@.len(),
            forall|m: int| a <= m < b ==> is_digit(#[trigger] s@[m]),
            acc == spec_digits_value(s@, a as int, k as int),
        decreases b - k,
    {
        let d = s[k] - 48;
        let stepped = match acc.checked_mul(10) {
            Some(x) => x.checked_add(d as u64),
            None => None,
        };
        match stepped {
            Some(x) => {
                acc = x;
            },
            None => {
                proof {
                    lemma_digits_value_monotone(s@, a as int, k as int + 1, b as int);
                }
                return None;
            },
        }
        k = k + 1;
    }
    Some(acc)
}

/// Reads one string, quote to quote, yielding its raw body.
fn parse_string(s: &[u8], i: usize) -> (r: Option<(Vec<u8>, usize)>)
    ensures
        r is None ==> spec_parse_string(s@, i as int) is None,
        r matches Some(p) ==> spec_parse_string(s@, i as int) == Some((p.0@, p.1 as int)),
{
    if !(i < s.len() && s[i] == 34) {
        return None;
    }
    let mut acc: Vec<u8> = Vec::new();
    let mut k = i + 1;
    loop
        invariant
            i < k <= s@.len() || k == i + 1,
            spec_parse_string(s@, i as int) == spec_scan_string(s@, k as int, acc@),
        decreases s@.len() - k,
    {
        if !(k < s.len()) {
            return None;
        }
        if s[k] == 34 {
            return Some((acc, k + 1));
        }
        if s[k] == 92 {
            if k + 1 < s.len() {
                acc.push(s[k]);
                acc.push(s[k + 1]);
                k = k + 2;
            } else {
                return None;
            }
        } else {
            acc.push(s[k]);
            k = k + 1;
        }
    }
}

/// Finds the span of one JSON number.
fn scan_number(s: &[u8], i: usize) -> (r: Option<usize>)
    ensures
        r is None ==> spec_scan_number(s@, i as int) is None,
        r matches Some(j) ==> spec_scan_number(s@, i as int) == Some(j as int) && i < j
            <= s@.len(),
    {
    if !(i < s.len()) {
        return None;
    }
    proof {
        lemma_scan_number_bounds(s@, i as int);
    }
    let st = if s[i] == 45 {
        i + 1
    } else {
        i
    };
    let d = scan_digits(s, st);
    if d == st {
        return None;
    }
    let e1 = if d < s.len() && s[d] == 46 {
        scan_digits(s, d + 1)
    } else {
        d
    };
    if d < s.len() && s[d] == 46 && e1 == d + 1 {
        return None;
    }
    if e1 < s.len() && (s[e1] == 101 || s[e1] == 69) {
        let sg = if e1 + 1 < s.len() && (s[e1 + 1] == 43 || s[e1 + 1] == 45) {
            e1 + 2
        } else {
            e1 + 1
        };
        let x = scan_digits(s, sg);
        if x == sg {
            None
        } else {
            Some(x)
        }
    } else {
        Some(e1)
    }
}

/// Reads a number span as a whole `u64`.
fn number_as_u64(s: &[u8], a: usize, b: usize) -> (r: Option<u64>)
    requires
        a <= b <= s@.len(),
    ensures
        r == spec_number_as_u64(s@, a as int, b as int),
{
    let d = scan_digits(s, a);
    proof {
        lemma_scan_digits_bounds(s@, a as int);
    }
    if a < d && d == b {
        digits_to_u64(s, a, d)
    } else {
        None
    }
}

/// Reads a number span as a fixed-point price.
fn number_as_price(s: &[u8], a: usize, b: usize) -> (r: Option<u64>)
    requires
        a <= b <= s@.len(),
    ensures
        r == spec_number_as_price(s@, a as int, b as int),
{
    let d = scan_digits(s, a);
    proof {
        lemma_scan_digits_bounds(s@, a as int);
        lemma_digits_value_nonneg(s@, a as int, d as int);
    }
    if a >= d {
        return None;
    }
    let whole = digits_to_u64(s, a, d);
    if d == b {
        match whole {
            Some(w) => w.checked_mul(PRICE_SCALE),
            None => {
                proof {
                    overflow_means_no_price(s@, a as int, b as int, d as int);
                }
                None
            },
        }
    } else if d < s.len() && s[d] == 46 {
        let f = scan_digits(s, d + 1);
        proof {
            lemma_scan_digits_bounds(s@, d as int + 1);
        }
        if f == b && d + 1 < f {
            let m = if f - (d + 1) < 4 {
                f - (d + 1)
            } else {
                4
            };
            let frac = digits_to_u64(s, d + 1, d + 1 + m);
            let scale: u64 = match m {
                1 => 1000,
                2 => 100,
                3 => 10,
                _ => 1,
            };
            proof {
                lemma_digits_frac_small(s@, d as int + 1, d as int + 1 + m as int);
                let mi = m as int;
                assert(scale == pow10_small(4 - mi));
                assert(pow10_small(mi) * pow10_small(4 - mi) == 10000) by {
                    if mi == 1 {
                    } else if mi == 2 {
                    } else if mi == 3 {
                    } else {
                        assert(mi == 4);
                    }
                };
                assert(0 <= spec_digits_value(s@, d as int + 1, d as int + 1 + mi) * pow10_small(
                    4 - mi,
                ) < 10000) by (nonlinear_arith)
                    requires
                        0 <= spec_digits_value(s@, d as int + 1, d as int + 1 + mi)
                            < pow10_small(mi),
                        pow10_small(mi) * pow10_small(4 - mi) == 10000,
                        pow10_small(4 - mi) >= 1,
                ;
            }
            match whole {
                Some(w) => {
                    match w.checked_mul(PRICE_SCALE) {
                        Some(x) => x.checked_add(frac.unwrap() * scale),
                        None => None,
                    }
                },
                None => {
                    proof {
                        overflow_means_no_price(s@, a as int, b as int, d as int);
                    }
                    None
                },
            }
        } else {
            None
        }
    } else {
        None
    }
}

/// The span of one simple value: a string, a number, or a literal.
pub open spec fn spec_skip_simple(s: Seq<u8>, i: int) -> Option<int> {
    if !(0 <= i < s.len()) {
        None
    } else if s[i] == 34 {
        match spec_parse_string(s, i) {
            Some((c, j)) => Some(j),
            None => None,
        }
    } else if s[i] == 116 {
        if i + 4 <= s.len() && s[i + 1] == 114 && s[i + 2] == 117 && s[i + 3] == 101 {
            Some(i + 4)
        } else {
            None
        }
    } else if s[i] == 102 {
        if i + 5 <= s.len() && s[i + 1] == 97 && s[i + 2] == 108 && s[i + 3] == 115 && s[i + 4]
            == 101 {
            Some(i + 5)
        } else {
            None
        }
    } else if s[i] == 110 {
        if i + 4 <= s.len() && s[i + 1] == 117 && s[i + 2] == 108 && s[i + 3] == 108 {
            Some(i + 4)
        } else {
            None
        }
    } else {
        spec_scan_number(s, i)
    }
}

pub proof fn lemma_skip_simple_bounds(s: Seq<u8>, i: int)
    requires
        0 <= i <= s.len(),
    ensures
        spec_skip_simple(s, i) matches Some(j) ==> i < j <= s.len(),
{
    if 0 <= i < s.len() {
        if s[i] == 34 {
            lemma_parse_string_bounds(s, i);
        } else {
            lemma_scan_number_bounds(s, i);
        }
    }
}

/// The members of a one-level object of simple values, read from just
/// past the opening brace; `need_comma` says whether a member was already
/// read.  Yields the position past the closing brace.
pub open spec fn spec_skip_flat_object_items(s: Seq<u8>, i: int, need_comma: bool) -> Option<int>
    decreases s.len() - i,
    via spec_skip_flat_object_items_decreases
{
    if !(0 <= i <= s.len()) {
        None
    } else {
        let k = spec_skip_ws(s, i);
        if k >= s.len() {
            None
        } else if s[k] == 125 {
            Some(k + 1)
        } else if need_comma && s[k] != 44 {
            None
        } else {
            let km = if need_comma {
                spec_skip_ws(s, k + 1)
            } else {
                k
            };
            match spec_parse_string(s, km) {
                Some((key, j1)) => {
                    let j2 = spec_skip_ws(s, j1);
                    if j2 < s.len() && s[j2] == 58 {
                        let j3 = spec_skip_ws(s, j2 + 1);
                        match spec_skip_simple(s, j3) {
                            Some(j4) => spec_skip_flat_object_items(s, j4, true),
                            None => None,
                        }
                    } else {
                        None
                    }
                },
                None => None,
            }
        }
    }
}

#[via_fn]
proof fn spec_skip_flat_object_items_decreases(s: Seq<u8>, i: int, need_comma: bool) {
    if 0 <= i <= s.len() {
        lemma_skip_ws_bounds(s, i);
        let k = spec_skip_ws(s, i);
        if k < s.len() && s[k] != 125 && !(need_comma && s[k] != 44) {
            if need_comma {
                lemma_skip_ws_bounds(s, k + 1);
            }
            let km = if need_comma {
                spec_skip_ws(s, k + 1)
            } else {
                k
            };
            lemma_parse_string_bounds(s, km);
            match spec_parse_string(s, km) {
                Some(p1) => {
                    let j1 = p1.1;
                    lemma_skip_ws_bounds(s, j1);
                    let j2 = spec_skip_ws(s, j1);
                    if j2 < s.len() && s[j2] == 58 {
                        lemma_skip_ws_bounds(s, j2 + 1);
                        let j3 = spec_skip_ws(s, j2 + 1);
                        lemma_skip_simple_bounds(s, j3);
                    }
                },
                None => {},
            }
        }
    }
}

/// The items of a one-level array of simple values, read from just past
/// the opening bracket.
pub open spec fn spec_skip_flat_array_items(s: Seq<u8>, i: int, need_comma: bool) -> Option<int>
    decreases s.len() - i,
    via spec_skip_flat_array_items_decreases
{
    if !(0 <= i <= s.len()) {
        None
    } else {
        let k = spec_skip_ws(s, i);
        if k >= s.len() {
            None
        } else if s[k] == 93 {
            Some(k + 1)
        } else if need_comma && s[k] != 44 {
            None
        } else {
            let km = if need_comma {
                spec_skip_ws(s, k + 1)
            } else {
                k
            };
            match spec_skip_simple(s, km) {
                Some(j) => spec_skip_flat_array_items(s, j, true),
                None => None,
            }
        }
    }
}

#[via_fn]
proof fn spec_skip_flat_array_items_decreases(s: Seq<u8>, i: int, need_comma: bool) {
    if 0 <= i <= s.len() {
        lemma_skip_ws_bounds(s, i);
        let k = spec_skip_ws(s, i);
        if k < s.len() && s[k] != 93 && !(need_comma && s[k] != 44) {
            if need_comma {
                lemma_skip_ws_bounds(s, k + 1);
            }
            let km = if need_comma {
                spec_skip_ws(s, k + 1)
            } else {
                k
            };
            lemma_skip_simple_bounds(s, km);
        }
    }
}

/// The span of one skipped value: simple, or a one-level container of
/// simple values.
pub open spec fn spec_skip_flexible(s: Seq<u8>, i: int) -> Option<int> {
    if !(0 <= i < s.len()) {
        None
    } else if s[i] == 123 {
        spec_skip_flat_object_items(s, i + 1, false)
    } else if s[i] == 91 {
        spec_skip_flat_array_items(s, i + 1, false)
    } else {
        spec_skip_simple(s, i)
    }
}

pub proof fn lemma_skip_flat_object_items_bounds(s: Seq<u8>, i: int, need_comma: bool)
    requires
        0 <= i <= s.len(),
    ensures
        spec_skip_flat_object_items(s, i, need_comma) matches Some(j) ==> i < j <= s.len(),
    decreases s.len() - i,
{
    lemma_skip_ws_bounds(s, i);
    let k = spec_skip_ws(s, i);
    if k < s.len() && s[k] != 125 && !(need_comma && s[k] != 44) {
        if need_comma {
            lemma_skip_ws_bounds(s, k + 1);
        }
        let km = if need_comma {
            spec_skip_ws(s, k + 1)
        } else {
            k
        };
        lemma_parse_string_bounds(s, km);
        match spec_parse_string(s, km) {
            Some(p1) => {
                let j1 = p1.1;
                lemma_skip_ws_bounds(s, j1);
                let j2 = spec_skip_ws(s, j1);
                if j2 < s.len() && s[j2] == 58 {
                    lemma_skip_ws_bounds(s, j2 + 1);
                    let j3 = spec_skip_ws(s, j2 + 1);
                    lemma_skip_simple_bounds(s, j3);
                    match spec_skip_simple(s, j3) {
                        Some(j4) => {
                            lemma_skip_flat_object_items_bounds(s, j4, true);
                        },
                        None => {},
                    }
                }
            },
            None => {},
        }
    }
}

pub proof fn lemma_skip_flat_array_items_bounds(s: Seq<u8>, i: int, need_comma: bool)
    requires
        0 <= i <= s.len(),
    ensures
        spec_skip_flat_array_items(s, i, need_comma) matches Some(j) ==> i < j <= s.len(),
    decreases s.len() - i,
{
    lemma_skip_ws_bounds(s, i);
    let k = spec_skip_ws(s, i);
    if k < s.len() && s[k] != 93 && !(need_comma && s[k] != 44) {
        if need_comma {
            lemma_skip_ws_bounds(s, k + 1);
        }
        let km = if need_comma {
            spec_skip_ws(s, k + 1)
        } else {
            k
        };
        lemma_skip_simple_bounds(s, km);
        match spec_skip_simple(s, km) {
            Some(j) => {
                lemma_skip_flat_array_items_bounds(s, j, true);
            },
            None => {},
        }
    }
}

pub proof fn lemma_skip_flexible_bounds(s: Seq<u8>, i: int)
    requires
        0 <= i <= s.len(),
    ensures
        spec_skip_flexible(s, i) matches Some(j) ==> i < j <= s.len(),
{
    if 0 <= i < s.len() {
        if s[i] == 123 {
            lemma_skip_flat_object_items_bounds(s, i + 1, false);
        } else if s[i] == 91 {
            lemma_skip_flat_array_items_bounds(s, i + 1, false);
        } else {
            lemma_skip_simple_bounds(s, i);
        }
    }
}

/// A whole part too large for `u64` can never scale into one.
proof fn overflow_means_no_price(s: Seq<u8>, a: int, b: int, d: int)
    requires
        d == spec_scan_digits(s, a),
        a < d <= s.len(),
        spec_digits_value(s, a, d) > u64::MAX,
    ensures
        spec_number_as_price(s, a, b) is None,
{
    lemma_scan_digits_bounds(s, a);
    lemma_digits_value_nonneg(s, a, d);
    let w = spec_digits_value(s, a, d);
    assert(w * (PRICE_SCALE as int) > u64::MAX) by (nonlinear_arith)
        requires
            w > u64::MAX,
            PRICE_SCALE >= 1,
    ;
    if d < s.len() && s[d] == 46 {
        let f = spec_scan_digits(s, d + 1);
        if f == b && d + 1 < f {
            let m = if f - (d + 1) < 4 {
                f - (d + 1)
            } else {
                4
            };
            lemma_scan_digits_bounds(s, d + 1);
            lemma_digits_value_nonneg(s, d + 1, d + 1 + m);
            assert(spec_digits_value(s, d + 1, d + 1 + m) * pow10_small(4 - m) >= 0)
                by (nonlinear_arith)
                requires
                    spec_digits_value(s, d + 1, d + 1 + m) >= 0,
                    pow10_small(4 - m) >= 1,
            ;
        }
    }
}

/// At most four fractional digits are kept, so their value stays small.
proof fn lemma_digits_frac_small(s: Seq<u8>, a: int, b: int)
    requires
        a <= b <= s.len(),
        b - a <= 4,
        forall|m: int| a <= m < b ==> is_digit(#[trigger] s[m]),
    ensures
        0 <= spec_digits_value(s, a, b) < pow10_small(b - a),
    decreases b - a,
{
    if a < b {
        lemma_digits_frac_small(s, a, b - 1);
    }
}


/// The fields of one trade object that matter: price, exchange timestamp
/// in milliseconds, volume.  Each is the value of the member's number,
/// when the member is present and carries one.
#[derive(Debug, Clone, Copy, PartialEq, Eq, Structural)]
pub struct TradeFields {
    pub price: Option<u64>,
    pub time_ms: Option<u64>,
    pub volume: Option<u64>,
}

/// The fixed-point price standing at `i`, when a number stands there.
pub open spec fn spec_price_at(s: Seq<u8>, i: int) -> Option<u64> {
    match spec_scan_number(s, i) {
        Some(e) => spec_number_as_price(s, i, e),
        None => None,
    }
}

/// The whole number standing at `i`, when one stands there.
pub open spec fn spec_u64_at(s: Seq<u8>, i: int) -> Option<u64> {
    match spec_scan_number(s, i) {
        Some(e) => spec_number_as_u64(s, i, e),
        None => None,
    }
}

/// The bytes of the member keys that carry trade data.
pub open spec fn key_p() -> Seq<u8> {
    seq![112u8]
}

pub open spec fn key_t() -> Seq<u8> {
    seq![116u8]
}

pub open spec fn key_v() -> Seq<u8> {
    seq![118u8]
}

/// The bytes of `"type"`.
pub open spec fn key_type() -> Seq<u8> {
    seq![116u8, 121u8, 112u8, 101u8]
}

/// The bytes of `"data"`.
pub open spec fn key_data() -> Seq<u8> {
    seq![100u8, 97u8, 116u8, 97u8]
}

/// The bytes of `"trade"`.
pub open spec fn spec_type_trade() -> Seq<u8> {
    seq![116u8, 114u8, 97u8, 100u8, 101u8]
}

/// The members of one trade object, read from just past its opening
/// brace.  The keys `p`, `t` and `v` record the number standing as their
/// value (the last occurrence wins; a non-number records nothing); every
/// other member is skipped.
pub open spec fn spec_trade_members(s: Seq<u8>, i: int, acc: TradeFields, need_comma: bool) -> Option<
    (TradeFields, int),
>
    decreases s.len() - i,
    via spec_trade_members_decreases
{
    if !(0 <= i <= s.len()) {
        None
    } else {
        let k = spec_skip_ws(s, i);
        if k >= s.len() {
            None
        } else if s[k] == 125 {
            Some((acc, k + 1))
        } else if need_comma && s[k] != 44 {
            None
        } else {
            let km = if need_comma {
                spec_skip_ws(s, k + 1)
            } else {
                k
            };
            match spec_parse_string(s, km) {
                Some((key, j1)) => {
                    let j2 = spec_skip_ws(s, j1);
                    if j2 < s.len() && s[j2] == 58 {
                        let j3 = spec_skip_ws(s, j2 + 1);
                        match spec_skip_flexible(s, j3) {
                            Some(j4) => {
                                let acc2 = if key == key_p() {
                                    TradeFields { price: spec_price_at(s, j3), ..acc }
                                } else if key == key_t() {
                                    TradeFields { time_ms: spec_u64_at(s, j3), ..acc }
                                } else if key == key_v() {
                                    TradeFields { volume: spec_u64_at(s, j3), ..acc }
                                } else {
                                    acc
                                };
                                spec_trade_members(s, j4, acc2, true)
                            },
                            None => None,
                        }
                    } else {
                        None
                    }
                },
                None => None,
            }
        }
    }
}

#[via_fn]
proof fn spec_trade_members_decreases(s: Seq<u8>, i: int, acc: TradeFields, need_comma: bool) {
    if 0 <= i <= s.len() {
        lemma_skip_ws_bounds(s, i);
        let k = spec_skip_ws(s, i);
        if k < s.len() && s[k] != 125 && !(need_comma && s[k] != 44) {
            if need_comma {
                lemma_skip_ws_bounds(s, k + 1);
            }
            let km = if need_comma {
                spec_skip_ws(s, k + 1)
            } else {
                k
            };
            lemma_parse_string_bounds(s, km);
            match spec_parse_string(s, km) {
                Some(p1) => {
                    let j1 = p1.1;
                    lemma_skip_ws_bounds(s, j1);
                    let j2 = spec_skip_ws(s, j1);
                    if j2 < s.len() && s[j2] == 58 {
                        lemma_skip_ws_bounds(s, j2 + 1);
                        let j3 = spec_skip_ws(s, j2 + 1);
                        lemma_skip_flexible_bounds(s, j3);
                    }
                },
                None => {},
            }
        }
    }
}

pub proof fn lemma_trade_members_bounds(s: Seq<u8>, i: int, acc: TradeFields, need_comma: bool)
    requires
        0 <= i <= s.len(),
    ensures
        spec_trade_members(s, i, acc, need_comma) matches Some((tf, j)) ==> i < j <= s.len(),
    decreases s.len() - i,
{
    lemma_skip_ws_bounds(s, i);
    let k = spec_skip_ws(s, i);
    if k < s.len() && s[k] != 125 && !(need_comma && s[k] != 44) {
        if need_comma {
            lemma_skip_ws_bounds(s, k + 1);
        }
        let km = if need_comma {
            spec_skip_ws(s, k + 1)
        } else {
            k
        };
        lemma_parse_string_bounds(s, km);
        match spec_parse_string(s, km) {
            Some(p1) => {
                let j1 = p1.1;
                lemma_skip_ws_bounds(s, j1);
                let j2 = spec_skip_ws(s, j1);
                if j2 < s.len() && s[j2] == 58 {
                    lemma_skip_ws_bounds(s, j2 + 1);
                    let j3 = spec_skip_ws(s, j2 + 1);
                    lemma_skip_flexible_bounds(s, j3);
                    match spec_skip_flexible(s, j3) {
                        Some(j4) => {
                            let acc2 = if p1.0 == key_p() {
                                TradeFields { price: spec_price_at(s, j3), ..acc }
                            } else if p1.0 == key_t() {
                                TradeFields { time_ms: spec_u64_at(s, j3), ..acc }
                            } else if p1.0 == key_v() {
                                TradeFields { volume: spec_u64_at(s, j3), ..acc }
                            } else {
                                acc
                            };
                            lemma_trade_members_bounds(s, j4, acc2, true);
                        },
                        None => {},
                    }
                }
            },
            None => {},
        }
    }
}

/// The one price event a finished trade object yields: nothing unless
/// both a price and a timestamp were read; milliseconds become seconds.
pub open spec fn spec_trade_event(tf: TradeFields) -> Seq<PriceEvent> {
    match (tf.price, tf.time_ms) {
        (Some(p), Some(t)) => seq![
            PriceEvent { price_scaled: p, epoch_secs: (t / 1000) as u64, volume: tf.volume },
        ],
        _ => Seq::empty(),
    }
}

/// The items of the `data` array, read from just past its opening
/// bracket: each must be a trade object; its events are appended in
/// array order.
pub open spec fn spec_data_items(s: Seq<u8>, i: int, acc: Seq<PriceEvent>, need_comma: bool) -> Option<
    (Seq<PriceEvent>, int),
>
    decreases s.len() - i,
    via spec_data_items_decreases
{
    if !(0 <= i <= s.len()) {
        None
    } else {
        let k = spec_skip_ws(s, i);
        if k >= s.len() {
            None
        } else if s[k] == 93 {
            Some((acc, k + 1))
        } else if need_comma && s[k] != 44 {
            None
        } else {
            let km = if need_comma {
                spec_skip_ws(s, k + 1)
            } else {
                k
            };
            if km < s.len() && s[km] == 123 {
                match spec_trade_members(
                    s,
                    km + 1,
                    TradeFields { price: None, time_ms: None, volume: None },
                    false,
                ) {
                    Some((tf, j)) => spec_data_items(s, j, acc + spec_trade_event(tf), true),
                    None => None,
                }
            } else {
                None
            }
        }
    }
}

#[via_fn]
proof fn spec_data_items_decreases(s: Seq<u8>, i: int, acc: Seq<PriceEvent>, need_comma: bool) {
    if 0 <= i <= s.len() {
        lemma_skip_ws_bounds(s, i);
        let k = spec_skip_ws(s, i);
        if k < s.len() && s[k] != 93 && !(need_comma && s[k] != 44) {
            if need_comma {
                lemma_skip_ws_bounds(s, k + 1);
            }
            let km = if need_comma {
                spec_skip_ws(s, k + 1)
            } else {
                k
            };
            if km < s.len() && s[km] == 123 {
                lemma_trade_members_bounds(
                    s,
                    km + 1,
                    TradeFields { price: None, time_ms: None, volume: None },
                    false,
                );
            }
        }
    }
}

pub proof fn lemma_data_items_bounds(s: Seq<u8>, i: int, acc: Seq<PriceEvent>, need_comma: bool)
    requires
        0 <= i <= s.len(),
    ensures
        spec_data_items(s, i, acc, need_comma) matches Some((evs, j)) ==> i < j <= s.len(),
    decreases s.len() - i,
{
    lemma_skip_ws_bounds(s, i);
    let k = spec_skip_ws(s, i);
    if k < s.len() && s[k] != 93 && !(need_comma && s[k] != 44) {
        if need_comma {
            lemma_skip_ws_bounds(s, k + 1);
        }
        let km = if need_comma {
            spec_skip_ws(s, k + 1)
        } else {
            k
        };
        if km < s.len() && s[km] == 123 {
            lemma_trade_members_bounds(
                s,
                km + 1,
                TradeFields { price: None, time_ms: None, volume: None },
                false,
            );
            match spec_trade_members(
                s,
                km + 1,
                TradeFields { price: None, time_ms: None, volume: None },
                false,
            ) {
                Some(p1) => {
                    lemma_data_items_bounds(s, p1.1, acc + spec_trade_event(p1.0), true);
                },
                None => {},
            }
        }
    }
}

/// The members of the top-level frame object, read from just past its
/// opening brace.  `type` records its string value, `data` its parsed
/// trade events; every other member is skipped.
pub open spec fn spec_top_members(
    s: Seq<u8>,
    i: int,
    ftype: Option<Seq<u8>>,
    trades: Option<Seq<PriceEvent>>,
    need_comma: bool,
) -> Option<(Option<Seq<u8>>, Option<Seq<PriceEvent>>, int)>
    decreases s.len() - i,
    via spec_top_members_decreases
{
    if !(0 <= i <= s.len()) {
        None
    } else {
        let k = spec_skip_ws(s, i);
        if k >= s.len() {
            None
        } else if s[k] == 125 {
            Some((ftype, trades, k + 1))
        } else if need_comma && s[k] != 44 {
            None
        } else {
            let km = if need_comma {
                spec_skip_ws(s, k + 1)
            } else {
                k
            };
            match spec_parse_string(s, km) {
                Some((key, j1)) => {
                    let j2 = spec_skip_ws(s, j1);
                    if j2 < s.len() && s[j2] == 58 {
                        let j3 = spec_skip_ws(s, j2 + 1);
                        if key == key_type() {
                            if j3 < s.len() && s[j3] == 34 {
                                match spec_parse_string(s, j3) {
                                    Some((val, j4)) => spec_top_members(
                                        s,
                                        j4,
                                        Some(val),
                                        trades,
                                        true,
                                    ),
                                    None => None,
                                }
                            } else {
                                match spec_skip_flexible(s, j3) {
                                    Some(j4) => spec_top_members(s, j4, None, trades, true),
                                    None => None,
                                }
                            }
                        } else if key == key_data() {
                            if j3 < s.len() && s[j3] == 91 {
                                match spec_data_items(s, j3 + 1, Seq::empty(), false) {
                                    Some((evs, j4)) => spec_top_members(
                                        s,
                                        j4,
                                        ftype,
                                        Some(evs),
                                        true,
                                    ),
                                    None => None,
                                }
                            } else {
                                None
                            }
                        } else {
                            match spec_skip_flexible(s, j3) {
                                Some(j4) => spec_top_members(s, j4, ftype, trades, true),
                                None => None,
                            }
                        }
                    } else {
                        None
                    }
                },
                None => None,
            }
        }
    }
}

#[via_fn]
proof fn spec_top_members_decreases(
    s: Seq<u8>,
    i: int,
    ftype: Option<Seq<u8>>,
    trades: Option<Seq<PriceEvent>>,
    need_comma: bool,
) {
    if 0 <= i <= s.len() {
        lemma_skip_ws_bounds(s, i);
        let k = spec_skip_ws(s, i);
        if k < s.len() && s[k] != 125 && !(need_comma && s[k] != 44) {
            if need_comma {
                lemma_skip_ws_bounds(s, k + 1);
            }
            let km = if need_comma {
                spec_skip_ws(s, k + 1)
            } else {
                k
            };
            lemma_parse_string_bounds(s, km);
            match spec_parse_string(s, km) {
                Some(p1) => {
                    let j1 = p1.1;
                    lemma_skip_ws_bounds(s, j1);
                    let j2 = spec_skip_ws(s, j1);
                    if j2 < s.len() && s[j2] == 58 {
                        lemma_skip_ws_bounds(s, j2 + 1);
                        let j3 = spec_skip_ws(s, j2 + 1);
                        lemma_parse_string_bounds(s, j3);
                        lemma_skip_flexible_bounds(s, j3);
                        if j3 < s.len() && s[j3] == 91 {
                            lemma_data_items_bounds(s, j3 + 1, Seq::empty(), false);
                        }
                    }
                },
                None => {},
            }
        }
    }
}

pub proof fn lemma_top_members_bounds(
    s: Seq<u8>,
    i: int,
    ftype: Option<Seq<u8>>,
    trades: Option<Seq<PriceEvent>>,
    need_comma: bool,
)
    requires
        0 <= i <= s.len(),
    ensures
        spec_top_members(s, i, ftype, trades, need_comma) matches Some((f2, t2, j)) ==> i < j
            <= s.len(),
    decreases s.len() - i,
{
    lemma_skip_ws_bounds(s, i);
    let k = spec_skip_ws(s, i);
    if k < s.len() && s[k] != 125 && !(need_comma && s[k] != 44) {
        if need_comma {
            lemma_skip_ws_bounds(s, k + 1);
        }
        let km = if need_comma {
            spec_skip_ws(s, k + 1)
        } else {
            k
        };
        lemma_parse_string_bounds(s, km);
        match spec_parse_string(s, km) {
            Some(p1) => {
                let key = p1.0;
                let j1 = p1.1;
                lemma_skip_ws_bounds(s, j1);
                let j2 = spec_skip_ws(s, j1);
                if j2 < s.len() && s[j2] == 58 {
                    lemma_skip_ws_bounds(s, j2 + 1);
                    let j3 = spec_skip_ws(s, j2 + 1);
                    lemma_parse_string_bounds(s, j3);
                    lemma_skip_flexible_bounds(s, j3);
                    if key == key_type() {
                        if j3 < s.len() && s[j3] == 34 {
                            match spec_parse_string(s, j3) {
                                Some(p2) => {
                                    lemma_top_members_bounds(s, p2.1, Some(p2.0), trades, true);
                                },
                                None => {},
                            }
                        } else {
                            match spec_skip_flexible(s, j3) {
                                Some(j4) => {
                                    lemma_top_members_bounds(s, j4, None, trades, true);
                                },
                                None => {},
                            }
                        }
                    } else if key == key_data() {
                        if j3 < s.len() && s[j3] == 91 {
                            lemma_data_items_bounds(s, j3 + 1, Seq::empty(), false);
                            match spec_data_items(s, j3 + 1, Seq::empty(), false) {
                                Some(p2) => {
                                    lemma_top_members_bounds(s, p2.1, ftype, Some(p2.0), true);
                                },
                                None => {},
                            }
                        }
                    } else {
                        match spec_skip_flexible(s, j3) {
                            Some(j4) => {
                                lemma_top_members_bounds(s, j4, ftype, trades, true);
                            },
                            None => {},
                        }
                    }
                }
            },
            None => {},
        }
    }
}

/// What a whole inbound text frame means: its trade events, when it is a
/// well-formed trade frame of the grammar above, and nothing otherwise.
pub open spec fn spec_parse_trade_frame(s: Seq<u8>) -> Option<Seq<PriceEvent>> {
    let i = spec_skip_ws(s, 0);
    if 0 <= i < s.len() && s[i] == 123 {
        match spec_top_members(s, i + 1, None, None, false) {
            Some((ftype, trades, j)) => {
                if spec_skip_ws(s, j) == s.len() && ftype == Some(spec_type_trade()) {
                    trades
                } else {
                    None
                }
            },
            None => None,
        }
    } else {
        None
    }
}


/// Skips one simple value.
fn skip_simple(s: &[u8], i: usize) -> (r: Option<usize>)
    ensures
        r is None ==> spec_skip_simple(s@, i as int) is None,
        r matches Some(j) ==> spec_skip_simple(s@, i as int) == Some(j as int),
{
    if !(i < s.len()) {
        return None;
    }
    let b = s[i];
    if b == 34 {
        match parse_string(s, i) {
            Some((_c, j)) => Some(j),
            None => None,
        }
    } else if b == 116 {
        if s.len() - i >= 4 && s[i + 1] == 114 && s[i + 2] == 117 && s[i + 3] == 101 {
            Some(i + 4)
        } else {
            None
        }
    } else if b == 102 {
        if s.len() - i >= 5 && s[i + 1] == 97 && s[i + 2] == 108 && s[i + 3] == 115 && s[i + 4]
            == 101 {
            Some(i + 5)
        } else {
            None
        }
    } else if b == 110 {
        if s.len() - i >= 4 && s[i + 1] == 117 && s[i + 2] == 108 && s[i + 3] == 108 {
            Some(i + 4)
        } else {
            None
        }
    } else {
        scan_number(s, i)
    }
}

/// Skips the members of a one-level object, from just past its brace.
fn skip_flat_object_items(s: &[u8], i: usize, need_comma0: bool) -> (r: Option<usize>)
    requires
        i <= s@.len(),
    ensures
        r is None ==> spec_skip_flat_object_items(s@, i as int, need_comma0) is None,
        r matches Some(j) ==> spec_skip_flat_object_items(s@, i as int, need_comma0) == Some(
            j as int,
        ),
{
    let mut cur = i;
    let mut need_comma = need_comma0;
    loop
        invariant
            cur <= s@.len(),
            spec_skip_flat_object_items(s@, i as int, need_comma0)
                == spec_skip_flat_object_items(s@, cur as int, need_comma),
        decreases s@.len() - cur,
    {
        let k = skip_ws(s, cur);
        proof {
            lemma_skip_ws_bounds(s@, cur as int);
        }
        if k >= s.len() {
            return None;
        }
        if s[k] == 125 {
            return Some(k + 1);
        }
        if need_comma && s[k] != 44 {
            return None;
        }
        let km = if need_comma {
            let t = skip_ws(s, k + 1);
            proof {
                lemma_skip_ws_bounds(s@, k as int + 1);
            }
            t
        } else {
            k
        };
        match parse_string(s, km) {
            Some((_key, j1)) => {
                proof {
                    lemma_parse_string_bounds(s@, km as int);
                }
                let j2 = skip_ws(s, j1);
                proof {
                    lemma_skip_ws_bounds(s@, j1 as int);
                }
                if j2 < s.len() && s[j2] == 58 {
                    let j3 = skip_ws(s, j2 + 1);
                    proof {
                        lemma_skip_ws_bounds(s@, j2 as int + 1);
                    }
                    match skip_simple(s, j3) {
                        Some(j4) => {
                            proof {
                                lemma_skip_simple_bounds(s@, j3 as int);
                            }
                            cur = j4;
                            need_comma = true;
                        },
                        None => {
                            return None;
                        },
                    }
                } else {
                    return None;
                }
            },
            None => {
                return None;
            },
        }
    }
}

/// Skips the items of a one-level array, from just past its bracket.
fn skip_flat_array_items(s: &[u8], i: usize, need_comma0: bool) -> (r: Option<usize>)
    requires
        i <= s@.len(),
    ensures
        r is None ==> spec_skip_flat_array_items(s@, i as int, need_comma0) is None,
        r matches Some(j) ==> spec_skip_flat_array_items(s@, i as int, need_comma0) == Some(
            j as int,
        ),
{
    let mut cur = i;
    let mut need_comma = need_comma0;
    loop
        invariant
            cur <= s@.len(),
            spec_skip_flat_array_items(s@, i as int, need_comma0)
                == spec_skip_flat_array_items(s@, cur as int, need_comma),
        decreases s@.len() - cur,
    {
        let k = skip_ws(s, cur);
        proof {
            lemma_skip_ws_bounds(s@, cur as int);
        }
        if k >= s.len() {
            return None;
        }
        if s[k] == 93 {
            return Some(k + 1);
        }
        if need_comma && s[k] != 44 {
            return None;
        }
        let km = if need_comma {
            let t = skip_ws(s, k + 1);
            proof {
                lemma_skip_ws_bounds(s@, k as int + 1);
            }
            t
        } else {
            k
        };
        match skip_simple(s, km) {
            Some(j) => {
                proof {
                    lemma_skip_simple_bounds(s@, km as int);
                }
                cur = j;
                need_comma = true;
            },
            None => {
                return None;
            },
        }
    }
}

/// Skips one value: simple, or a one-level container.
fn skip_flexible(s: &[u8], i: usize) -> (r: Option<usize>)
    requires
        i <= s@.len(),
    ensures
        r is None ==> spec_skip_flexible(s@, i as int) is None,
        r matches Some(j) ==> spec_skip_flexible(s@, i as int) == Some(j as int),
{
    if !(i < s.len()) {
        return None;
    }
    if s[i] == 123 {
        skip_flat_object_items(s, i + 1, false)
    } else if s[i] == 91 {
        skip_flat_array_items(s, i + 1, false)
    } else {
        skip_simple(s, i)
    }
}

/// The fixed-point price standing at `i`, when a number stands there.
fn price_at(s: &[u8], i: usize) -> (r: Option<u64>)
    requires
        i <= s@.len(),
    ensures
        r == spec_price_at(s@, i as int),
{
    match scan_number(s, i) {
        Some(e) => number_as_price(s, i, e),
        None => None,
    }
}

/// The whole number standing at `i`, when one stands there.
fn u64_at(s: &[u8], i: usize) -> (r: Option<u64>)
    requires
        i <= s@.len(),
    ensures
        r == spec_u64_at(s@, i as int),
{
    match scan_number(s, i) {
        Some(e) => number_as_u64(s, i, e),
        None => None,
    }
}

/// Reads the members of one trade object, from just past its brace.
fn trade_members(s: &[u8], i: usize) -> (r: Option<(TradeFields, usize)>)
    requires
        i <= s@.len(),
    ensures
        r is None ==> spec_trade_members(
            s@,
            i as int,
            TradeFields { price: None, time_ms: None, volume: None },
            false,
        ) is None,
        r matches Some(p) ==> spec_trade_members(
            s@,
            i as int,
            TradeFields { price: None, time_ms: None, volume: None },
            false,
        ) == Some((p.0, p.1 as int)),
{
    let mut cur = i;
    let mut need_comma = false;
    let mut acc = TradeFields { price: None, time_ms: None, volume: None };
    loop
        invariant
            cur <= s@.len(),
            spec_trade_members(
                s@,
                i as int,
                TradeFields { price: None, time_ms: None, volume: None },
                false,
            ) == spec_trade_members(s@, cur as int, acc, need_comma),
        decreases s@.len() - cur,
    {
        let k = skip_ws(s, cur);
        proof {
            lemma_skip_ws_bounds(s@, cur as int);
        }
        if k >= s.len() {
            return None;
        }
        if s[k] == 125 {
            return Some((acc, k + 1));
        }
        if need_comma && s[k] != 44 {
            return None;
        }
        let km = if need_comma {
            let t = skip_ws(s, k + 1);
            proof {
                lemma_skip_ws_bounds(s@, k as int + 1);
            }
            t
        } else {
            k
        };
        match parse_string(s, km) {
            Some((key, j1)) => {
                proof {
                    lemma_parse_string_bounds(s@, km as int);
                }
                let j2 = skip_ws(s, j1);
                proof {
                    lemma_skip_ws_bounds(s@, j1 as int);
                }
                if j2 < s.len() && s[j2] == 58 {
                    let j3 = skip_ws(s, j2 + 1);
                    proof {
                        lemma_skip_ws_bounds(s@, j2 as int + 1);
                    }
                    match skip_flexible(s, j3) {
                        Some(j4) => {
                            proof {
                                lemma_skip_flexible_bounds(s@, j3 as int);
                            }
                            if key.len() == 1 && key[0] == 112 {
                                proof {
                                    assert(key@ =~= key_p());
                                }
                                acc = TradeFields { price: price_at(s, j3), ..acc };
                            } else if key.len() == 1 && key[0] == 116 {
                                proof {
                                    assert(key@ =~= key_t());
                                }
                                acc = TradeFields { time_ms: u64_at(s, j3), ..acc };
                            } else if key.len() == 1 && key[0] == 118 {
                                proof {
                                    assert(key@ =~= key_v());
                                }
                                acc = TradeFields { volume: u64_at(s, j3), ..acc };
                            } else {
                                proof {
                                    assert(key@ != key_p() && key@ != key_t() && key@ != key_v());
                                }
                            }
                            cur = j4;
                            need_comma = true;
                        },
                        None => {
                            return None;
                        },
                    }
                } else {
                    return None;
                }
            },
            None => {
                return None;
            },
        }
    }
}

/// Reads the items of the `data` array, from just past its bracket.
fn data_items(s: &[u8], i: usize) -> (r: Option<(Vec<PriceEvent>, usize)>)
    requires
        i <= s@.len(),
    ensures
        r is None ==> spec_data_items(s@, i as int, Seq::empty(), false) is None,
        r matches Some(p) ==> spec_data_items(s@, i as int, Seq::empty(), false) == Some(
            (p.0@, p.1 as int),
        ),
{
    let mut cur = i;
    let mut need_comma = false;
    let mut acc: Vec<PriceEvent> = Vec::new();
    proof {
        assert(acc@ =~= Seq::<PriceEvent>::empty());
    }
    loop
        invariant
            cur <= s@.len(),
            spec_data_items(s@, i as int, Seq::empty(), false) == spec_data_items(
                s@,
                cur as int,
                acc@,
                need_comma,
            ),
        decreases s@.len() - cur,
    {
        let k = skip_ws(s, cur);
        proof {
            lemma_skip_ws_bounds(s@, cur as int);
        }
        if k >= s.len() {
            return None;
        }
        if s[k] == 93 {
            return Some((acc, k + 1));
        }
        if need_comma && s[k] != 44 {
            return None;
        }
        let km = if need_comma {
            let t = skip_ws(s, k + 1);
            proof {
                lemma_skip_ws_bounds(s@, k as int + 1);
            }
            t
        } else {
            k
        };
        if km < s.len() && s[km] == 123 {
            match trade_members(s, km + 1) {
                Some((tf, j)) => {
                    proof {
                        lemma_trade_members_bounds(
                            s@,
                            km as int + 1,
                            TradeFields { price: None, time_ms: None, volume: None },
                            false,
                        );
                    }
                    let ghost pre = acc@;
                    match (tf.price, tf.time_ms) {
                        (Some(p), Some(t)) => {
                            acc.push(PriceEvent {
                                price_scaled: p,
                                epoch_secs: t / 1000,
                                volume: tf.volume,
                            });
                            proof {
                                assert(acc@ =~= pre + spec_trade_event(tf));
                            }
                        },
                        _ => {
                            proof {
                                assert(acc@ =~= pre + spec_trade_event(tf));
                            }
                        },
                    }
                    cur = j;
                    need_comma = true;
                },
                None => {
                    return None;
                },
            }
        } else {
            return None;
        }
    }
}

/// The view of an optional byte buffer.
pub open spec fn view_opt_bytes(o: Option<Vec<u8>>) -> Option<Seq<u8>> {
    match o {
        Some(v) => Some(v@),
        None => None,
    }
}

/// The view of an optional event list.
pub open spec fn view_opt_events(o: Option<Vec<PriceEvent>>) -> Option<Seq<PriceEvent>> {
    match o {
        Some(v) => Some(v@),
        None => None,
    }
}

/// Reads the members of the frame object, from just past its brace.
fn top_members(s: &[u8], i: usize) -> (r: Option<(Option<Vec<u8>>, Option<Vec<PriceEvent>>, usize)>)
    requires
        i <= s@.len(),
    ensures
        r is None ==> spec_top_members(s@, i as int, None, None, false) is None,
        r matches Some(p) ==> spec_top_members(s@, i as int, None, None, false) == Some(
            (view_opt_bytes(p.0), view_opt_events(p.1), p.2 as int),
        ),
{
    let mut cur = i;
    let mut need_comma = false;
    let mut ftype: Option<Vec<u8>> = None;
    let mut trades: Option<Vec<PriceEvent>> = None;
    loop
        invariant
            cur <= s@.len(),
            spec_top_members(s@, i as int, None, None, false) == spec_top_members(
                s@,
                cur as int,
                view_opt_bytes(ftype),
                view_opt_events(trades),
                need_comma,
            ),
        decreases s@.len() - cur,
    {
        let k = skip_ws(s, cur);
        proof {
            lemma_skip_ws_bounds(s@, cur as int);
        }
        if k >= s.len() {
            return None;
        }
        if s[k] == 125 {
            return Some((ftype, trades, k + 1));
        }
        if need_comma && s[k] != 44 {
            return None;
        }
        let km = if need_comma {
            let t = skip_ws(s, k + 1);
            proof {
                lemma_skip_ws_bounds(s@, k as int + 1);
            }
            t
        } else {
            k
        };
        match parse_string(s, km) {
            Some((key, j1)) => {
                proof {
                    lemma_parse_string_bounds(s@, km as int);
                }
                let j2 = skip_ws(s, j1);
                proof {
                    lemma_skip_ws_bounds(s@, j1 as int);
                }
                if !(j2 < s.len() && s[j2] == 58) {
                    return None;
                }
                let j3 = skip_ws(s, j2 + 1);
                proof {
                    lemma_skip_ws_bounds(s@, j2 as int + 1);
                }
                if key.len() == 4 && key[0] == 116 && key[1] == 121 && key[2] == 112 && key[3]
                    == 101 {
                    proof {
                        assert(key@ =~= key_type());
                    }
                    if j3 < s.len() && s[j3] == 34 {
                        match parse_string(s, j3) {
                            Some((val, j4)) => {
                                proof {
                                    lemma_parse_string_bounds(s@, j3 as int);
                                }
                                ftype = Some(val);
                                cur = j4;
                                need_comma = true;
                            },
                            None => {
                                return None;
                            },
                        }
                    } else {
                        match skip_flexible(s, j3) {
                            Some(j4) => {
                                proof {
                                    lemma_skip_flexible_bounds(s@, j3 as int);
                                }
                                ftype = None;
                                cur = j4;
                                need_comma = true;
                            },
                            None => {
                                return None;
                            },
                        }
                    }
                } else if key.len() == 4 && key[0] == 100 && key[1] == 97 && key[2] == 116 && key[3]
                    == 97 {
                    proof {
                        assert(key@ =~= key_data());
                    }
                    if j3 < s.len() && s[j3] == 91 {
                        match data_items(s, j3 + 1) {
                            Some((evs, j4)) => {
                                proof {
                                    lemma_data_items_bounds(
                                        s@,
                                        j3 as int + 1,
                                        Seq::empty(),
                                        false,
                                    );
                                }
                                trades = Some(evs);
                                cur = j4;
                                need_comma = true;
                            },
                            None => {
                                return None;
                            },
                        }
                    } else {
                        return None;
                    }
                } else {
                    proof {
                        assert(key@ != key_type() && key@ != key_data());
                    }
                    match skip_flexible(s, j3) {
                        Some(j4) => {
                            proof {
                                lemma_skip_flexible_bounds(s@, j3 as int);
                            }
                            cur = j4;
                            need_comma = true;
                        },
                        None => {
                            return None;
                        },
                    }
                }
            },
            None => {
                return None;
            },
        }
    }
}

/// Parses one inbound text frame.  Yields the batched trade events when
/// the frame is a trade frame of the recognized grammar, and nothing
/// otherwise — such a frame is simply not a trade batch.
pub fn parse_trade_frame(s: &[u8]) -> (r: Option<Vec<PriceEvent>>)
    ensures
        r is None ==> spec_parse_trade_frame(s@) is None,
        r matches Some(evs) ==> spec_parse_trade_frame(s@) == Some(evs@),
{
    let i = skip_ws(s, 0);
    proof {
        lemma_skip_ws_bounds(s@, 0);
    }
    if !(i < s.len() && s[i] == 123) {
        return None;
    }
    match top_members(s, i + 1) {
        Some((ftype, trades, j)) => {
            proof {
                lemma_top_members_bounds(s@, i as int + 1, None, None, false);
            }
            let e = skip_ws(s, j);
            if e != s.len() {
                return None;
            }
            match ftype {
                Some(t) => {
                    if t.len() == 5 && t[0] == 116 && t[1] == 114 && t[2] == 97 && t[3] == 100
                        && t[4] == 101 {
                        proof {
                            assert(t@ =~= spec_type_trade());
                        }
                        match trades {
                            Some(evs) => Some(evs),
                            None => None,
                        }
                    } else {
                        proof {
                            assert(t@ != spec_type_trade());
                        }
                        None
                    }
                },
                None => None,
            }
        },
        None => None,
    }
}

/// The bytes of the subscribe frame head, `{"type":"subscribe","symbol":"`.
pub open spec fn spec_subscribe_head() -> Seq<u8> {
    seq![
        123u8, 34u8, 116u8, 121u8, 112u8, 101u8, 34u8, 58u8, 34u8, 115u8, 117u8, 98u8, 115u8,
        99u8, 114u8, 105u8, 98u8, 101u8, 34u8, 44u8, 34u8, 115u8, 121u8, 109u8, 98u8, 111u8,
        108u8, 34u8, 58u8, 34u8,
    ]
}

/// The bytes of the unsubscribe frame head, `{"type":"unsubscribe","symbol":"`.
pub open spec fn spec_unsubscribe_head() -> Seq<u8> {
    seq![
        123u8, 34u8, 116u8, 121u8, 112u8, 101u8, 34u8, 58u8, 34u8, 117u8, 110u8, 115u8, 117u8,
        98u8, 115u8, 99u8, 114u8, 105u8, 98u8, 101u8, 34u8, 44u8, 34u8, 115u8, 121u8, 109u8,
        98u8, 111u8, 108u8, 34u8, 58u8, 34u8,
    ]
}

/// The closing bytes of both control frames, `"}`.
pub open spec fn spec_frame_tail() -> Seq<u8> {
    seq![34u8, 125u8]
}

/// An instrument identifier that can be framed as it stands: no quote and
/// no backslash among its bytes.
pub open spec fn spec_symbol_plain(b: Seq<u8>) -> bool {
    forall|k: int| 0 <= k < b.len() ==> b[k] != 34 && #[trigger] b[k] != 92
}

/// Decides whether an instrument identifier can be framed as it stands.
pub fn symbol_is_plain(symbol: &str) -> (r: bool)
    ensures
        r == spec_symbol_plain(symbol.spec_bytes()),
{
    let b = symbol.as_bytes();
    let mut k: usize = 0;
    while k < b.len()
        invariant
            k <= b@.len(),
            b@ == symbol.spec_bytes(),
            forall|m: int| 0 <= m < k ==> b@[m] != 34 && #[trigger] b@[m] != 92,
        decreases b@.len() - k,
    {
        if b[k] == 34 || b[k] == 92 {
            return false;
        }
        k = k + 1;
    }
    true
}

fn push_all(v: &mut Vec<u8>, bytes: &[u8])
    ensures
        final(v)@ == old(v)@ + bytes@,
{
    let ghost pre = v@;
    let mut k: usize = 0;
    while k < bytes.len()
        invariant
            k <= bytes@.len(),
            v@ == pre + bytes@.subrange(0, k as int),
        decreases bytes@.len() - k,
    {
        v.push(bytes[k]);
        proof {
            assert(pre + bytes@.subrange(0, k as int) + seq![bytes@[k as int]]
                =~= pre + bytes@.subrange(0, k as int + 1));
        }
        k = k + 1;
    }
    proof {
        assert(pre + bytes@.subrange(0, bytes@.len() as int) =~= pre + bytes@);
    }
}

/// Builds the subscribe control frame for an instrument.
pub fn subscribe_frame(symbol: &str) -> (r: Vec<u8>)
    requires
        spec_symbol_plain(symbol.spec_bytes()),
    ensures
        r@ == spec_subscribe_head() + symbol.spec_bytes() + spec_frame_tail(),
{
    let head: [u8; 30] = [
        123, 34, 116, 121, 112, 101, 34, 58, 34, 115, 117, 98, 115, 99, 114, 105, 98, 101, 34,
        44, 34, 115, 121, 109, 98, 111, 108, 34, 58, 34,
    ];
    proof {
        assert(head@ =~= spec_subscribe_head());
    }
    let mut r: Vec<u8> = Vec::new();
    push_all(&mut r, head.as_slice());
    push_all(&mut r, symbol.as_bytes());
    let tail: [u8; 2] = [34, 125];
    proof {
        assert(tail@ =~= spec_frame_tail());
    }
    push_all(&mut r, tail.as_slice());
    proof {
        assert(r@ =~= spec_subscribe_head() + symbol.spec_bytes() + spec_frame_tail());
    }
    r
}

/// Builds the unsubscribe control frame for an instrument.
pub fn unsubscribe_frame(symbol: &str) -> (r: Vec<u8>)
    requires
        spec_symbol_plain(symbol.spec_bytes()),
    ensures
        r@ == spec_unsubscribe_head() + symbol.spec_bytes() + spec_frame_tail(),
{
    let head: [u8; 32] = [
        123, 34, 116, 121, 112, 101, 34, 58, 34, 117, 110, 115, 117, 98, 115, 99, 114, 105, 98,
        101, 34, 44, 34, 115, 121, 109, 98, 111, 108, 34, 58, 34,
    ];
    proof {
        assert(head@ =~= spec_unsubscribe_head());
    }
    let mut r: Vec<u8> = Vec::new();
    push_all(&mut r, head.as_slice());
    push_all(&mut r, symbol.as_bytes());
    let tail: [u8; 2] = [34, 125];
    proof {
        assert(tail@ =~= spec_frame_tail());
    }
    push_all(&mut r, tail.as_slice());
    proof {
        assert(r@ =~= spec_unsubscribe_head() + symbol.spec_bytes() + spec_frame_tail());
    }
    r
}

} // verus!
