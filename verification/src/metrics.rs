//! Readings of profile metrics: byte sizes, durations and plain numbers,
//! and their human-readable forms.
use vstd::prelude::*;
use crate::text::{
    is_digit, is_ws, trim_seq, chars_of, str_trim, str_to_uppercase,
    str_eq, string_push, upper_text,
};
use crate::num::{
    Dec, pow10, pow10_exec, spec_parse_unsigned, spec_parse_signed, parse_unsigned_range,
    parse_signed_range, fixed_str, format_fixed, lemma_pow10_le, dec_str, digits_val, all_digits,
    first_dot, zero_pad, zeros, lemma_zero_pad, lemma_dec_str_digits, lemma_digits_val_push,
    lemma_first_dot_props, round_half_even,
};
use crate::text::{ascii_upper, is_ascii_char, trim_start_seq, trim_end_seq};
use crate::literal::{
    float_times, spec_float_times, sub_vec, unsigned_part, lower_ascii, first_exp, lemma_first_exp_props,
    int_part, frac_part, spec_float_body, spec_parse_float, FloatText, scaled,
};

verus! {

// ---------------------------------------------------------------------------
// White-space separated words
// ---------------------------------------------------------------------------

/// Length of the leading run of non-white-space characters.
pub open spec fn word_len(s: Seq<char>) -> nat
    decreases s.len(),
{
    if s.len() == 0 || is_ws(s[0]) {
        0
    } else {
        1 + word_len(s.drop_first())
    }
}

/// The words of `s`, as `str::split_whitespace` yields them.
pub open spec fn ws_words(s: Seq<char>) -> Seq<Seq<char>>
    decreases s.len(),
{
    if s.len() == 0 {
        Seq::empty()
    } else if is_ws(s[0]) {
        ws_words(s.drop_first())
    } else {
        let w = word_len(s);
        proof {
            lemma_word_len(s);
            assert(w == 1 + word_len(s.drop_first()));
        }
        seq![s.subrange(0, w as int)] + ws_words(s.skip(w as int))
    }
}

pub proof fn lemma_word_len(s: Seq<char>)
    ensures
        word_len(s) <= s.len(),
        forall|i: int| 0 <= i < word_len(s) ==> !is_ws(#[trigger] s[i]),
        word_len(s) < s.len() ==> is_ws(s[word_len(s) as int]),
    decreases s.len(),
{
    if s.len() > 0 && !is_ws(s[0]) {
        lemma_word_len(s.drop_first());
        assert forall|i: int| 0 <= i < word_len(s) implies !is_ws(#[trigger] s[i]) by {
            if i > 0 {
                assert(s[i] == s.drop_first()[i - 1]);
            }
        }
    }
}

proof fn lemma_word_len_of(s: Seq<char>, w: nat)
    requires
        w <= s.len(),
        forall|i: int| 0 <= i < w ==> !is_ws(#[trigger] s[i]),
        w < s.len() ==> is_ws(s[w as int]),
    ensures
        word_len(s) == w,
    decreases s.len(),
{
    if w > 0 {
        assert(!is_ws(s[0]));
        let t = s.drop_first();
        assert forall|i: int| 0 <= i < w - 1 implies !is_ws(#[trigger] t[i]) by {
            assert(t[i] == s[i + 1]);
        }
        if w - 1 < t.len() {
            assert(t[w - 1] == s[w as int]);
        }
        lemma_word_len_of(t, (w - 1) as nat);
    }
}

/// The `[start, end)` ranges of the words of `v`.
pub fn word_ranges(v: &Vec<char>) -> (r: Vec<(usize, usize)>)
    ensures
        r@.len() == ws_words(v@).len(),
        forall|k: int|
            0 <= k < r@.len() ==> (#[trigger] r@[k]).0 <= r@[k].1 <= v@.len() && v@.subrange(
                r@[k].0 as int,
                r@[k].1 as int,
            ) == ws_words(v@)[k],
{
    let mut r: Vec<(usize, usize)> = Vec::new();
    let mut i: usize = 0;
    let ghost mut acc: Seq<Seq<char>> = Seq::empty();
    assert(v@.skip(0) =~= v@);
    while i < v.len()
        invariant
            i <= v.len(),
            acc + ws_words(v@.skip(i as int)) == ws_words(v@),
            r@.len() == acc.len(),
            forall|k: int|
                0 <= k < r@.len() ==> (#[trigger] r@[k]).0 <= r@[k].1 <= v@.len() && v@.subrange(
                    r@[k].0 as int,
                    r@[k].1 as int,
                ) == acc[k],
        decreases v.len() - i,
    {
        let ghost rest = v@.skip(i as int);
        if is_ws_exec(v[i]) {
            proof {
                assert(rest[0] == v@[i as int]);
                assert(rest.drop_first() =~= v@.skip(i + 1));
            }
            i = i + 1;
        } else {
            let start = i;
            let mut j = i;
            while j < v.len() && !is_ws_exec(v[j])
                invariant
                    start <= j <= v.len(),
                    start == i,
                    forall|q: int| start <= q < j ==> !is_ws(#[trigger] v@[q]),
                decreases v.len() - j,
            {
                j = j + 1;
            }
            proof {
                let w = (j - start) as nat;
                assert forall|q: int| 0 <= q < w implies !is_ws(#[trigger] rest[q]) by {
                    assert(rest[q] == v@[start + q]);
                }
                if w < rest.len() {
                    assert(rest[w as int] == v@[j as int]);
                }
                lemma_word_len_of(rest, w);
                assert(rest[0] == v@[i as int]);
                assert(rest.subrange(0, w as int) =~= v@.subrange(start as int, j as int));
                assert(rest.skip(w as int) =~= v@.skip(j as int));
                assert(ws_words(rest) == seq![rest.subrange(0, w as int)] + ws_words(rest.skip(w as int)));
                acc = acc.push(v@.subrange(start as int, j as int));
                assert(acc + ws_words(v@.skip(j as int)) =~= (acc.drop_last() + ws_words(rest)));
            }
            r.push((start, j));
            i = j;
        }
    }
    proof {
        assert(v@.skip(i as int) =~= Seq::<char>::empty());
        assert(acc =~= ws_words(v@));
    }
    r
}

/// Whether `c` has the Unicode `White_Space` property.
pub fn is_ws_exec(c: char) -> (b: bool)
    ensures
        b == is_ws(c),
{
    ('\u{9}' <= c && c <= '\u{d}') || c == ' ' || c == '\u{85}' || c == '\u{a0}' || c == '\u{1680}'
        || ('\u{2000}' <= c && c <= '\u{200a}') || c == '\u{2028}' || c == '\u{2029}' || c
        == '\u{202f}' || c == '\u{205f}' || c == '\u{3000}'
}

// ---------------------------------------------------------------------------
// Byte sizes
// ---------------------------------------------------------------------------

/// Multiplier of a (upper-cased) size unit.
pub open spec fn unit_multiplier(u: Seq<char>) -> Option<nat> {
    if u == "B"@ {
        Some(1)
    } else if u == "KB"@ || u == "K"@ {
        Some(1024)
    } else if u == "MB"@ || u == "M"@ {
        Some(1024 * 1024)
    } else if u == "GB"@ || u == "G"@ {
        Some(1024 * 1024 * 1024)
    } else if u == "TB"@ || u == "T"@ {
        Some(1024 * 1024 * 1024 * 1024)
    } else {
        None
    }
}

pub open spec fn saturate_u64(x: nat) -> u64 {
    if x > 0xffff_ffff_ffff_ffff {
        0xffff_ffff_ffff_ffff
    } else {
        x as u64
    }
}

/// A size reading `"<number> <unit>"` in bytes: the number, read as `f64::from_str`
/// reads a literal (a sign, digits with a point, an exponent; `inf`, `infinity`,
/// `nan`), times the unit's multiplier, converted to 64 bits as a float is (toward
/// zero; negative values and NaN give 0, too large values the largest). The number
/// is read exactly, without rounding to a float.
pub open spec fn spec_parse_bytes(s: Seq<char>) -> Option<u64> {
    let words = ws_words(trim_seq(s));
    if words.len() != 2 {
        None
    } else {
        match unit_multiplier(upper_text(words[1])) {
            None => None,
            Some(m) => spec_float_times(words[0], m),
        }
    }
}

fn unit_multiplier_exec(u: &str) -> (r: Option<u64>)
    ensures
        r matches Some(m) ==> unit_multiplier(u@) == Some(m as nat),
        r is None ==> unit_multiplier(u@) is None,
{
    if str_eq(u, "B") {
        Some(1)
    } else if str_eq(u, "KB") || str_eq(u, "K") {
        Some(1024)
    } else if str_eq(u, "MB") || str_eq(u, "M") {
        Some(1024 * 1024)
    } else if str_eq(u, "GB") || str_eq(u, "G") {
        Some(1024 * 1024 * 1024)
    } else if str_eq(u, "TB") || str_eq(u, "T") {
        Some(1024 * 1024 * 1024 * 1024)
    } else {
        None
    }
}

/// Parse a size such as `"1.5 GB"` to bytes.
pub fn parse_bytes(s: &str) -> (r: Option<u64>)
    ensures
        r == spec_parse_bytes(s@),
{
    let t = str_trim(s);
    let v = chars_of(t);
    let words = word_ranges(&v);
    if words.len() != 2 {
        return None;
    }
    let (a0, a1) = words[0];
    let (b0, b1) = words[1];
    let unit_text = crate::text::string_of_range(&v, b0, b1);
    let upper = str_to_uppercase(unit_text.as_str());
    assert(upper@ == upper_text(unit_text@));
    match unit_multiplier_exec(upper.as_str()) {
        None => None,
        Some(m) => {
            let w = sub_vec(&v, a0, a1);
            float_times(&w, m)
        },
    }
}

/// Parse a spill size such as `"1.5 GB"` or `"0.000 B"` to bytes (same reading as
/// [`parse_bytes`]).
pub fn parse_spill_bytes(s: &str) -> (r: Option<u64>)
    ensures
        r == spec_parse_bytes(s@),
{
    parse_bytes(s)
}

// ---------------------------------------------------------------------------
// Durations
// ---------------------------------------------------------------------------

/// A run of digits and dots, read as a number: `Some(Some(d))` for a number,
/// `Some(None)` when the run is not a number (it then counts as zero), and `None`
/// for a number that needs more than nine fractional digits or 64 bits of digits.
pub open spec fn buf_value(buf: Seq<char>) -> Option<Option<Dec>> {
    match spec_parse_unsigned(buf) {
        Some(d) => Some(Some(d)),
        None => if number_syntax(buf) {
            None
        } else {
            Some(None)
        },
    }
}

/// Digits with at most one dot and at least one digit.
pub open spec fn number_syntax(buf: Seq<char>) -> bool {
    &&& exists|i: int| 0 <= i < buf.len() && is_digit(#[trigger] buf[i])
    &&& forall|i: int, j: int|
        0 <= i < j < buf.len() && #[trigger] buf[i] == '.' ==> #[trigger] buf[j] != '.'
}

/// Length of a unit in units of `1e-15` ms, for the unit that starts at `i`;
/// `(consumed characters, Some(factor))` for a recognised unit.
pub open spec fn unit_at(cs: Seq<char>, i: int, fine: bool) -> (int, Option<nat>) {
    let c = cs[i];
    let next_s = i + 1 < cs.len() && cs[i + 1] == 's';
    if c == 'h' {
        (1, Some(3_600_000_000_000_000_000_000))
    } else if c == 'm' {
        if next_s {
            (2, Some(1_000_000_000_000_000))
        } else {
            (1, Some(60_000_000_000_000_000_000))
        }
    } else if c == 's' {
        (1, Some(1_000_000_000_000_000_000))
    } else if fine && c == 'u' && next_s {
        (2, Some(1_000_000_000_000))
    } else if fine && c == 'n' && next_s {
        (2, Some(1_000_000_000))
    } else {
        (1, None)
    }
}

pub open spec fn term_value(v: Option<Dec>, factor: nat) -> nat {
    match v {
        Some(d) => ((d.mant as nat) * (factor / d.den())) as nat,
        None => 0,
    }
}

pub const MAX_U128: u128 = 0xffff_ffff_ffff_ffff_ffff_ffff_ffff_ffff;

/// Scan of a duration text from position `i`: the total so far (in `1e-15` ms),
/// whether a unit was seen, and the pending digits; `fine` says whether `us` and
/// `ns` count as units. `None` when the total cannot be held exactly in 128 bits.
pub open spec fn dur_scan(cs: Seq<char>, i: int, buf: Seq<char>, total: nat, found: bool, fine: bool) -> Option<
    (nat, bool),
>
    decreases cs.len() - i,
{
    if i >= cs.len() || i < 0 {
        Some((total, found))
    } else {
        let c = cs[i];
        if is_digit(c) || c == '.' {
            dur_scan(cs, i + 1, buf.push(c), total, found, fine)
        } else {
            match buf_value(buf) {
                None => None,
                Some(v) => {
                    let (step, f) = unit_at(cs, i, fine);
                    match f {
                        None => dur_scan(cs, i + step, Seq::empty(), total, found, fine),
                        Some(factor) => {
                            let nt = total + term_value(v, factor);
                            if nt > MAX_U128 {
                                None
                            } else {
                                dur_scan(cs, i + step, Seq::empty(), nt, true, fine)
                            }
                        },
                    }
                },
            }
        }
    }
}

/// `t / 10^e` with trailing zero digits removed from `t` while `e > 0`.
pub open spec fn strip_zeros(t: nat, e: nat) -> (nat, nat)
    decreases e,
{
    if e > 0 && t % 10 == 0 {
        strip_zeros(t / 10, (e - 1) as nat)
    } else {
        (t, e)
    }
}

/// The exact quantity `t * 1e-15`, when it has at most nine fractional digits and
/// 64 bits of digits.
pub open spec fn dec_of_femto(t: nat) -> Option<Dec> {
    let (m, e) = strip_zeros(t, 15);
    if e > 9 || m > 0xffff_ffff_ffff_ffff {
        None
    } else {
        Some(Dec { mant: m as u64, exp: e as u32 })
    }
}

/// A duration text in milliseconds: each number is followed by its unit (`h`, `m`,
/// `s`, `ms`, and with `fine` also `us`, `ns`); a number followed by anything else
/// is dropped; at least one unit must occur.
pub open spec fn spec_scan_duration(s: Seq<char>, fine: bool) -> Option<Dec> {
    let t = trim_seq(s);
    if t.len() == 0 {
        None
    } else {
        match dur_scan(t, 0, Seq::empty(), 0, false, fine) {
            None => None,
            Some((total, found)) => if found {
                dec_of_femto(total)
            } else {
                None
            },
        }
    }
}

/// A duration text such as `"1s727ms"` or `"538.833us"` in milliseconds
/// (units `h`, `m`, `s`, `ms`, `us`, `ns`).
pub open spec fn spec_parse_duration_ms(s: Seq<char>) -> Option<Dec> {
    spec_scan_duration(s, true)
}

/// A total-time text such as `"1h30m5s"` or `"1s30ms"` in milliseconds (units `h`,
/// `m`, `s`, `ms`; a `u` or `n` is skipped like any other character).
pub open spec fn spec_parse_total_time_ms(s: Seq<char>) -> Option<Dec> {
    spec_scan_duration(s, false)
}

fn number_syntax_exec(v: &Vec<char>, lo: usize, hi: usize) -> (b: bool)
    requires
        lo <= hi <= v.len(),
    ensures
        b == number_syntax(v@.subrange(lo as int, hi as int)),
{
    let ghost s = v@.subrange(lo as int, hi as int);
    let mut digit = false;
    let mut dot: Option<usize> = None;
    let mut i = lo;
    while i < hi
        invariant
            lo <= i <= hi <= v.len(),
            s == v@.subrange(lo as int, hi as int),
            digit == exists|k: int| lo <= k < i && is_digit(#[trigger] v@[k]),
            dot matches Some(p) ==> lo <= p < i && v@[p as int] == '.',
            dot is None ==> forall|k: int| lo <= k < i ==> v@[k] != '.',
            forall|a: int, b: int| lo <= a < b < i && v@[a] == '.' ==> v@[b] != '.',
        decreases hi - i,
    {
        let c = v[i];
        if c == '.' {
            if dot.is_some() {
                proof {
                    let p = dot.unwrap();
                    assert(s[p - lo] == '.' && s[i - lo] == '.');
                }
                return false;
            }
            dot = Some(i);
        }
        if '0' <= c && c <= '9' {
            digit = true;
        }
        i = i + 1;
    }
    proof {
        if digit {
            let k = choose|k: int| lo <= k < i && is_digit(#[trigger] v@[k]);
            assert(s[k - lo] == v@[k]);
        } else {
            assert forall|k: int| 0 <= k < s.len() implies !is_digit(#[trigger] s[k]) by {
                assert(s[k] == v@[lo + k]);
            }
        }
        assert forall|a: int, b: int|
            0 <= a < b < s.len() && #[trigger] s[a] == '.' implies #[trigger] s[b] != '.' by {
            assert(s[a] == v@[lo + a]);
            assert(s[b] == v@[lo + b]);
        }
    }
    digit
}

/// Parse a duration such as `"9m41s"`, `"1s727ms"` or `"456ns"` to milliseconds.
pub fn parse_duration_ms(s: &str) -> (r: Option<Dec>)
    ensures
        r == spec_parse_duration_ms(s@),
        r matches Some(d) ==> d.wf(),
{
    scan_duration(s, true)
}

/// Parse a query total time such as `"1h30m5s"` or `"1s30ms"` to milliseconds.
pub fn parse_total_time_ms(s: &str) -> (r: Option<Dec>)
    ensures
        r == spec_parse_total_time_ms(s@),
        r matches Some(d) ==> d.wf(),
{
    scan_duration(s, false)
}

fn scan_duration(s: &str, fine: bool) -> (r: Option<Dec>)
    ensures
        r == spec_scan_duration(s@, fine),
        r matches Some(d) ==> d.wf(),
{
    let t = str_trim(s);
    let cs = chars_of(t);
    if cs.len() == 0 {
        return None;
    }
    let mut total: u128 = 0;
    let mut found = false;
    let mut buf_lo: usize = 0;
    let mut i: usize = 0;
    proof {
        assert(cs@.subrange(0, 0) =~= Seq::<char>::empty());
    }
    while i < cs.len()
        invariant
            i <= cs.len(),
            buf_lo <= i,
            cs@ == trim_seq(s@),
            dur_scan(cs@, i as int, cs@.subrange(buf_lo as int, i as int), total as nat, found, fine)
                == dur_scan(cs@, 0, Seq::empty(), 0, false, fine),
            forall|k: int| buf_lo <= k < i ==> is_digit(#[trigger] cs@[k]) || cs@[k] == '.',
        decreases cs.len() - i,
    {
        let c = cs[i];
        let ghost buf = cs@.subrange(buf_lo as int, i as int);
        if ('0' <= c && c <= '9') || c == '.' {
            proof {
                assert(cs@.subrange(buf_lo as int, i + 1) =~= buf.push(c));
            }
            i = i + 1;
        } else {
            // value of the pending digits
            let parsed = parse_unsigned_range(&cs, buf_lo, i);
            let value: Option<Dec> = match parsed {
                Some(d) => Some(d),
                None => {
                    if number_syntax_exec(&cs, buf_lo, i) {
                        return None;
                    }
                    None
                },
            };
            // unit
            let next_s = i + 1 < cs.len() && cs[i + 1] == 's';
            let (step, factor): (usize, Option<u128>) = if c == 'h' {
                (1, Some(3_600_000_000_000_000_000_000u128))
            } else if c == 'm' {
                if next_s {
                    (2, Some(1_000_000_000_000_000u128))
                } else {
                    (1, Some(60_000_000_000_000_000_000u128))
                }
            } else if c == 's' {
                (1, Some(1_000_000_000_000_000_000u128))
            } else if fine && c == 'u' && next_s {
                (2, Some(1_000_000_000_000u128))
            } else if fine && c == 'n' && next_s {
                (2, Some(1_000_000_000u128))
            } else {
                (1, None)
            };
            proof {
                assert(unit_at(cs@, i as int, fine).0 == step as int);
            }
            match factor {
                None => {},
                Some(f) => {
                    let term: u128 = match value {
                        Some(d) => {
                            proof {
                                lemma_pow10_le(d.exp as nat);
                            }
                            let den = pow10_exec(d.exp) as u128;
                            let per = f / den;
                            if per > 0 && (d.mant as u128) > MAX_U128 / per {
                                proof {
                                    assert((d.mant as u128) * per > MAX_U128) by (nonlinear_arith)
                                        requires
                                            per > 0,
                                            (d.mant as u128) > MAX_U128 / per,
                                    ;
                                    assert(term_value(value, f as nat) > MAX_U128);
                                }
                                return None;
                            }
                            assert((d.mant as u128) * per <= MAX_U128) by (nonlinear_arith)
                                requires
                                    per == 0 || (d.mant as u128) <= MAX_U128 / per,
                            ;
                            (d.mant as u128) * per
                        },
                        None => 0,
                    };
                    if total > MAX_U128 - term {
                        return None;
                    }
                    total = total + term;
                    found = true;
                },
            }
            i = i + step;
            buf_lo = i;
            proof {
                assert(cs@.subrange(buf_lo as int, i as int) =~= Seq::<char>::empty());
            }
        }
    }
    // strip zeros
    let mut m = total;
    let mut e: u32 = 15;
    while e > 0 && m % 10 == 0
        invariant
            e <= 15,
            strip_zeros(m as nat, e as nat) == strip_zeros(total as nat, 15),
        decreases e,
    {
        m = m / 10;
        e = e - 1;
    }
    if !found || e > 9 || m > 0xffff_ffff_ffff_ffffu128 {
        return None;
    }
    Some(Dec { mant: m as u64, exp: e })
}

// ---------------------------------------------------------------------------
// Metric values
// ---------------------------------------------------------------------------

/// Leading run of digits, dots and minus signs.
pub open spec fn numeric_prefix_len(s: Seq<char>) -> nat
    decreases s.len(),
{
    if s.len() > 0 && (is_digit(s[0]) || s[0] == '.' || s[0] == '-') {
        1 + numeric_prefix_len(s.drop_first())
    } else {
        0
    }
}

/// `s` with every trailing `%` removed.
pub open spec fn trim_percent(s: Seq<char>) -> Seq<char>
    decreases s.len(),
{
    if s.len() > 0 && s.last() == '%' {
        trim_percent(s.drop_last())
    } else {
        s
    }
}

/// A non-negative number, possibly with a leading `+`.
pub open spec fn spec_parse_plain(s: Seq<char>) -> Option<Dec> {
    match spec_parse_signed(s) {
        Some((false, d)) => Some(d),
        _ => None,
    }
}

/// A metric reading as a number: a percentage (`"12.5%"`), a size in bytes
/// (`"1.5 GB"`), a duration in ms (`"1s500ms"`), or the number at the start of the
/// text (`"1234 rows"`). Readings that denote a negative number are not held.
pub open spec fn spec_parse_metric_value(value: Seq<char>) -> Option<Dec> {
    let s = trim_seq(value);
    if s.len() > 0 && s.last() == '%' {
        spec_parse_plain(trim_percent(s))
    } else {
        match spec_parse_bytes(s) {
            Some(b) => Some(Dec { mant: b, exp: 0 }),
            None => match spec_parse_duration_ms(s) {
                Some(ms) => Some(ms),
                None => spec_parse_plain(s.subrange(0, numeric_prefix_len(s) as int)),
            },
        }
    }
}

proof fn lemma_trim_idem(s: Seq<char>)
    ensures
        trim_seq(trim_seq(s)) == trim_seq(s),
{
    lemma_trim_start_idem(s);
    let a = crate::text::trim_start_seq(s);
    lemma_trim_end_keeps_start(a);
    lemma_trim_end_idem(a);
}

proof fn lemma_trim_start_idem(s: Seq<char>)
    ensures
        crate::text::trim_start_seq(crate::text::trim_start_seq(s)) == crate::text::trim_start_seq(s),
        crate::text::trim_start_seq(s).len() == 0 || !is_ws(crate::text::trim_start_seq(s)[0]),
    decreases s.len(),
{
    if s.len() > 0 && is_ws(s[0]) {
        lemma_trim_start_idem(s.drop_first());
    }
}

proof fn lemma_trim_end_idem(s: Seq<char>)
    ensures
        crate::text::trim_end_seq(crate::text::trim_end_seq(s)) == crate::text::trim_end_seq(s),
        crate::text::trim_end_seq(s).len() == 0 || !is_ws(crate::text::trim_end_seq(s).last()),
    decreases s.len(),
{
    if s.len() > 0 && is_ws(s.last()) {
        lemma_trim_end_idem(s.drop_last());
    }
}

proof fn lemma_trim_end_keeps_start(s: Seq<char>)
    requires
        s.len() == 0 || !is_ws(s[0]),
    ensures
        crate::text::trim_start_seq(crate::text::trim_end_seq(s)) == crate::text::trim_end_seq(s),
        crate::text::trim_end_seq(s).len() == 0 || !is_ws(crate::text::trim_end_seq(s)[0]),
    decreases s.len(),
{
    if s.len() > 0 && is_ws(s.last()) {
        let t = s.drop_last();
        if t.len() > 0 {
            assert(t[0] == s[0]);
        }
        lemma_trim_end_keeps_start(t);
    }
}

/// Parse a metric reading to a number.
pub fn parse_metric_value(value: &str) -> (r: Option<Dec>)
    ensures
        r == spec_parse_metric_value(value@),
        r matches Some(d) ==> d.wf(),
{
    let s = str_trim(value);
    proof {
        lemma_trim_idem(value@);
    }
    let cs = chars_of(s);
    if cs.len() > 0 && cs[cs.len() - 1] == '%' {
        let mut hi = cs.len();
        assert(cs@.subrange(0, hi as int) =~= cs@);
        while hi > 0 && cs[hi - 1] == '%'
            invariant
                hi <= cs.len(),
                trim_percent(cs@.subrange(0, hi as int)) == trim_percent(cs@),
            decreases hi,
        {
            proof {
                assert(cs@.subrange(0, hi as int).drop_last() =~= cs@.subrange(0, hi - 1));
            }
            hi = hi - 1;
        }
        proof {
            assert(cs@.subrange(0, cs@.len() as int) =~= cs@);
            assert(trim_percent(cs@.subrange(0, hi as int)) == cs@.subrange(0, hi as int));
        }
        return match parse_signed_range(&cs, 0, hi) {
            Some((false, d)) => Some(d),
            _ => None,
        };
    }
    match parse_bytes(s) {
        Some(b) => {
            return Some(Dec { mant: b, exp: 0 });
        },
        None => {},
    }
    match parse_duration_ms(s) {
        Some(ms) => {
            return Some(ms);
        },
        None => {},
    }
    let mut k: usize = 0;
    assert(cs@.skip(0) =~= cs@);
    while k < cs.len() && (('0' <= cs[k] && cs[k] <= '9') || cs[k] == '.' || cs[k] == '-')
        invariant
            k <= cs.len(),
            numeric_prefix_len(cs@) == k + numeric_prefix_len(cs@.skip(k as int)),
        decreases cs.len() - k,
    {
        proof {
            assert(cs@.skip(k as int).drop_first() =~= cs@.skip(k + 1));
        }
        k = k + 1;
    }
    proof {
        assert(cs@.skip(0) =~= cs@);
        if k < cs.len() {
            assert(cs@.skip(k as int)[0] == cs@[k as int]);
        }
        assert(numeric_prefix_len(cs@.skip(k as int)) == 0);
    }
    match parse_signed_range(&cs, 0, k) {
        Some((false, d)) => Some(d),
        _ => None,
    }
}

// ---------------------------------------------------------------------------
// Human-readable forms
// ---------------------------------------------------------------------------

/// Index of the unit `format_bytes` picks: the largest power of 1024 (up to TB)
/// not above `bytes`.
pub open spec fn bytes_unit_index(bytes: nat) -> nat {
    if bytes >= 1024 * 1024 * 1024 * 1024 {
        4
    } else if bytes >= 1024 * 1024 * 1024 {
        3
    } else if bytes >= 1024 * 1024 {
        2
    } else if bytes >= 1024 {
        1
    } else {
        0
    }
}

pub open spec fn pow1024(k: nat) -> nat
    decreases k,
{
    if k == 0 {
        1
    } else {
        1024 * pow1024((k - 1) as nat)
    }
}

pub open spec fn bytes_unit_name(k: nat) -> Seq<char> {
    if k == 0 {
        "B"@
    } else if k == 1 {
        "KB"@
    } else if k == 2 {
        "MB"@
    } else if k == 3 {
        "GB"@
    } else {
        "TB"@
    }
}

/// `"<bytes / 1024^k with two decimals> <unit>"`.
pub open spec fn spec_format_bytes(bytes: nat) -> Seq<char> {
    let k = bytes_unit_index(bytes);
    fixed_str(bytes, pow1024(k), 2) + " "@ + bytes_unit_name(k)
}

/// Append the text `t` to `s`.
pub fn push_str(s: &mut String, t: &str)
    ensures
        final(s)@ == old(s)@ + t@,
{
    let v = chars_of(t);
    let mut i: usize = 0;
    let ghost base = s@;
    while i < v.len()
        invariant
            i <= v.len(),
            v@ == t@,
            s@ == base + v@.subrange(0, i as int),
        decreases v.len() - i,
    {
        string_push(s, v[i]);
        i = i + 1;
        assert(s@ =~= base + v@.subrange(0, i as int));
    }
    assert(v@.subrange(0, v@.len() as int) =~= v@);
}

/// Format a byte count as `"1.50 GB"`.
pub fn format_bytes(bytes: u64) -> (s: String)
    ensures
        s@ == spec_format_bytes(bytes as nat),
{
    let (den, name): (u128, &str) = if bytes >= 1024 * 1024 * 1024 * 1024 {
        (1024 * 1024 * 1024 * 1024, "TB")
    } else if bytes >= 1024 * 1024 * 1024 {
        (1024 * 1024 * 1024, "GB")
    } else if bytes >= 1024 * 1024 {
        (1024 * 1024, "MB")
    } else if bytes >= 1024 {
        (1024, "KB")
    } else {
        (1, "B")
    };
    proof {
        reveal_with_fuel(pow1024, 5);
    }
    let mut s = format_fixed(bytes as u128, den, 2);
    push_str(&mut s, " ");
    push_str(&mut s, name);
    s
}

// ---------------------------------------------------------------------------
// Sizes read back
// ---------------------------------------------------------------------------

proof fn lemma_two_words(a: Seq<char>, b: Seq<char>)
    requires
        a.len() > 0,
        b.len() > 0,
        forall|i: int| 0 <= i < a.len() ==> !is_ws(#[trigger] a[i]),
        forall|i: int| 0 <= i < b.len() ==> !is_ws(#[trigger] b[i]),
    ensures
        ws_words(a + seq![' '] + b) == seq![a, b],
{
    let s = a + seq![' '] + b;
    assert forall|i: int| 0 <= i < a.len() implies !is_ws(#[trigger] s[i]) by {
        assert(s[i] == a[i]);
    }
    assert(s[a.len() as int] == ' ');
    lemma_word_len_of(s, a.len());
    assert(s.subrange(0, a.len() as int) =~= a);
    let t = s.skip(a.len() as int);
    assert(t =~= seq![' '] + b);
    assert(t.drop_first() =~= b);
    lemma_word_len_of(b, b.len());
    assert(b.subrange(0, b.len() as int) =~= b);
    assert(b.skip(b.len() as int) =~= Seq::<char>::empty());
    assert(ws_words(Seq::<char>::empty()) == Seq::<Seq<char>>::empty());
    assert(ws_words(b) =~= seq![b]);
    assert(ws_words(t) == ws_words(b));
    assert(ws_words(s) =~= seq![a] + ws_words(t));
}

proof fn lemma_unit_reads(i: nat)
    requires
        i <= 4,
    ensures
        bytes_unit_name(i).len() > 0,
        forall|q: int| 0 <= q < bytes_unit_name(i).len() ==> 'A' <= #[trigger] bytes_unit_name(i)[q] <= 'Z',
        unit_multiplier(upper_text(bytes_unit_name(i))) == Some(pow1024(i)),
{
    reveal_with_fuel(pow1024, 5);
    reveal_strlit("B");
    reveal_strlit("K");
    reveal_strlit("M");
    reveal_strlit("G");
    reveal_strlit("T");
    reveal_strlit("KB");
    reveal_strlit("MB");
    reveal_strlit("GB");
    reveal_strlit("TB");
    let u = bytes_unit_name(i);
    assert forall|q: int| 0 <= q < u.len() implies is_ascii_char(#[trigger] u[q]) by {}
    assert(u.map_values(|c: char| ascii_upper(c)) =~= u);
    assert(upper_text(u) == u);
    if i == 0 {
        assert(u == "B"@);
    } else if i == 1 {
        assert(u == "KB"@);
        assert(u != "B"@);
    } else if i == 2 {
        assert(u == "MB"@);
        assert(u[0] != "KB"@[0]);
    } else if i == 3 {
        assert(u == "GB"@);
        assert(u[0] != "KB"@[0] && u[0] != "MB"@[0]);
    } else {
        assert(u == "TB"@);
        assert(u[0] != "KB"@[0] && u[0] != "MB"@[0] && u[0] != "GB"@[0]);
    }
}

proof fn lemma_round_trip_at(k: nat, i: nat)
    requires
        k < 1024,
        i <= 4,
        bytes_unit_index(k * pow1024(i)) == i,
    ensures
        spec_parse_bytes(spec_format_bytes(k * pow1024(i))) == Some((k * pow1024(i)) as u64),
{
    reveal_with_fuel(pow1024, 5);
    reveal_with_fuel(pow10, 3);
    let p = pow1024(i);
    let n = k * p;
    assert(p > 0 && p <= 1024 * 1024 * 1024 * 1024);
    assert(n < 0xffff_ffff_ffff_ffff) by (nonlinear_arith)
        requires
            k < 1024,
            p <= 1024 * 1024 * 1024 * 1024,
            n == k * p,
    ;
    // The written number: `k.00`.
    assert(n * 100 == p * (100 * k)) by (nonlinear_arith)
        requires
            n == k * p,
    ;
    vstd::arithmetic::div_mod::lemma_div_multiples_vanish((100 * k) as int, p as int);
    vstd::arithmetic::div_mod::lemma_mod_multiples_vanish((100 * k) as int, 0, p as int);
    assert((n * 100) / p == 100 * k);
    assert((n * 100) % p == 0);
    assert(pow10(2) == 100);
    let r = round_half_even(n * pow10(2), p);
    assert(r == 100 * k);
    assert(r / 100 == k);
    assert(r % 100 == 0);
    let d = dec_str(k);
    assert(dec_str(0) =~= seq!['0']);
    lemma_zero_pad(seq!['0'], 2);
    assert(zeros(1) + seq!['0'] =~= seq!['0', '0']);
    assert(zero_pad(dec_str(0), 2) == seq!['0', '0']);
    assert(fixed_str(n, p, 2) == dec_str(r / pow10(2)) + seq!['.'] + zero_pad(dec_str(r % pow10(2)), 2));
    assert(fixed_str(n, p, 2) == d + seq!['.'] + seq!['0', '0']);
    let num = d + seq!['.', '0', '0'];
    let u = bytes_unit_name(i);
    let s = num + seq![' '] + u;
    reveal_strlit(" ");
    assert(spec_format_bytes(n) =~= s);
    lemma_dec_str_digits(k);
    lemma_unit_reads(i);
    // Trimming keeps it.
    assert(is_digit(s[0]));
    assert(trim_start_seq(s) == s);
    assert(s.last() == u.last());
    assert(trim_end_seq(s) == s);
    assert(trim_seq(s) == s);
    // Two words.
    assert forall|q: int| 0 <= q < num.len() implies !is_ws(#[trigger] num[q]) by {
        if q < d.len() {
            assert(num[q] == d[q]);
            assert(is_digit(d[q]));
        }
    }
    assert forall|q: int| 0 <= q < u.len() implies !is_ws(#[trigger] u[q]) by {
        assert('A' <= u[q] <= 'Z');
    }
    lemma_two_words(num, u);
    assert(ws_words(trim_seq(s)) == seq![num, u]);
    // The number reads as `100 k` hundredths.
    assert(num[0] == d[0]);
    assert(is_digit(d[0]));
    lemma_first_dot_props(num);
    assert forall|q: int| 0 <= q < d.len() implies #[trigger] num[q] != '.' by {
        assert(num[q] == d[q]);
        assert(is_digit(d[q]));
    }
    assert(num[d.len() as int] == '.');
    assert(first_dot(num) == d.len());
    assert(num.subrange(0, d.len() as int) =~= d);
    assert(num.subrange(d.len() as int + 1, num.len() as int) =~= seq!['0', '0']);
    assert(all_digits(seq!['0', '0']));
    assert(d + seq!['0', '0'] =~= d.push('0').push('0'));
    lemma_digits_val_push(d, '0');
    lemma_digits_val_push(d.push('0'), '0');
    assert(digits_val(d + seq!['0', '0']) == 100 * k);
    // No sign, no special word, no exponent.
    assert(unsigned_part(num) == num);
    assert(lower_ascii(num)[0] == num[0]);
    assert(lower_ascii(num) != seq!['i', 'n', 'f']);
    assert(lower_ascii(num) != seq!['i', 'n', 'f', 'i', 'n', 'i', 't', 'y']);
    assert(lower_ascii(num) != seq!['n', 'a', 'n']);
    lemma_first_exp_props(num);
    assert forall|q: int| 0 <= q < num.len() implies #[trigger] num[q] != 'e' && num[q] != 'E' by {
        if q < d.len() {
            assert(num[q] == d[q]);
            assert(is_digit(d[q]));
        }
    }
    assert(first_exp(num) == num.len());
    assert(num.subrange(0, num.len() as int) =~= num);
    assert(int_part(num) =~= d);
    assert(frac_part(num) =~= seq!['0', '0']);
    assert(spec_float_body(num) == Some((d + seq!['0', '0'], 0 - 2)));
    assert(spec_parse_float(num) == Some(FloatText::Finite { neg: false, digits: d + seq!['0', '0'], shift: -2 }));
    // And the unit scales it back.
    assert(100 * k * p == 100 * n) by (nonlinear_arith)
        requires
            n == k * p,
    ;
    vstd::arithmetic::div_mod::lemma_div_multiples_vanish(n as int, 100);
    assert(((100 * k) * p / 100) as nat == n);
    assert(scaled(100 * k * p, -2) == n);
}

/// Law of sizes: a whole number (below 1024) of bytes, KB, MB, GB or TB, written by
/// `format_bytes`, reads back with `parse_bytes` as the same number of bytes.
pub proof fn lemma_bytes_round_trip(k: nat, j: nat)
    requires
        k < 1024,
        j <= 4,
    ensures
        spec_parse_bytes(spec_format_bytes(k * pow1024(j))) == Some((k * pow1024(j)) as u64),
{
    reveal_with_fuel(pow1024, 5);
    if k == 0 {
        assert(k * pow1024(j) == 0);
        assert(0 * pow1024(0) == 0);
        lemma_round_trip_at(0, 0);
    } else {
        assert(bytes_unit_index(k * pow1024(j)) == j) by (nonlinear_arith)
            requires
                1 <= k < 1024,
                j <= 4,
                pow1024(j) == (if j == 0 {
                    1
                } else if j == 1 {
                    1024
                } else if j == 2 {
                    1024 * 1024
                } else if j == 3 {
                    1024 * 1024 * 1024
                } else {
                    1024 * 1024 * 1024 * 1024nat
                }),
        ;
        lemma_round_trip_at(k, j);
    }
}

} // verus!
