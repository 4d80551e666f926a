//! Exact decimal quantities.
//!
//! Profile readings such as `1.5 GB`, `538.833us` or `99.84%` are decimal texts.
//! They are held exactly as `mant / 10^exp`, and every threshold test of the
//! rule engine is an exact comparison between such quantities.
use vstd::prelude::*;
use crate::text::{is_digit, string_push};

verus! {

pub open spec fn pow10(e: nat) -> nat
    decreases e,
{
    if e == 0 {
        1
    } else {
        10 * pow10((e - 1) as nat)
    }
}

pub proof fn lemma_pow10_pos(e: nat)
    ensures
        pow10(e) >= 1,
    decreases e,
{
    if e > 0 {
        lemma_pow10_pos((e - 1) as nat);
    }
}

pub proof fn lemma_pow10_le(e: nat)
    requires
        e <= 9,
    ensures
        1 <= pow10(e) <= 1_000_000_000,
{
    reveal_with_fuel(pow10, 10);
}

pub proof fn lemma_pow10_add(a: nat, b: nat)
    ensures
        pow10(a + b) == pow10(a) * pow10(b),
    decreases a,
{
    if a == 0 {
        assert(pow10(0) == 1);
        assert(a + b == b);
    } else {
        lemma_pow10_add((a - 1) as nat, b);
        assert((a + b) as nat - 1 == (a - 1 + b) as nat);
        assert(pow10(a + b) == 10 * pow10((a - 1 + b) as nat));
        assert(10 * (pow10((a - 1) as nat) * pow10(b)) == (10 * pow10((a - 1) as nat)) * pow10(b))
            by (nonlinear_arith);
    }
}

pub proof fn lemma_pow10_mono(a: nat, b: nat)
    requires
        a <= b,
    ensures
        pow10(a) <= pow10(b),
    decreases b,
{
    if a < b {
        lemma_pow10_mono(a, (b - 1) as nat);
        lemma_pow10_pos((b - 1) as nat);
    }
}

/// `10^e` for `e <= 19`.
pub fn pow10_exec(e: u32) -> (r: u64)
    requires
        e <= 19,
    ensures
        r == pow10(e as nat),
{
    let mut r: u64 = 1;
    let mut i: u32 = 0;
    while i < e
        invariant
            i <= e <= 19,
            r == pow10(i as nat),
        decreases e - i,
    {
        proof {
            lemma_pow10_mono((i + 1) as nat, 19);
            assert(pow10(19) == 10_000_000_000_000_000_000) by {
                reveal_with_fuel(pow10, 20);
            }
            assert(pow10((i + 1) as nat) == 10 * pow10(i as nat));
        }
        r = r * 10;
        i = i + 1;
    }
    r
}

/// A non-negative decimal quantity `mant / 10^exp`.
#[derive(Clone, Copy, Debug, PartialEq, Eq)]
pub struct Dec {
    pub mant: u64,
    pub exp: u32,
}

impl Dec {
    /// At most nine fractional digits.
    pub open spec fn wf(self) -> bool {
        self.exp <= 9
    }

    /// The denominator `10^exp`.
    pub open spec fn den(self) -> nat {
        pow10(self.exp as nat)
    }
}

/// `q * a > p * b`, compared exactly.
pub open spec fn lin_gt(a: Dec, q: int, b: Dec, p: int) -> bool {
    a.mant * q * b.den() > b.mant * p * a.den()
}

pub open spec fn small_factor(q: u64) -> bool {
    q <= 0x100000
}

proof fn lemma_cross_bound(m: u64, q: u64, e: nat)
    requires
        small_factor(q),
        e <= 9,
    ensures
        0 <= m * q * pow10(e) < 0x1_0000_0000_0000_0000_0000_0000_0000_0000,
{
    lemma_pow10_le(e);
    let pe = pow10(e);
    assert(m * q * pe <= 0xffff_ffff_ffff_ffff * 0x100000 * 1_000_000_000) by (nonlinear_arith)
        requires
            m <= 0xffff_ffff_ffff_ffff,
            q <= 0x100000,
            pe <= 1_000_000_000,
            pe >= 1,
    ;
    assert(m * q * pe >= 0) by (nonlinear_arith)
        requires
            m >= 0,
            q >= 0,
            pe >= 1,
    ;
}

/// The exact cross product `m * q * 10^e` used by the comparisons.
fn cross(m: u64, q: u64, e: u32) -> (r: u128)
    requires
        small_factor(q),
        e <= 9,
    ensures
        r == m * q * pow10(e as nat),
{
    proof {
        lemma_cross_bound(m, q, e as nat);
        lemma_pow10_le(e as nat);
    }
    let pe = pow10_exec(e);
    assert((m as u128) * (q as u128) <= 0xffff_ffff_ffff_ffff * 0x100000) by (nonlinear_arith)
        requires
            m <= 0xffff_ffff_ffff_ffffu64,
            q <= 0x100000,
    ;
    let a: u128 = (m as u128) * (q as u128);
    proof {
        assert(a * pe == m * q * pow10(e as nat));
    }
    a * (pe as u128)
}

/// Whether `q * a > p * b`.
pub fn lin_gt_exec(a: Dec, q: u64, b: Dec, p: u64) -> (r: bool)
    requires
        a.wf(),
        b.wf(),
        small_factor(q),
        small_factor(p),
    ensures
        r == lin_gt(a, q as int, b, p as int),
{
    cross(a.mant, q, b.exp) > cross(b.mant, p, a.exp)
}

/// Value of a run of decimal digits.
pub open spec fn digits_val(s: Seq<char>) -> nat
    decreases s.len(),
{
    if s.len() == 0 {
        0
    } else {
        digits_val(s.drop_last()) * 10 + ((s.last() as u32) - ('0' as u32)) as nat
    }
}

pub open spec fn all_digits(s: Seq<char>) -> bool {
    forall|i: int| 0 <= i < s.len() ==> is_digit(#[trigger] s[i])
}

/// Position of the first `.` in `s` (or `s.len()` when there is none).
pub open spec fn first_dot(s: Seq<char>) -> int
    decreases s.len(),
{
    if s.len() == 0 {
        0
    } else if s[0] == '.' {
        0
    } else {
        1 + first_dot(s.drop_first())
    }
}

/// The unsigned decimal that `s` spells: digits, optionally one `.` and more digits,
/// with at least one digit in all. `None` for any other text, and for a value whose
/// digits do not fit 64 bits or that has more than nine fractional digits.
pub open spec fn spec_parse_unsigned(s: Seq<char>) -> Option<Dec> {
    let d = first_dot(s);
    let int_part = s.subrange(0, d);
    let frac = if d < s.len() { s.subrange(d + 1, s.len() as int) } else { Seq::<char>::empty() };
    if !all_digits(int_part) || !all_digits(frac) || int_part.len() + frac.len() == 0 {
        None
    } else if frac.len() > 9 || digits_val(int_part + frac) > 0xffff_ffff_ffff_ffff {
        None
    } else {
        Some(Dec { mant: digits_val(int_part + frac) as u64, exp: frac.len() as u32 })
    }
}

/// The decimal that `s` spells, allowing one leading `+`; the `bool` is true
/// when a leading `-` makes it negative.
pub open spec fn spec_parse_signed(s: Seq<char>) -> Option<(bool, Dec)> {
    if s.len() > 0 && s[0] == '-' {
        match spec_parse_unsigned(s.drop_first()) {
            Some(d) => Some((true, d)),
            None => None,
        }
    } else if s.len() > 0 && s[0] == '+' {
        match spec_parse_unsigned(s.drop_first()) {
            Some(d) => Some((false, d)),
            None => None,
        }
    } else {
        match spec_parse_unsigned(s) {
            Some(d) => Some((false, d)),
            None => None,
        }
    }
}

pub proof fn lemma_digits_val_push(s: Seq<char>, c: char)
    ensures
        digits_val(s.push(c)) == digits_val(s) * 10 + ((c as u32) - ('0' as u32)) as nat,
{
    assert(s.push(c).drop_last() =~= s);
}

pub proof fn lemma_digits_val_grows(s: Seq<char>, t: Seq<char>)
    requires
        all_digits(t),
    ensures
        digits_val(s + t) >= digits_val(s),
    decreases t.len(),
{
    if t.len() > 0 {
        let t0 = t.drop_last();
        assert((s + t).drop_last() =~= s + t0);
        assert forall|i: int| 0 <= i < t0.len() implies is_digit(#[trigger] t0[i]) by {
            assert(t0[i] == t[i]);
        }
        lemma_digits_val_grows(s, t0);
    }
}

pub proof fn lemma_first_dot_props(s: Seq<char>)
    ensures
        0 <= first_dot(s) <= s.len(),
        forall|i: int| 0 <= i < first_dot(s) ==> s[i] != '.',
        first_dot(s) < s.len() ==> s[first_dot(s)] == '.',
    decreases s.len(),
{
    if s.len() > 0 && s[0] != '.' {
        lemma_first_dot_props(s.drop_first());
        assert forall|i: int| 0 <= i < first_dot(s) implies s[i] != '.' by {
            if i > 0 {
                assert(s[i] == s.drop_first()[i - 1]);
            }
        }
    }
}

/// Parse `v[lo..hi]` as an unsigned decimal.
pub fn parse_unsigned_range(v: &Vec<char>, lo: usize, hi: usize) -> (r: Option<Dec>)
    requires
        lo <= hi <= v.len(),
    ensures
        r == spec_parse_unsigned(v@.subrange(lo as int, hi as int)),
        r matches Some(d) ==> d.wf(),
{
    let ghost s = v@.subrange(lo as int, hi as int);
    proof {
        lemma_first_dot_props(s);
    }
    // locate the dot
    let mut d = lo;
    while d < hi && v[d] != '.'
        invariant
            lo <= d <= hi <= v.len(),
            forall|i: int| lo <= i < d ==> v@[i] != '.',
            s == v@.subrange(lo as int, hi as int),
        decreases hi - d,
    {
        d = d + 1;
    }
    proof {
        lemma_first_dot_props(s);
        let fd = first_dot(s);
        if fd < d - lo {
            assert(s[fd] == v@[lo + fd]);
        }
        if d < hi {
            assert(s[d - lo] == '.');
        }
        assert(first_dot(s) == d - lo);
    }
    let ghost int_part = s.subrange(0, (d - lo) as int);
    let ghost frac = if d < hi { s.subrange((d - lo) + 1, s.len() as int) } else { Seq::<char>::empty() };
    let frac_lo = if d < hi { d + 1 } else { hi };
    proof {
        assert(int_part =~= v@.subrange(lo as int, d as int));
        assert(frac =~= v@.subrange(frac_lo as int, hi as int));
    }
    if (d - lo) + (hi - frac_lo) == 0 {
        return None;
    }
    // accumulate all digits of int_part then frac
    let ghost all = int_part + frac;
    let mut mant: u64 = 0;
    let mut i = lo;
    let mut overflow = false;
    // integer part
    while i < d
        invariant
            lo <= i <= d <= hi <= v.len(),
            int_part =~= v@.subrange(lo as int, d as int),
            !overflow ==> mant == digits_val(v@.subrange(lo as int, i as int)),
            !overflow ==> all_digits(v@.subrange(lo as int, i as int)),
            overflow ==> (!all_digits(int_part) || digits_val(v@.subrange(lo as int, i as int)) > 0xffff_ffff_ffff_ffff),
        decreases d - i,
    {
        let c = v[i];
        proof {
            assert(v@.subrange(lo as int, i + 1) =~= v@.subrange(lo as int, i as int).push(c));
        }
        if !overflow {
            if c < '0' || c > '9' {
                proof {
                    assert(int_part[i - lo] == c);
                }
                overflow = true;
            } else {
                let dv = (c as u32 - '0' as u32) as u64;
                proof {
                    lemma_digits_val_push(v@.subrange(lo as int, i as int), c);
                }
                if mant > (0xffff_ffff_ffff_ffffu64 - dv) / 10 {
                    proof {
                        lemma_over(mant, dv);
                    }
                    overflow = true;
                } else {
                    mant = mant * 10 + dv;
                }
                proof {
                    let nxt = v@.subrange(lo as int, i + 1);
                    assert forall|k: int| 0 <= k < nxt.len() implies is_digit(#[trigger] nxt[k]) by {
                        if k < i - lo {
                            assert(nxt[k] == v@.subrange(lo as int, i as int)[k]);
                        }
                    }
                }
            }
        } else {
            proof {
                let cur = v@.subrange(lo as int, i as int);
                if all_digits(int_part) {
                    let t = seq![c];
                    assert(is_digit(int_part[i - lo]));
                    assert(all_digits(t));
                    assert(cur + t =~= v@.subrange(lo as int, i + 1));
                    lemma_digits_val_grows(cur, t);
                } else {
                }
            }
        }
        i = i + 1;
    }
    if overflow {
        proof {
            if all_digits(int_part) {
                assert(v@.subrange(lo as int, d as int) =~= int_part);
                assert(all_digits(frac) ==> digits_val(all) > 0xffff_ffff_ffff_ffff) by {
                    if all_digits(frac) {
                        lemma_digits_val_grows(int_part, frac);
                    }
                }
            }
        }
        return None;
    }
    proof {
        assert(v@.subrange(lo as int, d as int) =~= int_part);
    }
    // fractional part
    let mut j = frac_lo;
    while j < hi
        invariant
            lo <= d <= hi <= v.len(),
            frac_lo <= j <= hi,
            d <= frac_lo,
            all_digits(int_part),
            frac =~= v@.subrange(frac_lo as int, hi as int),
            !overflow ==> mant == digits_val(int_part + v@.subrange(frac_lo as int, j as int)),
            !overflow ==> all_digits(v@.subrange(frac_lo as int, j as int)),
            overflow ==> (!all_digits(frac) || digits_val(int_part + v@.subrange(frac_lo as int, j as int)) > 0xffff_ffff_ffff_ffff),
        decreases hi - j,
    {
        let c = v[j];
        let ghost cur = int_part + v@.subrange(frac_lo as int, j as int);
        proof {
            assert(int_part + v@.subrange(frac_lo as int, j + 1) =~= cur.push(c));
        }
        if !overflow {
            if c < '0' || c > '9' {
                proof {
                    assert(frac[j - frac_lo] == c);
                }
                overflow = true;
            } else {
                let dv = (c as u32 - '0' as u32) as u64;
                proof {
                    lemma_digits_val_push(cur, c);
                }
                if mant > (0xffff_ffff_ffff_ffffu64 - dv) / 10 {
                    proof {
                        lemma_over(mant, dv);
                    }
                    overflow = true;
                } else {
                    mant = mant * 10 + dv;
                }
                proof {
                    let nxt = v@.subrange(frac_lo as int, j + 1);
                    assert forall|k: int| 0 <= k < nxt.len() implies is_digit(#[trigger] nxt[k]) by {
                        if k < j - frac_lo {
                            assert(nxt[k] == v@.subrange(frac_lo as int, j as int)[k]);
                        }
                    }
                }
            }
        } else {
            proof {
                if all_digits(frac) {
                    let t = seq![c];
                    assert(is_digit(frac[j - frac_lo]));
                    assert(all_digits(t));
                    assert(cur + t =~= cur.push(c));
                    lemma_digits_val_grows(cur, t);
                }
            }
        }
        j = j + 1;
    }
    proof {
        assert(v@.subrange(frac_lo as int, hi as int) =~= frac);
    }
    if overflow || hi - frac_lo > 9 {
        return None;
    }
    Some(Dec { mant, exp: (hi - frac_lo) as u32 })
}

/// Parse `v[lo..hi]` as a decimal with an optional sign.
pub fn parse_signed_range(v: &Vec<char>, lo: usize, hi: usize) -> (r: Option<(bool, Dec)>)
    requires
        lo <= hi <= v.len(),
    ensures
        r == spec_parse_signed(v@.subrange(lo as int, hi as int)),
        r matches Some((_, d)) ==> d.wf(),
{
    let ghost s = v@.subrange(lo as int, hi as int);
    if lo < hi && (v[lo] == '-' || v[lo] == '+') {
        proof {
            assert(s.drop_first() =~= v@.subrange(lo + 1, hi as int));
        }
        let neg = v[lo] == '-';
        match parse_unsigned_range(v, lo + 1, hi) {
            Some(d) => Some((neg, d)),
            None => None,
        }
    } else {
        match parse_unsigned_range(v, lo, hi) {
            Some(d) => Some((false, d)),
            None => None,
        }
    }
}

/// Decimal digits of `n`, most significant first.
pub open spec fn dec_str(n: nat) -> Seq<char>
    decreases n,
{
    if n < 10 {
        seq![(('0' as u32) + n) as char]
    } else {
        dec_str(n / 10).push((('0' as u32) + (n % 10)) as char)
    }
}

/// `dec_str(n)` is a non-empty run of decimal digits that spells `n`.
pub proof fn lemma_dec_str_digits(n: nat)
    ensures
        dec_str(n).len() > 0,
        all_digits(dec_str(n)),
        digits_val(dec_str(n)) == n,
    decreases n,
{
    let c = (('0' as u32) + (n % 10)) as char;
    assert((c as u32) == ('0' as u32) + (n % 10));
    if n >= 10 {
        lemma_dec_str_digits(n / 10);
        let p = dec_str(n / 10);
        assert(dec_str(n) == p.push(c));
        lemma_digits_val_push(p, c);
        assert forall|i: int| 0 <= i < dec_str(n).len() implies is_digit(#[trigger] dec_str(n)[i]) by {
            if i < p.len() {
                assert(dec_str(n)[i] == p[i]);
            }
        }
    } else {
        let e = Seq::<char>::empty();
        assert(dec_str(n) =~= e.push(c));
        lemma_digits_val_push(e, c);
    }
}

/// The digits of `n`, most significant first (as `u64::to_string` writes them).
pub fn u128_to_string(n: u128) -> (s: String)
    ensures
        s@ == dec_str(n as nat),
    decreases n,
{
    if n < 10 {
        let mut s = String::new();
        string_push(&mut s, char_of_digit(n as u32));
        s
    } else {
        let mut s = u128_to_string(n / 10);
        string_push(&mut s, char_of_digit((n % 10) as u32));
        s
    }
}

fn char_of_digit(d: u32) -> (c: char)
    requires
        d < 10,
    ensures
        c == (('0' as u32) + d) as char,
{
    if d == 0 { '0' }
    else if d == 1 { '1' }
    else if d == 2 { '2' }
    else if d == 3 { '3' }
    else if d == 4 { '4' }
    else if d == 5 { '5' }
    else if d == 6 { '6' }
    else if d == 7 { '7' }
    else if d == 8 { '8' }
    else { '9' }
}

/// `d` digits: `n` left-padded with zeros to at least `width` characters.
pub open spec fn zero_pad(s: Seq<char>, width: nat) -> Seq<char>
    decreases width - s.len(),
{
    if s.len() >= width {
        s
    } else {
        zero_pad(seq!['0'] + s, width)
    }
}

proof fn lemma_over(mant: u64, dv: u64)
    requires
        dv <= 9,
        mant > (0xffff_ffff_ffff_ffffu64 - dv) / 10,
    ensures
        mant * 10 + dv > 0xffff_ffff_ffff_ffff,
{
    let m = 0xffff_ffff_ffff_ffffu64 - dv;
    assert(mant * 10 + dv > 0xffff_ffff_ffff_ffff) by (nonlinear_arith)
        requires
            mant > m / 10,
            m == 0xffff_ffff_ffff_ffffu64 - dv,
            m >= 0,
    ;
}

/// `num / den` rounded to the nearest integer, ties to even.
pub open spec fn round_half_even(num: nat, den: nat) -> nat
    recommends
        den > 0,
{
    let q = num / den;
    let r = num % den;
    if 2 * r > den || (2 * r == den && q % 2 == 1) {
        q + 1
    } else {
        q
    }
}

/// `num / den` written with `d` fractional digits, rounded half to even
/// (the way `{:.d}` writes a quantity).
pub open spec fn fixed_str(num: nat, den: nat, d: nat) -> Seq<char> {
    let r = round_half_even(num * pow10(d), den);
    if d == 0 {
        dec_str(r)
    } else {
        dec_str(r / pow10(d)) + seq!['.'] + zero_pad(dec_str(r % pow10(d)), d)
    }
}

/// Writes `num / den` with `d` fractional digits (rounded half to even).
pub fn format_fixed(num: u128, den: u128, d: u32) -> (s: String)
    requires
        den > 0,
        num < 0x40_0000_0000_0000_0000_0000_0000_0000,
        d <= 2,
    ensures
        s@ == fixed_str(num as nat, den as nat, d as nat),
{
    proof {
        lemma_pow10_le(d as nat);
    }
    let p = pow10_exec(d) as u128;
    proof {
        lemma_pow10_mono(d as nat, 2);
        reveal_with_fuel(pow10, 3);
    }
    assert(p <= 100);
    assert(num * p < 0x40_0000_0000_0000_0000_0000_0000_0000 * 100) by (nonlinear_arith)
        requires
            num < 0x40_0000_0000_0000_0000_0000_0000_0000,
            p <= 100,
    ;
    let scaled = num * p;
    let q = scaled / den;
    let r = scaled % den;
    let rounded: u128 = if r > den - r || (r == den - r && q % 2 == 1) {
        q + 1
    } else {
        q
    };
    if d == 0 {
        return u128_to_string(rounded);
    }
    let mut s = u128_to_string(rounded / p);
    string_push(&mut s, '.');
    let fracs = u128_to_string(rounded % p);
    let fv = crate::text::chars_of(fracs.as_str());
    let mut padded: Vec<char> = Vec::new();
    let mut k: usize = fv.len();
    let ghost mut cur = fv@;
    while k < d as usize
        invariant
            k >= fv.len(),
            padded@.len() + fv@.len() == k,
            padded@ + fv@ == cur,
            zero_pad(cur, d as nat) == zero_pad(fv@, d as nat),
            forall|i: int| 0 <= i < padded@.len() ==> padded@[i] == '0',
            cur.len() == k,
        decreases d as usize - k,
    {
        proof {
            assert(zero_pad(cur, d as nat) == zero_pad(seq!['0'] + cur, d as nat));
        }
        padded.push('0');
        k = k + 1;
        proof {
            cur = seq!['0'] + cur;
            assert(padded@ + fv@ =~= cur) by {
                assert(forall|i: int| 0 <= i < padded@.len() ==> padded@[i] == '0');
            }
        }
    }
    proof {
        assert(zero_pad(cur, d as nat) == cur);
    }
    let mut i: usize = 0;
    let ghost base = s@;
    while i < padded.len()
        invariant
            i <= padded.len(),
            s@ == base + padded@.subrange(0, i as int),
        decreases padded.len() - i,
    {
        string_push(&mut s, padded[i]);
        i = i + 1;
        assert(s@ =~= base + padded@.subrange(0, i as int));
    }
    let mut j: usize = 0;
    let ghost base2 = s@;
    while j < fv.len()
        invariant
            j <= fv.len(),
            s@ == base2 + fv@.subrange(0, j as int),
        decreases fv.len() - j,
    {
        string_push(&mut s, fv[j]);
        j = j + 1;
        assert(s@ =~= base2 + fv@.subrange(0, j as int));
    }
    proof {
        assert(padded@.subrange(0, padded@.len() as int) =~= padded@);
        assert(fv@.subrange(0, fv@.len() as int) =~= fv@);
        assert(s@ =~= dec_str((rounded / p) as nat) + seq!['.'] + cur);
    }
    s
}

/// `n` zero digits.
pub open spec fn zeros(n: nat) -> Seq<char> {
    Seq::new(n, |i: int| '0')
}

pub proof fn lemma_zero_pad(s: Seq<char>, width: nat)
    ensures
        zero_pad(s, width) == (if s.len() >= width {
            s
        } else {
            zeros((width - s.len()) as nat) + s
        }),
    decreases width - s.len(),
{
    if s.len() < width {
        let t = seq!['0'] + s;
        lemma_zero_pad(t, width);
        assert(zeros((width - t.len()) as nat) + t =~= zeros((width - s.len()) as nat) + s);
    }
}

/// `s` left-padded with zeros to at least `width` characters.
pub fn pad_zeros(s: &str, width: usize) -> (r: String)
    ensures
        r@ == zero_pad(s@, width as nat),
{
    proof {
        lemma_zero_pad(s@, width as nat);
    }
    let v = crate::text::chars_of(s);
    let mut r = String::new();
    let mut k = v.len();
    assert(r@ =~= zeros(0));
    while k < width
        invariant
            v@ == s@,
            v.len() <= k,
            v.len() < width ==> k <= width,
            v.len() >= width ==> k == v.len(),
            r@ == zeros((k - v.len()) as nat),
        decreases width - k,
    {
        string_push(&mut r, '0');
        assert(r@ =~= zeros((k + 1 - v.len()) as nat));
        k = k + 1;
    }
    crate::metrics::push_str(&mut r, s);
    if v.len() >= width {
        assert(zeros(0) =~= Seq::<char>::empty());
        assert(r@ =~= s@);
    } else {
        assert(r@ =~= zeros((width - s@.len()) as nat) + s@);
    }
    r
}

} // verus!
