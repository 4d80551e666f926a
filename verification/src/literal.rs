//! Floating-point literals as `f64::from_str` accepts them, read exactly: an
//! optional sign, then `inf`, `infinity` or `nan` (in any case), or digits with at
//! most one `.` and at least one digit, followed by an optional exponent (`e` or `E`,
//! an optional sign, digits). The value is kept as its digits and a power-of-ten
//! shift, so no precision is lost.
use vstd::prelude::*;
use crate::num::{all_digits, digits_val, first_dot, pow10, lemma_digits_val_push, lemma_pow10_add, lemma_pow10_mono, lemma_pow10_pos, lemma_first_dot_props};
use crate::text::{ascii_lower, is_digit};

verus! {

/// A literal: finite (sign, the digits of integer and fractional part together, and
/// the power of ten they are scaled by), infinite (with its sign), or not a number.
pub enum FloatText {
    Finite { neg: bool, digits: Seq<char>, shift: int },
    Infinite { neg: bool },
    NotANumber,
}

/// The text with ASCII letters lower-cased.
pub open spec fn lower_ascii(s: Seq<char>) -> Seq<char> {
    s.map_values(|c: char| ascii_lower(c))
}

/// Position of the first `e` or `E` (or the length, when there is none).
pub open spec fn first_exp(s: Seq<char>) -> int
    decreases s.len(),
{
    if s.len() == 0 {
        0
    } else if s[0] == 'e' || s[0] == 'E' {
        0
    } else {
        1 + first_exp(s.drop_first())
    }
}

/// An exponent: an optional sign and at least one digit.
pub open spec fn spec_exponent(s: Seq<char>) -> Option<int> {
    let neg = s.len() > 0 && s[0] == '-';
    let ds = unsigned_part(s);
    if ds.len() > 0 && all_digits(ds) {
        Some(if neg { -(digits_val(ds) as int) } else { digits_val(ds) as int })
    } else {
        None
    }
}

/// The integer part of a mantissa (before the first `.`).
pub open spec fn int_part(mant: Seq<char>) -> Seq<char> {
    mant.subrange(0, first_dot(mant))
}

/// The fractional part of a mantissa (after the first `.`, empty when there is none).
pub open spec fn frac_part(mant: Seq<char>) -> Seq<char> {
    let d = first_dot(mant);
    if d < mant.len() {
        mant.subrange(d + 1, mant.len() as int)
    } else {
        Seq::empty()
    }
}

/// An unsigned finite literal: its digits and their power-of-ten shift.
pub open spec fn spec_float_body(b: Seq<char>) -> Option<(Seq<char>, int)> {
    let p = first_exp(b);
    let mant = b.subrange(0, p);
    let ip = int_part(mant);
    let fp = frac_part(mant);
    if !all_digits(ip) || !all_digits(fp) || ip.len() + fp.len() == 0 {
        None
    } else {
        let e = if p < b.len() {
            spec_exponent(b.subrange(p + 1, b.len() as int))
        } else {
            Some(0int)
        };
        match e {
            None => None,
            Some(e) => Some((ip + fp, e - fp.len())),
        }
    }
}

/// The text after an optional leading sign.
pub open spec fn unsigned_part(w: Seq<char>) -> Seq<char> {
    if w.len() > 0 && (w[0] == '-' || w[0] == '+') {
        w.drop_first()
    } else {
        w
    }
}

/// A literal as `f64::from_str` accepts it; `None` for any other text.
pub open spec fn spec_parse_float(w: Seq<char>) -> Option<FloatText> {
    let neg = w.len() > 0 && w[0] == '-';
    let b = unsigned_part(w);
    let l = lower_ascii(b);
    if l == seq!['i', 'n', 'f'] || l == seq!['i', 'n', 'f', 'i', 'n', 'i', 't', 'y'] {
        Some(FloatText::Infinite { neg })
    } else if l == seq!['n', 'a', 'n'] {
        Some(FloatText::NotANumber)
    } else {
        match spec_float_body(b) {
            None => None,
            Some((ds, t)) => Some(FloatText::Finite { neg, digits: ds, shift: t }),
        }
    }
}

/// `x * 10^t`, rounded toward zero.
pub open spec fn scaled(x: nat, t: int) -> nat {
    if t >= 0 {
        x * pow10(t as nat)
    } else {
        x / pow10((-t) as nat)
    }
}

pub open spec fn sat_u64(x: nat) -> u64 {
    if x > 0xffff_ffff_ffff_ffff {
        0xffff_ffff_ffff_ffff
    } else {
        x as u64
    }
}

/// The literal times `m`, converted to 64 bits as `as u64` converts a float: toward
/// zero, negative values and NaN to 0, too large values (and infinity) to the
/// largest.
pub open spec fn spec_float_times(w: Seq<char>, m: nat) -> Option<u64> {
    match spec_parse_float(w) {
        None => None,
        Some(FloatText::NotANumber) => Some(0),
        Some(FloatText::Infinite { neg }) => Some(if neg { 0u64 } else { 0xffff_ffff_ffff_ffffu64 }),
        Some(FloatText::Finite { neg, digits, shift }) => Some(
            if neg { 0u64 } else { sat_u64(scaled(digits_val(digits) * m, shift)) },
        ),
    }
}

// ---------------------------------------------------------------------------
// Facts about digit runs
// ---------------------------------------------------------------------------

pub proof fn lemma_digits_val_concat(p: Seq<char>, q: Seq<char>)
    ensures
        digits_val(p + q) == digits_val(p) * pow10(q.len()) + digits_val(q),
    decreases q.len(),
{
    if q.len() == 0 {
        assert(p + q =~= p);
        assert(digits_val(q) == 0);
        assert(pow10(0) == 1);
    } else {
        let q0 = q.drop_last();
        let c = q.last();
        lemma_digits_val_concat(p, q0);
        assert(p + q =~= (p + q0).push(c));
        assert(q =~= q0.push(c));
        lemma_digits_val_push(p + q0, c);
        lemma_digits_val_push(q0, c);
        let cv = ((c as u32) - ('0' as u32)) as nat;
        let a = digits_val(p);
        let b = digits_val(q0);
        let e = pow10(q0.len());
        assert(pow10(q.len()) == 10 * e);
        assert(digits_val(p + q) == digits_val(p + q0) * 10 + cv);
        assert(digits_val(q) == b * 10 + cv);
        assert(digits_val(p + q0) == a * e + b);
        assert((a * e + b) * 10 + cv == a * (10 * e) + (b * 10 + cv)) by (nonlinear_arith);
    }
}

pub proof fn lemma_digits_val_bound(q: Seq<char>)
    requires
        all_digits(q),
    ensures
        digits_val(q) < pow10(q.len()),
    decreases q.len(),
{
    if q.len() > 0 {
        let q0 = q.drop_last();
        let c = q.last();
        assert(q =~= q0.push(c));
        assert forall|i: int| 0 <= i < q0.len() implies is_digit(#[trigger] q0[i]) by {
            assert(q0[i] == q[i]);
        }
        lemma_digits_val_bound(q0);
        lemma_digits_val_push(q0, c);
        assert(is_digit(q[q.len() - 1]));
        let cv = ((c as u32) - ('0' as u32)) as nat;
        assert(cv <= 9);
        let b = digits_val(q0);
        let e = pow10(q0.len());
        assert(b * 10 + cv < 10 * e) by (nonlinear_arith)
            requires
                b < e,
                cv <= 9,
        ;
    }
}

/// Appending one more low digit to a tail whose scaled product is known.
pub proof fn lemma_carry_step(d: nat, r: nat, m: nat, e: nat)
    requires
        e > 0,
    ensures
        ((d * e + r) * m) / (10 * e) == (d * m + (r * m) / e) / 10,
{
    let x = (d * e + r) * m;
    vstd::arithmetic::div_mod::lemma_div_denominator(x as int, e as int, 10);
    assert(e * 10 == 10 * e) by (nonlinear_arith);
    // x / e == d * m + (r * m) / e
    vstd::arithmetic::div_mod::lemma_fundamental_div_mod((r * m) as int, e as int);
    let q = (r * m) / e;
    let rem = (r * m) % e;
    assert(x == e * (d * m + q) + rem) by (nonlinear_arith)
        requires
            x == (d * e + r) * m,
            r * m == e * q + rem,
    ;
    vstd::arithmetic::div_mod::lemma_div_multiples_vanish_fancy((d * m + q) as int, rem as int, e as int);
}

/// Splitting a value at a power of ten: the high part times `m`, plus the low part's
/// scaled product.
pub proof fn lemma_split_scaled(a: nat, r: nat, m: nat, e: nat)
    requires
        e > 0,
    ensures
        ((a * e + r) * m) / e == a * m + (r * m) / e,
{
    vstd::arithmetic::div_mod::lemma_fundamental_div_mod((r * m) as int, e as int);
    let q = (r * m) / e;
    let rem = (r * m) % e;
    assert((a * e + r) * m == e * (a * m + q) + rem) by (nonlinear_arith)
        requires
            r * m == e * q + rem,
    ;
    vstd::arithmetic::div_mod::lemma_div_multiples_vanish_fancy((a * m + q) as int, rem as int, e as int);
}

// ---------------------------------------------------------------------------
// Reading a literal
// ---------------------------------------------------------------------------

/// Exponents are counted exactly up to this bound, beyond which every nonzero value
/// overflows (or vanishes).
pub const EXP_CAP: u128 = 0x10_0000_0000_0000_0000_0000_0000;

/// Values are counted exactly up to this bound, above the largest 64-bit value.
pub const VAL_CAP: u128 = 0x1_0000_0000_0000_0000;

pub open spec fn min_nat(a: nat, b: nat) -> nat {
    if a < b {
        a
    } else {
        b
    }
}

pub(crate) fn sub_vec(v: &Vec<char>, lo: usize, hi: usize) -> (r: Vec<char>)
    requires
        lo <= hi <= v.len(),
    ensures
        r@ == v@.subrange(lo as int, hi as int),
{
    let mut r: Vec<char> = Vec::new();
    let mut i = lo;
    while i < hi
        invariant
            lo <= i <= hi <= v.len(),
            r@ == v@.subrange(lo as int, i as int),
        decreases hi - i,
    {
        r.push(v[i]);
        i = i + 1;
        assert(r@ =~= v@.subrange(lo as int, i as int));
    }
    r
}

fn eq_ci(c: char, l: char) -> (b: bool)
    requires
        'a' <= l <= 'z',
    ensures
        b == (ascii_lower(c) == l),
{
    c == l || (c as u32) + 32 == (l as u32)
}

/// Whether `w`, ASCII letters lower-cased, is the lower-case word `lit`.
fn lower_matches(w: &Vec<char>, lit: &Vec<char>) -> (b: bool)
    requires
        forall|i: int| 0 <= i < lit@.len() ==> 'a' <= #[trigger] lit@[i] <= 'z',
    ensures
        b == (lower_ascii(w@) == lit@),
{
    if w.len() != lit.len() {
        return false;
    }
    let mut i: usize = 0;
    while i < w.len()
        invariant
            i <= w.len() == lit.len(),
            forall|i: int| 0 <= i < lit@.len() ==> 'a' <= #[trigger] lit@[i] <= 'z',
            forall|j: int| 0 <= j < i ==> ascii_lower(#[trigger] w@[j]) == lit@[j],
        decreases w.len() - i,
    {
        if !eq_ci(w[i], lit[i]) {
            assert(lower_ascii(w@)[i as int] != lit@[i as int]);
            return false;
        }
        i = i + 1;
    }
    assert(lower_ascii(w@) =~= lit@);
    true
}

pub proof fn lemma_first_exp_props(s: Seq<char>)
    ensures
        0 <= first_exp(s) <= s.len(),
        forall|i: int| 0 <= i < first_exp(s) ==> s[i] != 'e' && s[i] != 'E',
        first_exp(s) < s.len() ==> (s[first_exp(s)] == 'e' || s[first_exp(s)] == 'E'),
    decreases s.len(),
{
    if s.len() > 0 && s[0] != 'e' && s[0] != 'E' {
        lemma_first_exp_props(s.drop_first());
        assert forall|i: int| 0 <= i < first_exp(s) implies s[i] != 'e' && s[i] != 'E' by {
            if i > 0 {
                assert(s[i] == s.drop_first()[i - 1]);
            }
        }
    }
}

fn first_exp_exec(v: &Vec<char>) -> (r: usize)
    ensures
        r == first_exp(v@),
{
    proof {
        lemma_first_exp_props(v@);
    }
    let mut i: usize = 0;
    while i < v.len() && v[i] != 'e' && v[i] != 'E'
        invariant
            i <= v.len(),
            0 <= first_exp(v@) <= v@.len(),
            forall|k: int| 0 <= k < first_exp(v@) ==> v@[k] != 'e' && v@[k] != 'E',
            first_exp(v@) < v@.len() ==> (v@[first_exp(v@)] == 'e' || v@[first_exp(v@)] == 'E'),
            forall|k: int| 0 <= k < i ==> v@[k] != 'e' && v@[k] != 'E',
        decreases v.len() - i,
    {
        i = i + 1;
    }
    i
}

fn first_dot_exec(v: &Vec<char>) -> (r: usize)
    ensures
        r == first_dot(v@),
{
    proof {
        lemma_first_dot_props(v@);
    }
    let mut i: usize = 0;
    while i < v.len() && v[i] != '.'
        invariant
            i <= v.len(),
            0 <= first_dot(v@) <= v@.len(),
            forall|k: int| 0 <= k < first_dot(v@) ==> v@[k] != '.',
            first_dot(v@) < v@.len() ==> v@[first_dot(v@)] == '.',
            forall|k: int| 0 <= k < i ==> v@[k] != '.',
        decreases v.len() - i,
    {
        i = i + 1;
    }
    i
}

fn all_digits_exec(v: &Vec<char>) -> (b: bool)
    ensures
        b == all_digits(v@),
{
    let mut i: usize = 0;
    while i < v.len()
        invariant
            i <= v.len(),
            forall|k: int| 0 <= k < i ==> is_digit(#[trigger] v@[k]),
        decreases v.len() - i,
    {
        if !('0' <= v[i] && v[i] <= '9') {
            return false;
        }
        i = i + 1;
    }
    true
}

fn digit_of(c: char) -> (d: u64)
    requires
        is_digit(c),
    ensures
        d == ((c as u32) - ('0' as u32)) as nat,
        d <= 9,
{
    ((c as u32) - ('0' as u32)) as u64
}

/// The value of the first `n` digits, counted up to `cap`.
fn sat_prefix(ds: &Vec<char>, n: usize, cap: u128) -> (r: u128)
    requires
        n <= ds.len(),
        all_digits(ds@),
        cap <= EXP_CAP,
    ensures
        r == min_nat(digits_val(ds@.subrange(0, n as int)), cap as nat),
{
    let mut acc: u128 = 0;
    let mut i: usize = 0;
    assert(ds@.subrange(0, 0) =~= Seq::<char>::empty());
    while i < n
        invariant
            i <= n <= ds.len(),
            all_digits(ds@),
            cap <= EXP_CAP,
            acc == min_nat(digits_val(ds@.subrange(0, i as int)), cap as nat),
        decreases n - i,
    {
        let c = ds[i];
        assert(is_digit(ds@[i as int]));
        let d = digit_of(c);
        proof {
            assert(ds@.subrange(0, i + 1) =~= ds@.subrange(0, i as int).push(c));
            lemma_digits_val_push(ds@.subrange(0, i as int), c);
        }
        let x = acc * 10 + (d as u128);
        acc = if x < cap { x } else { cap };
        proof {
            let v = digits_val(ds@.subrange(0, i as int));
            assert(v >= cap ==> v * 10 + d >= cap) by (nonlinear_arith);
        }
        i = i + 1;
    }
    acc
}

/// `(R * m) / 10^(hi - lo)`, where `R` is the value of the digits from `lo` to `hi`.
fn carry_of(ds: &Vec<char>, lo: usize, hi: usize, m: u64) -> (c: u64)
    requires
        lo <= hi <= ds.len(),
        all_digits(ds@),
        1 <= m <= 0x100_0000_0000,
    ensures
        c == (digits_val(ds@.subrange(lo as int, hi as int)) * (m as nat)) / pow10((hi - lo) as nat),
        c < m,
{
    let mut c: u64 = 0;
    let mut i = hi;
    assert(ds@.subrange(hi as int, hi as int) =~= Seq::<char>::empty());
    assert(digits_val(ds@.subrange(hi as int, hi as int)) == 0);
    assert(pow10(0) == 1);
    assert((0nat * (m as nat)) / 1nat == 0);
    while i > lo
        invariant
            lo <= i <= hi <= ds.len(),
            all_digits(ds@),
            1 <= m <= 0x100_0000_0000,
            c == (digits_val(ds@.subrange(i as int, hi as int)) * (m as nat)) / pow10((hi - i) as nat),
            c < m,
        decreases i - lo,
    {
        let ch = ds[i - 1];
        assert(is_digit(ds@[i - 1]));
        let d = digit_of(ch);
        proof {
            let tail = ds@.subrange(i as int, hi as int);
            let e = pow10((hi - i) as nat);
            lemma_pow10_pos((hi - i) as nat);
            assert(ds@.subrange(i - 1, hi as int) =~= seq![ch] + tail);
            lemma_digits_val_concat(seq![ch], tail);
            assert(seq![ch] =~= Seq::<char>::empty().push(ch));
            lemma_digits_val_push(Seq::<char>::empty(), ch);
            assert(digits_val(seq![ch]) == d);
            assert(pow10((hi - (i - 1)) as nat) == 10 * e);
            lemma_carry_step(d as nat, digits_val(tail), m as nat, e);
        }
        assert(d * m + c < 10 * m) by (nonlinear_arith)
            requires
                d <= 9,
                c < m,
        ;
        c = ((d * m + c) / 10) as u64;
        i = i - 1;
    }
    c
}

fn exponent_exec(es: &Vec<char>) -> (r: Option<(bool, u128)>)
    ensures
        match r {
            Some((neg, v)) => {
                &&& neg == (es@.len() > 0 && es@[0] == '-')
                &&& spec_exponent(es@) == Some(
                    if neg { -(digits_val(unsigned_part(es@)) as int) } else { digits_val(unsigned_part(es@)) as int },
                )
                &&& v == min_nat(digits_val(unsigned_part(es@)), EXP_CAP as nat)
            },
            None => spec_exponent(es@) is None,
        },
{
    let neg = es.len() > 0 && es[0] == '-';
    let st: usize = if es.len() > 0 && (es[0] == '-' || es[0] == '+') { 1 } else { 0 };
    let ds = sub_vec(es, st, es.len());
    assert(ds@ == unsigned_part(es@)) by {
        if st == 1 {
            assert(ds@ =~= es@.drop_first());
        } else {
            assert(ds@ =~= es@);
        }
    }
    if ds.len() == 0 || !all_digits_exec(&ds) {
        return None;
    }
    let v = sat_prefix(&ds, ds.len(), EXP_CAP);
    assert(ds@.subrange(0, ds@.len() as int) =~= ds@);
    Some((neg, v))
}

proof fn lemma_vanishes(d: nat, m: nat, l: nat, k: nat)
    requires
        d < pow10(l),
        m <= 0x100_0000_0000,
        l + 13 <= k,
    ensures
        (d * m) / pow10(k) == 0,
{
    reveal_with_fuel(pow10, 14);
    assert(pow10(13) == 10_000_000_000_000);
    lemma_pow10_add(l, 13);
    lemma_pow10_mono(l + 13, k);
    assert(d * m < pow10(l) * pow10(13)) by (nonlinear_arith)
        requires
            d < pow10(l),
            m <= 0x100_0000_0000,
            pow10(13) == 10_000_000_000_000,
    ;
    vstd::arithmetic::div_mod::lemma_basic_div((d * m) as int, pow10(k) as int);
}

proof fn lemma_huge(d: nat, m: nat, t: nat)
    requires
        d >= 1,
        m >= 1,
        t >= 20,
    ensures
        d * m * pow10(t) > 0xffff_ffff_ffff_ffff,
{
    reveal_with_fuel(pow10, 21);
    assert(pow10(20) == 100_000_000_000_000_000_000);
    lemma_pow10_mono(20, t);
    let p = pow10(t);
    assert(d * m * p >= p) by (nonlinear_arith)
        requires
            d >= 1,
            m >= 1,
    ;
}

/// The digits' value times `m`, scaled by `10^(E - f)` with `E` the signed exponent,
/// and converted to 64 bits.
fn scaled_times(ds: &Vec<char>, f: usize, eneg: bool, esat: u128, Ghost(eabs): Ghost<nat>, m: u64) -> (r: u64)
    requires
        all_digits(ds@),
        esat == min_nat(eabs, EXP_CAP as nat),
        1 <= m <= 0x100_0000_0000,
    ensures
        r == sat_u64(scaled(digits_val(ds@) * (m as nat), (if eneg { -(eabs as int) } else { eabs as int }) - f)),
{
    let ghost dv = digits_val(ds@);
    let ghost e_int: int = if eneg { -(eabs as int) } else { eabs as int };
    let ghost t_int: int = e_int - f;
    let n = ds.len();
    assert(ds@.subrange(0, n as int) =~= ds@);
    proof {
        lemma_digits_val_bound(ds@);
    }
    if esat == EXP_CAP {
        if !eneg {
            let z = sat_prefix(ds, n, 1);
            if z == 0 {
                assert(dv == 0);
                assert(dv * (m as nat) == 0);
                return 0;
            } else {
                proof {
                    lemma_huge(dv, m as nat, t_int as nat);
                }
                return 0xffff_ffff_ffff_ffff;
            }
        } else {
            proof {
                lemma_vanishes(dv, m as nat, n as nat, (-t_int) as nat);
            }
            return 0;
        }
    }
    let e: i128 = if eneg { -(esat as i128) } else { esat as i128 };
    let t: i128 = e - (f as i128);
    assert(t == t_int);
    if t >= 0 {
        let a = sat_prefix(ds, n, VAL_CAP);
        assert(a * m <= VAL_CAP * 0x100_0000_0000) by (nonlinear_arith)
            requires
                a <= VAL_CAP,
                m <= 0x100_0000_0000,
        ;
        let mut val: u128 = a * (m as u128);
        if val > VAL_CAP {
            val = VAL_CAP;
        }
        proof {
            let x = dv * (m as nat);
            assert(x >= VAL_CAP ==> val == VAL_CAP) by (nonlinear_arith)
                requires
                    a == min_nat(dv, VAL_CAP as nat),
                    x == dv * (m as nat),
                    m >= 1,
                    val == min_nat((a as nat) * (m as nat), VAL_CAP as nat),
            ;
            assert(x < VAL_CAP ==> val == x) by (nonlinear_arith)
                requires
                    a == min_nat(dv, VAL_CAP as nat),
                    x == dv * (m as nat),
                    m >= 1,
                    val == min_nat((a as nat) * (m as nat), VAL_CAP as nat),
            ;
            assert(pow10(0) == 1);
        }
        let ghost x = dv * (m as nat);
        assert(x * pow10(0) == x);
        let mut j: i128 = 0;
        while j < t && val != 0 && val < VAL_CAP
            invariant
                0 <= j <= t,
                val == min_nat(x * pow10(j as nat), VAL_CAP as nat),
            decreases t - j,
        {
            proof {
                assert(pow10((j + 1) as nat) == 10 * pow10(j as nat));
                assert(x * pow10((j + 1) as nat) == (x * pow10(j as nat)) * 10) by (nonlinear_arith)
                    requires
                        pow10((j + 1) as nat) == 10 * pow10(j as nat),
                ;
            }
            let y = val * 10;
            val = if y < VAL_CAP { y } else { VAL_CAP };
            j = j + 1;
        }
        proof {
            lemma_pow10_pos(j as nat);
            lemma_pow10_pos(t as nat);
            if j < t {
                lemma_pow10_mono(j as nat, t as nat);
                if val == 0 {
                    assert(x == 0) by (nonlinear_arith)
                        requires
                            x * pow10(j as nat) == 0,
                            pow10(j as nat) >= 1,
                    ;
                    assert(x * pow10(t as nat) == 0);
                } else {
                    assert(x * pow10(t as nat) >= x * pow10(j as nat)) by (nonlinear_arith)
                        requires
                            pow10(j as nat) <= pow10(t as nat),
                    ;
                }
            }
        }
        if val > 0xffff_ffff_ffff_ffff {
            0xffff_ffff_ffff_ffff
        } else {
            val as u64
        }
    } else {
        let k: i128 = -t;
        if k <= n as i128 {
            let split = n - (k as usize);
            let a = sat_prefix(ds, split, VAL_CAP);
            let c = carry_of(ds, split, n, m);
            proof {
                let hi = ds@.subrange(0, split as int);
                let lo = ds@.subrange(split as int, n as int);
                assert(ds@ =~= hi + lo);
                lemma_digits_val_concat(hi, lo);
                lemma_pow10_pos(k as nat);
                assert((n - split) as nat == k as nat);
                lemma_split_scaled(digits_val(hi), digits_val(lo), m as nat, pow10(k as nat));
            }
            assert(a * m <= VAL_CAP * 0x100_0000_0000) by (nonlinear_arith)
                requires
                    a <= VAL_CAP,
                    m <= 0x100_0000_0000,
            ;
            let total: u128 = a * (m as u128) + (c as u128);
            proof {
                let at = digits_val(ds@.subrange(0, split as int));
                assert(at >= VAL_CAP ==> total >= VAL_CAP && at * (m as nat) + c >= VAL_CAP) by (nonlinear_arith)
                    requires
                        a == min_nat(at, VAL_CAP as nat),
                        total == a * (m as nat) + c,
                        m >= 1,
                ;
            }
            if total > 0xffff_ffff_ffff_ffff {
                0xffff_ffff_ffff_ffff
            } else {
                total as u64
            }
        } else if k - (n as i128) >= 13 {
            proof {
                lemma_vanishes(dv, m as nat, n as nat, k as nat);
            }
            0
        } else {
            let mut c = carry_of(ds, 0, n, m);
            let extra: i128 = k - (n as i128);
            let mut j: i128 = 0;
            while j < extra
                invariant
                    0 <= j <= extra,
                    n as i128 + extra == k,
                    c == (dv * (m as nat)) / pow10((n + j) as nat),
                decreases extra - j,
            {
                proof {
                    lemma_pow10_pos((n + j) as nat);
                    vstd::arithmetic::div_mod::lemma_div_denominator(
                        (dv * (m as nat)) as int,
                        pow10((n + j) as nat) as int,
                        10,
                    );
                    assert(pow10((n + j + 1) as nat) == 10 * pow10((n + j) as nat));
                    assert(pow10((n + j) as nat) * 10 == 10 * pow10((n + j) as nat));
                }
                c = c / 10;
                j = j + 1;
            }
            c
        }
    }
}

/// The literal `w` times `m`, converted to 64 bits as a float is.
#[verifier::rlimit(50)]
pub fn float_times(w: &Vec<char>, m: u64) -> (r: Option<u64>)
    requires
        1 <= m <= 0x100_0000_0000,
    ensures
        r == spec_float_times(w@, m as nat),
{
    let neg = w.len() > 0 && w[0] == '-';
    let st: usize = if w.len() > 0 && (w[0] == '-' || w[0] == '+') { 1 } else { 0 };
    let b = sub_vec(w, st, w.len());
    assert(b@ == unsigned_part(w@)) by {
        if st == 1 {
            assert(b@ =~= w@.drop_first());
        } else {
            assert(b@ =~= w@);
        }
    }
    let inf3 = vec!['i', 'n', 'f'];
    let inf8 = vec!['i', 'n', 'f', 'i', 'n', 'i', 't', 'y'];
    let nan3 = vec!['n', 'a', 'n'];
    assert(inf3@ =~= seq!['i', 'n', 'f']);
    assert(inf8@ =~= seq!['i', 'n', 'f', 'i', 'n', 'i', 't', 'y']);
    assert(nan3@ =~= seq!['n', 'a', 'n']);
    if lower_matches(&b, &inf3) || lower_matches(&b, &inf8) {
        return Some(if neg { 0 } else { 0xffff_ffff_ffff_ffff });
    }
    if lower_matches(&b, &nan3) {
        return Some(0);
    }
    let p = first_exp_exec(&b);
    proof {
        lemma_first_exp_props(b@);
    }
    let mant = sub_vec(&b, 0, p);
    let d = first_dot_exec(&mant);
    proof {
        lemma_first_dot_props(mant@);
    }
    let ip = sub_vec(&mant, 0, d);
    let fp = if d < mant.len() { sub_vec(&mant, d + 1, mant.len()) } else { Vec::new() };
    assert(fp@ == frac_part(mant@)) by {
        if d >= mant.len() {
            assert(fp@ =~= Seq::<char>::empty());
        }
    }
    if !all_digits_exec(&ip) || !all_digits_exec(&fp) || ip.len() + fp.len() == 0 {
        return None;
    }
    let (eneg, esat) = if p < b.len() {
        let es = sub_vec(&b, p + 1, b.len());
        match exponent_exec(&es) {
            None => {
                return None;
            },
            Some(x) => x,
        }
    } else {
        (false, 0u128)
    };
    let ghost eabs: nat = if p < b.len() {
        digits_val(unsigned_part(b@.subrange(p + 1, b@.len() as int)))
    } else {
        0nat
    };
    assert(esat == min_nat(eabs, EXP_CAP as nat));
    if neg {
        return Some(0);
    }
    let mut ds = ip.clone();
    let mut i: usize = 0;
    while i < fp.len()
        invariant
            i <= fp.len(),
            ds@ == ip@ + fp@.subrange(0, i as int),
        decreases fp.len() - i,
    {
        ds.push(fp[i]);
        i = i + 1;
        assert(ds@ =~= ip@ + fp@.subrange(0, i as int));
    }
    assert(fp@.subrange(0, fp@.len() as int) =~= fp@);
    assert(all_digits(ds@)) by {
        assert forall|q: int| 0 <= q < ds@.len() implies is_digit(#[trigger] ds@[q]) by {
            if q < ip@.len() {
                assert(ds@[q] == ip@[q]);
            } else {
                assert(ds@[q] == fp@[q - ip@.len()]);
            }
        }
    }
    Some(scaled_times(&ds, fp.len(), eneg, esat, Ghost(eabs), m))
}

} // verus!
