//! Diagnostic rules: the rule interface, the context a rule reads, and helpers
//! that build diagnostics.
use vstd::prelude::*;
use crate::text::{str_eq, chars_of, str_to_uppercase, spec_to_uppercase, contains_seq, str_contains,
    ascii_lower};
use crate::num::{Dec, fixed_str, format_fixed, pow10, pow10_exec, lemma_pow10_le, lemma_pow10_pos, lin_gt, lin_gt_exec};
use crate::metrics::{push_str, spec_parse_metric_value, parse_metric_value};
use crate::model::{
    Diagnostic, DiagnosticView, ParameterSuggestion, ParameterSuggestionView, ParameterType,
    RuleSeverity, vstr, vlit, vparams, int_str, i64_to_string, opt_view, strings_of,
    spec_parameter_default, get_parameter_default, spec_parameter_metadata, get_parameter_metadata,
    spec_suggestion,
};
use crate::tree::{ExecutionTreeNode, lookup, lookup_index};

pub mod common;
pub mod scan;
pub mod join;
pub mod aggregate;
pub mod project;
pub mod query;

verus! {

// ---------------------------------------------------------------------------
// Node readings
// ---------------------------------------------------------------------------

/// `"<operator> (plan_node_id=<id>)"`, with `-1` for a node without a plan node id.
pub open spec fn spec_node_path(node: ExecutionTreeNode) -> Seq<char> {
    node.operator_name@ + " (plan_node_id="@ + int_str(
        match node.plan_node_id {
            Some(i) => i as int,
            None => -1,
        },
    ) + ")"@
}

/// Writes the node path of a node.
pub fn node_path(node: &ExecutionTreeNode) -> (s: String)
    ensures
        s@ == spec_node_path(*node),
{
    let id: i64 = match node.plan_node_id {
        Some(i) => i as i64,
        None => -1,
    };
    let mut s = node.operator_name.clone();
    push_str(&mut s, " (plan_node_id=");
    let t = i64_to_string(id);
    push_str(&mut s, t.as_str());
    push_str(&mut s, ")");
    s
}

/// The reading of a unique metric of the node, as a number.
pub open spec fn spec_get_metric(node: ExecutionTreeNode, name: Seq<char>) -> Option<Dec> {
    match lookup(node.unique_metrics@, name) {
        Some(v) => spec_parse_metric_value(v),
        None => None,
    }
}

/// Whether the upper-cased operator name contains `pat`.
pub open spec fn name_has(node: ExecutionTreeNode, pat: Seq<char>) -> bool {
    contains_seq(spec_to_uppercase(node.operator_name@), pat)
}

/// Whether the upper-cased operator name contains `pat`.
pub fn upper_name_contains(node: &ExecutionTreeNode, pat: &str) -> (b: bool)
    ensures
        b == name_has(*node, pat@),
{
    let u = str_to_uppercase(node.operator_name.as_str());
    str_contains(u.as_str(), pat)
}

// ---------------------------------------------------------------------------
// Quantities in messages
// ---------------------------------------------------------------------------

/// `d` written with `digits` fractional digits.
pub open spec fn fmt_val(d: Dec, digits: nat) -> Seq<char> {
    fixed_str(d.mant as nat, d.den(), digits)
}

/// `(qa * a) / (qb * b)` written with `digits` fractional digits.
pub open spec fn fmt_q(a: Dec, qa: nat, b: Dec, qb: nat, digits: nat) -> Seq<char> {
    fixed_str((qa * a.mant * b.den()) as nat, (qb * b.mant * a.den()) as nat, digits)
}

/// Writes `d` with `digits` fractional digits.
pub fn format_val(d: Dec, digits: u32) -> (s: String)
    requires
        d.wf(),
        digits <= 2,
    ensures
        s@ == fmt_val(d, digits as nat),
{
    proof {
        lemma_pow10_le(d.exp as nat);
    }
    let den = pow10_exec(d.exp) as u128;
    format_fixed(d.mant as u128, den, digits)
}

/// Writes `(qa * a) / (qb * b)` with `digits` fractional digits.
pub fn format_quot(a: Dec, qa: u64, b: Dec, qb: u64, digits: u32) -> (s: String)
    requires
        a.wf(),
        b.wf(),
        b.mant > 0,
        0 < qb <= 1_000_000,
        qa <= 1_000_000,
        digits <= 2,
    ensures
        s@ == fmt_q(a, qa as nat, b, qb as nat, digits as nat),
{
    proof {
        lemma_pow10_le(a.exp as nat);
        lemma_pow10_le(b.exp as nat);
    }
    let pa = pow10_exec(a.exp) as u128;
    let pb = pow10_exec(b.exp) as u128;
    assert((qa as u128) * (a.mant as u128) <= 1_000_000 * 0xffff_ffff_ffff_ffffu128) by (nonlinear_arith)
        requires
            qa <= 1_000_000,
            a.mant <= 0xffff_ffff_ffff_ffffu64,
    ;
    assert((qb as u128) * (b.mant as u128) <= 1_000_000 * 0xffff_ffff_ffff_ffffu128) by (nonlinear_arith)
        requires
            qb <= 1_000_000,
            b.mant <= 0xffff_ffff_ffff_ffffu64,
    ;
    assert((qa as u128) * (a.mant as u128) * pb <= 1_000_000 * 0xffff_ffff_ffff_ffffu128 * 1_000_000_000)
        by (nonlinear_arith)
        requires
            (qa as u128) * (a.mant as u128) <= 1_000_000 * 0xffff_ffff_ffff_ffffu128,
            pb <= 1_000_000_000,
    ;
    assert((qb as u128) * (b.mant as u128) * pa <= 1_000_000 * 0xffff_ffff_ffff_ffffu128 * 1_000_000_000)
        by (nonlinear_arith)
        requires
            (qb as u128) * (b.mant as u128) <= 1_000_000 * 0xffff_ffff_ffff_ffffu128,
            pa <= 1_000_000_000,
    ;
    assert((qb as u128) * (b.mant as u128) * pa > 0) by (nonlinear_arith)
        requires
            qb > 0,
            b.mant > 0,
            pa >= 1,
    ;
    let num = (qa as u128) * (a.mant as u128) * pb;
    let den = (qb as u128) * (b.mant as u128) * pa;
    format_fixed(num, den, digits)
}

/// An integer quantity.
pub open spec fn dint(n: nat) -> Dec {
    Dec { mant: n as u64, exp: 0 }
}

/// The first reading that is present.
pub open spec fn or_dec(a: Option<Dec>, b: Option<Dec>) -> Option<Dec> {
    match a {
        Some(x) => Some(x),
        None => b,
    }
}

/// The first reading that is present.
pub fn first_dec(a: Option<Dec>, b: Option<Dec>) -> (r: Option<Dec>)
    ensures
        r == or_dec(a, b),
{
    match a {
        Some(x) => Some(x),
        None => b,
    }
}

/// An optional integer reading as a quantity.
pub open spec fn opt_int(a: Option<u64>) -> Option<Dec> {
    match a {
        Some(x) => Some(Dec { mant: x, exp: 0 }),
        None => None,
    }
}

pub fn opt_int_exec(a: Option<u64>) -> (r: Option<Dec>)
    ensures
        r == opt_int(a),
        r matches Some(d) ==> d.wf(),
{
    match a {
        Some(x) => Some(Dec { mant: x, exp: 0 }),
        None => None,
    }
}

/// A quantity truncated to a whole number of units (as a float-to-integer cast does).
pub open spec fn dec_floor(d: Dec) -> nat {
    d.mant as nat / d.den()
}

/// `d` truncated to an integer.
pub fn floor_u64(d: Dec) -> (r: u64)
    requires
        d.wf(),
    ensures
        r == dec_floor(d),
{
    proof {
        lemma_pow10_le(d.exp as nat);
    }
    let p = pow10_exec(d.exp);
    d.mant / p
}

/// Whether `max / ((max + min) / 2) > k`, i.e. `2 * max > k * (max + min)`.
pub open spec fn skew_gt(max: Dec, min: Dec, k: nat) -> bool {
    2 * max.mant * min.den() > k * (max.mant * min.den() + min.mant * max.den())
}

/// `max / ((max + min) / 2)` with two fractional digits.
pub open spec fn fmt_skew(max: Dec, min: Dec) -> Seq<char> {
    fixed_str(
        (2 * max.mant * min.den()) as nat,
        (max.mant * min.den() + min.mant * max.den()) as nat,
        2,
    )
}

proof fn lemma_scaled_bound(m: u64, e: nat)
    requires
        e <= 9,
    ensures
        m * pow10(e) <= 0xffff_ffff_ffff_ffffu128 * 1_000_000_000,
        m * pow10(e) >= 0,
{
    lemma_pow10_le(e);
    let p = pow10(e);
    assert(m * p <= 0xffff_ffff_ffff_ffffu128 * 1_000_000_000) by (nonlinear_arith)
        requires
            m <= 0xffff_ffff_ffff_ffffu64,
            p <= 1_000_000_000,
    ;
    assert(m * p >= 0) by (nonlinear_arith)
        requires
            p >= 1,
    ;
}

fn scaled(m: u64, e: u32) -> (r: u128)
    requires
        e <= 9,
    ensures
        r == m * pow10(e as nat),
        r <= 0xffff_ffff_ffff_ffffu128 * 1_000_000_000,
{
    proof {
        lemma_scaled_bound(m, e as nat);
        lemma_pow10_le(e as nat);
    }
    (m as u128) * (pow10_exec(e) as u128)
}

/// Whether `max / ((max + min) / 2) > k`.
pub fn skew_gt_exec(max: Dec, min: Dec, k: u64) -> (b: bool)
    requires
        max.wf(),
        min.wf(),
        k <= 10,
    ensures
        b == skew_gt(max, min, k as nat),
{
    let a = scaled(max.mant, min.exp);
    let c = scaled(min.mant, max.exp);
    assert((k as u128) * (a + c) <= 10 * (2 * 0xffff_ffff_ffff_ffffu128 * 1_000_000_000)) by (nonlinear_arith)
        requires
            k <= 10,
            a <= 0xffff_ffff_ffff_ffffu128 * 1_000_000_000,
            c <= 0xffff_ffff_ffff_ffffu128 * 1_000_000_000,
    ;
    assert(2 * max.mant * min.den() == 2 * a) by (nonlinear_arith)
        requires
            a == max.mant * min.den(),
    ;
    (2 * a) > (k as u128) * (a + c)
}

/// Writes `max / ((max + min) / 2)` with two fractional digits.
pub fn format_skew(max: Dec, min: Dec) -> (s: String)
    requires
        max.wf(),
        min.wf(),
        min.mant > 0,
    ensures
        s@ == fmt_skew(max, min),
{
    let a = scaled(max.mant, min.exp);
    let c = scaled(min.mant, max.exp);
    proof {
        lemma_pow10_pos(max.exp as nat);
        assert(min.mant * pow10(max.exp as nat) > 0) by (nonlinear_arith)
            requires
                min.mant > 0,
                pow10(max.exp as nat) >= 1,
        ;
    }
    assert(2 * max.mant * min.den() == 2 * a) by (nonlinear_arith)
        requires
            a == max.mant * min.den(),
    ;
    format_fixed(2 * a, a + c, 2)
}

/// `(1 - rows / raw) * 100`, a signed percentage, with one fractional digit.
pub open spec fn fmt_pct_left(rows: Dec, raw: Dec) -> Seq<char> {
    let a = raw.mant * rows.den();
    let b = rows.mant * raw.den();
    if a >= b {
        fixed_str((100 * (a - b)) as nat, a as nat, 1)
    } else {
        "-"@ + fixed_str((100 * (b - a)) as nat, a as nat, 1)
    }
}

/// Writes `(1 - rows / raw) * 100` with one fractional digit.
pub fn format_pct_left(rows: Dec, raw: Dec) -> (s: String)
    requires
        rows.wf(),
        raw.wf(),
        raw.mant > 0,
    ensures
        s@ == fmt_pct_left(rows, raw),
{
    let a = scaled(raw.mant, rows.exp);
    let b = scaled(rows.mant, raw.exp);
    proof {
        lemma_pow10_pos(rows.exp as nat);
        assert(raw.mant * pow10(rows.exp as nat) > 0) by (nonlinear_arith)
            requires
                raw.mant > 0,
                pow10(rows.exp as nat) >= 1,
        ;
    }
    if a >= b {
        format_fixed(100 * (a - b), a, 1)
    } else {
        let mut s = String::from_str("-");
        let t = format_fixed(100 * (b - a), a, 1);
        push_str(&mut s, t.as_str());
        s
    }
}

/// The time of the operator in ms (its total time in ns over 10^6).
pub open spec fn spec_operator_time_ms(node: ExecutionTreeNode) -> Option<Dec> {
    match node.metrics.operator_total_time {
        Some(ns) => Some(Dec { mant: ns, exp: 6 }),
        None => None,
    }
}

// ---------------------------------------------------------------------------
// Diagnostics
// ---------------------------------------------------------------------------

/// The diagnostic a node-level rule reports on `node`.
pub open spec fn node_diag(
    id: Seq<char>,
    name: Seq<char>,
    severity: RuleSeverity,
    node: ExecutionTreeNode,
    message: Seq<char>,
    reason: Seq<char>,
    suggestions: Seq<Seq<char>>,
    params: Seq<ParameterSuggestionView>,
) -> DiagnosticView {
    DiagnosticView {
        rule_id: id,
        rule_name: name,
        severity,
        node_path: spec_node_path(node),
        plan_node_id: node.plan_node_id,
        message,
        reason,
        suggestions,
        parameter_suggestions: params,
    }
}

/// Builds the diagnostic of a node-level rule.
pub fn make_diag(
    id: &str,
    name: &str,
    severity: RuleSeverity,
    node: &ExecutionTreeNode,
    message: String,
    reason: &str,
    suggestions: &[&str],
    params: Vec<ParameterSuggestion>,
) -> (d: Diagnostic)
    ensures
        d@ == node_diag(
            id@,
            name@,
            severity,
            *node,
            message@,
            reason@,
            vlit(suggestions@),
            vparams(params@),
        ),
{
    Diagnostic {
        rule_id: String::from_str(id),
        rule_name: String::from_str(name),
        severity,
        node_path: node_path(node),
        plan_node_id: node.plan_node_id,
        message,
        reason: String::from_str(reason),
        suggestions: strings_of(suggestions),
        parameter_suggestions: params,
    }
}

/// A suggestion written out in full (no metadata lookup beyond `name`).
pub fn param(name: &str, t: ParameterType, recommended: &str, command: &str) -> (p: ParameterSuggestion)
    ensures
        p@ == spec_suggestion(name@, t, None, recommended@, command@),
{
    ParameterSuggestion::new(name, t, None, recommended, command)
}

// ---------------------------------------------------------------------------
// Session variables
// ---------------------------------------------------------------------------

/// ASCII case-insensitive equality, as `str::eq_ignore_ascii_case` compares.
pub open spec fn eq_ignore_ascii_case(a: Seq<char>, b: Seq<char>) -> bool {
    a.len() == b.len() && forall|i: int| 0 <= i < a.len() ==> ascii_lower(#[trigger] a[i]) == ascii_lower(b[i])
}

fn ascii_lower_exec(c: char) -> (r: char)
    ensures
        r == ascii_lower(c),
{
    if 'A' <= c && c <= 'Z' {
        ((c as u8) + 32) as char
    } else {
        c
    }
}

/// Whether two texts are equal up to ASCII case.
pub fn eq_ignore_case(a: &str, b: &str) -> (r: bool)
    ensures
        r == eq_ignore_ascii_case(a@, b@),
{
    let av = chars_of(a);
    let bv = chars_of(b);
    if av.len() != bv.len() {
        return false;
    }
    let mut i: usize = 0;
    while i < av.len()
        invariant
            i <= av.len(),
            av.len() == bv.len(),
            av@ == a@,
            bv@ == b@,
            forall|k: int| 0 <= k < i ==> ascii_lower(#[trigger] av@[k]) == ascii_lower(bv@[k]),
        decreases av.len() - i,
    {
        if ascii_lower_exec(av[i]) != ascii_lower_exec(bv[i]) {
            return false;
        }
        i = i + 1;
    }
    true
}

/// What a rule reads: the node under evaluation and the non-default session
/// variables of the query (name and current value).
pub struct RuleContext<'a> {
    pub node: &'a ExecutionTreeNode,
    pub session_variables: &'a Vec<(String, String)>,
}

/// A suggestion to set `name` to `recommended`, unless the variable is already set
/// to it, or is unset and its known default equals it (both up to ASCII case).
pub open spec fn spec_suggest_parameter(
    vars: Seq<(String, String)>,
    name: Seq<char>,
    recommended: Seq<char>,
    command: Seq<char>,
) -> Option<ParameterSuggestionView> {
    let cur = lookup(vars, name);
    if cur matches Some(v) && eq_ignore_ascii_case(v, recommended) {
        None
    } else if cur is None && (spec_parameter_default(name) matches Some(d) && eq_ignore_ascii_case(d, recommended)) {
        None
    } else {
        Some(spec_suggestion(name, ParameterType::Session, cur, recommended, command))
    }
}

impl<'a> RuleContext<'a> {
    /// A unique metric of the node as a number.
    pub fn get_metric(&self, name: &str) -> (r: Option<Dec>)
        ensures
            r == spec_get_metric(*self.node, name@),
            r matches Some(d) ==> d.wf(),
    {
        match lookup_index(&self.node.unique_metrics, name) {
            Some(i) => parse_metric_value(self.node.unique_metrics[i].1.as_str()),
            None => None,
        }
    }

    /// The operator's total time in ms.
    pub fn get_operator_time_ms(&self) -> (r: Option<Dec>)
        ensures
            r == spec_operator_time_ms(*self.node),
            r matches Some(d) ==> d.wf(),
    {
        match self.node.metrics.operator_total_time {
            Some(ns) => Some(Dec { mant: ns, exp: 6 }),
            None => None,
        }
    }

    /// The node's share of the query time.
    pub fn get_time_percentage(&self) -> (r: Option<Dec>)
        ensures
            r == self.node.time_percentage,
    {
        self.node.time_percentage
    }

    /// The node's memory usage in bytes.
    pub fn get_memory_usage(&self) -> (r: Option<u64>)
        ensures
            r == self.node.metrics.memory_usage,
    {
        self.node.metrics.memory_usage
    }

    /// Whether the session variable `name` is set to `expected` (up to ASCII case).
    pub fn is_variable_set_to(&self, name: &str, expected: &str) -> (b: bool)
        ensures
            b == (lookup(self.session_variables@, name@) matches Some(v) && eq_ignore_ascii_case(
                v,
                expected@,
            )),
    {
        match lookup_index(self.session_variables, name) {
            Some(i) => eq_ignore_case(self.session_variables[i].1.as_str(), expected),
            None => false,
        }
    }

    /// Current value of the session variable `name`, if it is set.
    pub fn get_variable_value(&self, name: &str) -> (r: Option<String>)
        ensures
            opt_view(r) == lookup(self.session_variables@, name@),
    {
        match lookup_index(self.session_variables, name) {
            Some(i) => Some(self.session_variables[i].1.clone()),
            None => None,
        }
    }

    /// A session-parameter suggestion, or `None` when the parameter already has the
    /// recommended value.
    pub fn suggest_parameter(&self, name: &str, recommended: &str, command: &str) -> (r: Option<
        ParameterSuggestion,
    >)
        ensures
            r is Some == spec_suggest_parameter(self.session_variables@, name@, recommended@, command@) is Some,
            r matches Some(p) ==> Some(p@) == spec_suggest_parameter(
                self.session_variables@,
                name@,
                recommended@,
                command@,
            ),
    {
        if self.is_variable_set_to(name, recommended) {
            return None;
        }
        let current = self.get_variable_value(name);
        if current.is_none() {
            match get_parameter_default(name) {
                Some(d) => {
                    if eq_ignore_case(d.as_str(), recommended) {
                        return None;
                    }
                },
                None => {},
            }
        }
        Some(ParameterSuggestion::new(name, ParameterType::Session, current, recommended, command))
    }
}

/// A diagnostic rule evaluated on each node of the execution tree.
pub trait DiagnosticRule {
    /// Rule id (e.g. `"S001"`).
    fn id(&self) -> &'static str;

    /// Rule name.
    fn name(&self) -> &'static str;

    /// Whether the rule applies to the node.
    fn applicable_to(&self, node: &ExecutionTreeNode) -> bool;

    /// The diagnostic the rule reports for the context's node, if any.
    fn evaluate(&self, context: &RuleContext) -> Option<Diagnostic>
        requires
            context.node.wf(),
    ;
}

// ---------------------------------------------------------------------------
// Durations in messages
// ---------------------------------------------------------------------------

/// A duration in ms in human-readable form: μs below 1 ms, ms below 1 s, s below
/// 1 min, minutes below 1 h, hours above.
pub open spec fn spec_format_duration_ms(ms: Dec) -> Seq<char> {
    let one = Dec { mant: 1, exp: 0 };
    if lin_gt(one, 1, ms, 1) {
        fmt_q(ms, 1000, one, 1, 2) + "μs"@
    } else if lin_gt(Dec { mant: 1000, exp: 0 }, 1, ms, 1) {
        fmt_val(ms, 2) + "ms"@
    } else if lin_gt(Dec { mant: 60000, exp: 0 }, 1, ms, 1) {
        fmt_q(ms, 1, Dec { mant: 1000, exp: 0 }, 1, 2) + "s"@
    } else if lin_gt(Dec { mant: 3600000, exp: 0 }, 1, ms, 1) {
        fmt_q(ms, 1, Dec { mant: 60000, exp: 0 }, 1, 1) + "m"@
    } else {
        fmt_q(ms, 1, Dec { mant: 3600000, exp: 0 }, 1, 1) + "h"@
    }
}

/// Format a duration in ms, e.g. `"1.50s"`.
pub fn format_duration_ms(ms: Dec) -> (s: String)
    requires
        ms.wf(),
    ensures
        s@ == spec_format_duration_ms(ms),
{
    let one = Dec { mant: 1, exp: 0 };
    if lin_gt_exec(one, 1, ms, 1) {
        let mut s = format_quot(ms, 1000, one, 1, 2);
        push_str(&mut s, "μs");
        s
    } else if lin_gt_exec(Dec { mant: 1000, exp: 0 }, 1, ms, 1) {
        let mut s = format_val(ms, 2);
        push_str(&mut s, "ms");
        s
    } else if lin_gt_exec(Dec { mant: 60000, exp: 0 }, 1, ms, 1) {
        let mut s = format_quot(ms, 1, Dec { mant: 1000, exp: 0 }, 1, 2);
        push_str(&mut s, "s");
        s
    } else if lin_gt_exec(Dec { mant: 3600000, exp: 0 }, 1, ms, 1) {
        let mut s = format_quot(ms, 1, Dec { mant: 60000, exp: 0 }, 1, 1);
        push_str(&mut s, "m");
        s
    } else {
        let mut s = format_quot(ms, 1, Dec { mant: 3600000, exp: 0 }, 1, 1);
        push_str(&mut s, "h");
        s
    }
}

} // verus!
