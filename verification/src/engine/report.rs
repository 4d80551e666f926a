//! What the engine derives from its diagnostics: the merged suggestions, the
//! performance score and the one-sentence conclusion.
use vstd::prelude::*;
use crate::num::{Dec, dec_str, u128_to_string, lin_gt, lin_gt_exec, pow10};
use crate::metrics::{push_str, spec_parse_total_time_ms, parse_total_time_ms};
use crate::model::{Diagnostic, DiagnosticView, RuleSeverity, vdiags, vstr, lemma_vdiags_take};
use crate::tree::Profile;
use crate::rules::{dint, fmt_q, format_quot};
use crate::uniq::{dedup_by, same_text, push_new_text, lemma_dedup_by_seen, lemma_dedup_by_distinct, seen};
use crate::engine::{RuleEngine, has_severity};

verus! {

// ---------------------------------------------------------------------------
// Suggestions
// ---------------------------------------------------------------------------

/// The suggestions of the diagnostics, one diagnostic after another.
pub open spec fn all_suggestions(ds: Seq<DiagnosticView>) -> Seq<Seq<char>>
    decreases ds.len(),
{
    if ds.len() == 0 {
        Seq::empty()
    } else {
        all_suggestions(ds.drop_last()) + ds.last().suggestions
    }
}

// ---------------------------------------------------------------------------
// Score
// ---------------------------------------------------------------------------

/// Points a diagnostic costs: 20 for an error, 10 for a warning, 3 for an info.
pub open spec fn penalty(s: RuleSeverity) -> nat {
    match s {
        RuleSeverity::Error => 20,
        RuleSeverity::Warning => 10,
        RuleSeverity::Info => 3,
    }
}

pub open spec fn total_penalty(ds: Seq<DiagnosticView>) -> nat
    decreases ds.len(),
{
    if ds.len() == 0 {
        0
    } else {
        total_penalty(ds.drop_last()) + penalty(ds.last().severity)
    }
}

/// Points a total time costs: 20 above one hour, 10 above half an hour, 5 above
/// five minutes; nothing for an unreadable total time.
pub open spec fn time_deduction(total_ms: Option<Dec>) -> nat {
    match total_ms {
        Some(t) => if lin_gt(t, 1, dint(3_600_000), 1) {
            20
        } else if lin_gt(t, 1, dint(1_800_000), 1) {
            10
        } else if lin_gt(t, 1, dint(300_000), 1) {
            5
        } else {
            0
        },
        None => 0,
    }
}

/// The performance score: 100 less the points of the diagnostics and of the total
/// time, and never below 0.
pub open spec fn spec_performance_score(ds: Seq<DiagnosticView>, p: Profile) -> nat {
    let lost = total_penalty(ds) + time_deduction(spec_parse_total_time_ms(p.summary.total_time@));
    if lost >= 100 {
        0
    } else {
        (100 - lost) as nat
    }
}

/// How many of the diagnostics have severity `s`.
pub open spec fn severity_count(ds: Seq<DiagnosticView>, s: RuleSeverity) -> nat
    decreases ds.len(),
{
    if ds.len() == 0 {
        0
    } else {
        severity_count(ds.drop_last(), s) + if ds.last().severity == s { 1nat } else { 0nat }
    }
}

proof fn lemma_penalty_counts(ds: Seq<DiagnosticView>)
    ensures
        total_penalty(ds) == 20 * severity_count(ds, RuleSeverity::Error) + 10 * severity_count(
            ds,
            RuleSeverity::Warning,
        ) + 3 * severity_count(ds, RuleSeverity::Info),
    decreases ds.len(),
{
    if ds.len() > 0 {
        lemma_penalty_counts(ds.drop_last());
    }
}

/// Law of the performance score: each error costs 20 points, each warning 10 and
/// each info 3, besides the points of the total time (20 above one hour, 10 above
/// half an hour, 5 above five minutes), and the score never falls below 0.
pub proof fn lemma_score_points(ds: Seq<DiagnosticView>, p: Profile)
    ensures
        ({
            let lost = 20 * severity_count(ds, RuleSeverity::Error) + 10 * severity_count(ds, RuleSeverity::Warning)
                + 3 * severity_count(ds, RuleSeverity::Info) + time_deduction(
                spec_parse_total_time_ms(p.summary.total_time@),
            );
            spec_performance_score(ds, p) == if lost >= 100 { 0 } else { (100 - lost) as nat }
        }),
        time_deduction(spec_parse_total_time_ms(p.summary.total_time@)) == match spec_parse_total_time_ms(
            p.summary.total_time@,
        ) {
            Some(t) => if t.mant > 3_600_000 * t.den() {
                20nat
            } else if t.mant > 1_800_000 * t.den() {
                10nat
            } else if t.mant > 300_000 * t.den() {
                5nat
            } else {
                0nat
            },
            None => 0nat,
        },
{
    lemma_penalty_counts(ds);
    assert(dint(3_600_000).den() == 1 && dint(1_800_000).den() == 1 && dint(300_000).den() == 1) by {
        reveal_with_fuel(pow10, 1);
    }
    match spec_parse_total_time_ms(p.summary.total_time@) {
        Some(t) => {
            assert(t.mant * 1 * dint(3_600_000).den() == t.mant);
            assert(3_600_000 * 1 * t.den() == 3_600_000 * t.den());
            assert(t.mant * 1 * dint(1_800_000).den() == t.mant);
            assert(1_800_000 * 1 * t.den() == 1_800_000 * t.den());
            assert(t.mant * 1 * dint(300_000).den() == t.mant);
            assert(300_000 * 1 * t.den() == 300_000 * t.den());
        },
        None => {},
    }
}

pub(crate) fn time_points(total: Option<Dec>) -> (r: u32)
    requires
        total matches Some(t) ==> t.wf(),
    ensures
        r == time_deduction(total),
{
    match total {
        Some(t) => {
            if lin_gt_exec(t, 1, Dec { mant: 3_600_000, exp: 0 }, 1) {
                20
            } else if lin_gt_exec(t, 1, Dec { mant: 1_800_000, exp: 0 }, 1) {
                10
            } else if lin_gt_exec(t, 1, Dec { mant: 300_000, exp: 0 }, 1) {
                5
            } else {
                0
            }
        },
        None => 0,
    }
}

// ---------------------------------------------------------------------------
// Conclusion
// ---------------------------------------------------------------------------

/// Number of diagnostics of severity `s`.
pub open spec fn count_severity(ds: Seq<DiagnosticView>, s: RuleSeverity) -> nat {
    ds.filter(has_severity(s)).len()
}

/// The total time of the profile in ms, 0 when it cannot be read.
pub open spec fn total_ms_or_zero(p: Profile) -> Dec {
    match spec_parse_total_time_ms(p.summary.total_time@) {
        Some(t) => t,
        None => dint(0),
    }
}

/// A duration in ms in words: hours with one decimal from one hour on, whole
/// minutes from one minute on, else seconds with one decimal.
pub open spec fn fmt_total_duration(t: Dec) -> Seq<char> {
    if !lin_gt(dint(3_600_000), 1, t, 1) {
        fmt_q(t, 1, dint(3_600_000), 1, 1) + "小时"@
    } else if !lin_gt(dint(60_000), 1, t, 1) {
        fmt_q(t, 1, dint(60_000), 1, 0) + "分钟"@
    } else {
        fmt_q(t, 1, dint(1000), 1, 1) + "秒"@
    }
}

/// Writes a duration in ms in words (see `fmt_total_duration`).
pub(crate) fn format_total_duration(t: Dec) -> (s: String)
    requires
        t.wf(),
    ensures
        s@ == fmt_total_duration(t),
{
    if !lin_gt_exec(Dec { mant: 3_600_000, exp: 0 }, 1, t, 1) {
        let mut s = format_quot(t, 1, Dec { mant: 3_600_000, exp: 0 }, 1, 1);
        push_str(&mut s, "小时");
        s
    } else if !lin_gt_exec(Dec { mant: 60_000, exp: 0 }, 1, t, 1) {
        let mut s = format_quot(t, 1, Dec { mant: 60_000, exp: 0 }, 1, 0);
        push_str(&mut s, "分钟");
        s
    } else {
        let mut s = format_quot(t, 1, Dec { mant: 1000, exp: 0 }, 1, 1);
        push_str(&mut s, "秒");
        s
    }
}

pub(crate) fn total_time_or_zero(p: &Profile) -> (t: Dec)
    ensures
        t == total_ms_or_zero(*p),
        t.wf(),
{
    match parse_total_time_ms(p.summary.total_time.as_str()) {
        Some(t) => t,
        None => Dec { mant: 0, exp: 0 },
    }
}

/// The conclusion drawn from the diagnostics: whether there are errors (naming the
/// first diagnostic's rule), more than two warnings, a total time above five
/// minutes, or only minor issues.
pub open spec fn spec_conclusion(ds: Seq<DiagnosticView>, p: Profile) -> Seq<char> {
    let errors = count_severity(ds, RuleSeverity::Error);
    let warnings = count_severity(ds, RuleSeverity::Warning);
    let t = total_ms_or_zero(p);
    if ds.len() == 0 {
        "查询执行良好，未发现明显性能问题。"@
    } else if errors > 0 {
        "查询存在"@ + dec_str(errors) + "个严重性能问题，执行时间较长（"@ + fmt_total_duration(t)
            + "）。主要问题是"@ + ds[0].rule_name + "。建议优先解决严重问题。"@
    } else if warnings > 2 {
        "查询存在"@ + dec_str(warnings) + "个中等程度性能问题，整体性能需优化。执行时间"@
            + fmt_total_duration(t) + "。"@
    } else if lin_gt(t, 1, dint(300_000), 1) {
        "查询执行时间较长（"@ + fmt_total_duration(t) + "），建议关注性能热点。"@
    } else {
        "查询发现"@ + dec_str(ds.len()) + "个小问题，整体性能可接受。"@
    }
}

fn count_with_severity(diagnostics: &[Diagnostic], s: RuleSeverity) -> (n: usize)
    ensures
        n == count_severity(vdiags(diagnostics@), s),
{
    let ghost ds = vdiags(diagnostics@);
    let mut n: usize = 0;
    let mut i: usize = 0;
    proof {
        reveal(Seq::filter);
        assert(ds.take(0) =~= Seq::<DiagnosticView>::empty());
    }
    while i < diagnostics.len()
        invariant
            i <= diagnostics.len(),
            ds == vdiags(diagnostics@),
            n == ds.take(i as int).filter(has_severity(s)).len(),
            n <= i,
        decreases diagnostics.len() - i,
    {
        proof {
            lemma_vdiags_take(diagnostics@, i as int);
            ds.take(i as int).lemma_filter_push(ds[i as int], has_severity(s));
        }
        if diagnostics[i].severity == s {
            n = n + 1;
        }
        i = i + 1;
    }
    assert(ds.take(diagnostics.len() as int) =~= ds);
    n
}

impl RuleEngine {
    /// The suggestions of the diagnostics, each text once, in order of first
    /// appearance.
    pub fn generate_suggestions(diagnostics: &[Diagnostic]) -> (r: Vec<String>)
        ensures
            vstr(r@) == dedup_by(all_suggestions(vdiags(diagnostics@)), same_text()),
    {
        let ghost ds = vdiags(diagnostics@);
        let mut out: Vec<String> = Vec::new();
        let ghost mut acc: Seq<Seq<char>> = Seq::empty();
        let mut i: usize = 0;
        assert(ds.take(0) =~= Seq::<DiagnosticView>::empty());
        assert(vstr(out@) =~= Seq::<Seq<char>>::empty());
        while i < diagnostics.len()
            invariant
                i <= diagnostics.len(),
                ds == vdiags(diagnostics@),
                acc == all_suggestions(ds.take(i as int)),
                vstr(out@) == dedup_by(acc, same_text()),
            decreases diagnostics.len() - i,
        {
            let sugg = &diagnostics[i].suggestions;
            let ghost start = acc;
            let mut j: usize = 0;
            assert(ds[i as int].suggestions == vstr(sugg@));
            assert(start + vstr(sugg@).take(0) =~= start);
            while j < sugg.len()
                invariant
                    j <= sugg.len(),
                    acc == start + vstr(sugg@).take(j as int),
                    vstr(out@) == dedup_by(acc, same_text()),
                decreases sugg.len() - j,
            {
                push_new_text(&mut out, &sugg[j], Ghost(acc));
                proof {
                    assert(vstr(sugg@).take(j + 1) =~= vstr(sugg@).take(j as int).push(sugg@[j as int]@));
                    acc = acc.push(sugg@[j as int]@);
                    assert(acc =~= start + vstr(sugg@).take(j + 1));
                }
                j = j + 1;
            }
            proof {
                let s = ds.take(i + 1);
                assert(s.drop_last() =~= ds.take(i as int));
                assert(vstr(sugg@).take(sugg@.len() as int) =~= vstr(sugg@));
            }
            i = i + 1;
        }
        assert(ds.take(diagnostics.len() as int) =~= ds);
        out
    }

    /// The performance score (0 to 100) of a profile with these diagnostics.
    pub fn calculate_performance_score(diagnostics: &[Diagnostic], profile: &Profile) -> (score: u32)
        ensures
            score == spec_performance_score(vdiags(diagnostics@), *profile),
    {
        let ghost ds = vdiags(diagnostics@);
        // points lost, counted up to 200
        let mut lost: u32 = 0;
        let mut i: usize = 0;
        assert(ds.take(0) =~= Seq::<DiagnosticView>::empty());
        while i < diagnostics.len()
            invariant
                i <= diagnostics.len(),
                ds == vdiags(diagnostics@),
                lost <= 200,
                lost == (if total_penalty(ds.take(i as int)) >= 200 {
                    200
                } else {
                    total_penalty(ds.take(i as int))
                }),
            decreases diagnostics.len() - i,
        {
            let p: u32 = match diagnostics[i].severity {
                RuleSeverity::Error => 20,
                RuleSeverity::Warning => 10,
                RuleSeverity::Info => 3,
            };
            proof {
                let s = ds.take(i + 1);
                assert(s.drop_last() =~= ds.take(i as int));
                assert(s.last() == diagnostics@[i as int]@);
            }
            lost = if lost + p >= 200 {
                200
            } else {
                lost + p
            };
            i = i + 1;
        }
        assert(ds.take(diagnostics.len() as int) =~= ds);
        let t = time_points(parse_total_time_ms(profile.summary.total_time.as_str()));
        if lost + t >= 100 {
            0
        } else {
            100 - lost - t
        }
    }

    /// A one-sentence conclusion on the diagnostics of a profile.
    pub fn generate_conclusion(diagnostics: &[Diagnostic], profile: &Profile) -> (s: String)
        ensures
            s@ == spec_conclusion(vdiags(diagnostics@), *profile),
    {
        let ghost ds = vdiags(diagnostics@);
        if diagnostics.len() == 0 {
            return String::from_str("查询执行良好，未发现明显性能问题。");
        }
        let errors = count_with_severity(diagnostics, RuleSeverity::Error);
        let warnings = count_with_severity(diagnostics, RuleSeverity::Warning);
        let t = total_time_or_zero(profile);
        if errors > 0 {
            let mut s = String::from_str("查询存在");
            let n = u128_to_string(errors as u128);
            push_str(&mut s, n.as_str());
            push_str(&mut s, "个严重性能问题，执行时间较长（");
            let d = format_total_duration(t);
            push_str(&mut s, d.as_str());
            push_str(&mut s, "）。主要问题是");
            push_str(&mut s, diagnostics[0].rule_name.as_str());
            push_str(&mut s, "。建议优先解决严重问题。");
            assert(ds[0] == diagnostics@[0]@);
            s
        } else if warnings > 2 {
            let mut s = String::from_str("查询存在");
            let n = u128_to_string(warnings as u128);
            push_str(&mut s, n.as_str());
            push_str(&mut s, "个中等程度性能问题，整体性能需优化。执行时间");
            let d = format_total_duration(t);
            push_str(&mut s, d.as_str());
            push_str(&mut s, "。");
            s
        } else if lin_gt_exec(t, 1, Dec { mant: 300_000, exp: 0 }, 1) {
            let mut s = String::from_str("查询执行时间较长（");
            let d = format_total_duration(t);
            push_str(&mut s, d.as_str());
            push_str(&mut s, "），建议关注性能热点。");
            s
        } else {
            let mut s = String::from_str("查询发现");
            let n = u128_to_string(diagnostics.len() as u128);
            push_str(&mut s, n.as_str());
            push_str(&mut s, "个小问题，整体性能可接受。");
            s
        }
    }
}

// ---------------------------------------------------------------------------
// Laws
// ---------------------------------------------------------------------------

/// Laws of the merged suggestions: no text occurs twice, and a text occurs exactly
/// when some diagnostic suggests it.
pub proof fn lemma_suggestions_laws(ds: Seq<DiagnosticView>)
    ensures
        forall|i: int, j: int|
            0 <= i < j < dedup_by(all_suggestions(ds), same_text()).len() ==> #[trigger] dedup_by(
                all_suggestions(ds),
                same_text(),
            )[i] != #[trigger] dedup_by(all_suggestions(ds), same_text())[j],
        forall|t: Seq<char>|
            #[trigger] dedup_by(all_suggestions(ds), same_text()).contains(t) <==> all_suggestions(ds).contains(t),
{
    let a = all_suggestions(ds);
    let d = dedup_by(a, same_text());
    lemma_dedup_by_distinct(a, same_text());
    lemma_dedup_by_seen(a, same_text());
    assert forall|t: Seq<char>| #[trigger] d.contains(t) <==> a.contains(t) by {
        assert(seen(a, same_text(), t) == seen(d, same_text(), t));
        if d.contains(t) {
            let q = choose|q: int| 0 <= q < d.len() && d[q] == t;
            assert(same_text()(d[q]) == t);
            let j = choose|j: int| 0 <= j < a.len() && same_text()(a[j]) == t;
            assert(a[j] == t);
        }
        if a.contains(t) {
            let q = choose|q: int| 0 <= q < a.len() && a[q] == t;
            assert(same_text()(a[q]) == t);
            let j = choose|j: int| 0 <= j < d.len() && same_text()(d[j]) == t;
            assert(d[j] == t);
        }
    }
}

/// Laws of the performance score: it is at most 100; one more diagnostic never
/// raises it; and with no diagnostics and a total time of at most five minutes (or
/// none readable) it is 100.
pub proof fn lemma_score_laws(ds: Seq<DiagnosticView>, d: DiagnosticView, p: Profile)
    ensures
        spec_performance_score(ds, p) <= 100,
        spec_performance_score(ds.push(d), p) <= spec_performance_score(ds, p),
        ds.len() == 0 && (spec_parse_total_time_ms(p.summary.total_time@) matches Some(t) ==> !lin_gt(
            t,
            1,
            dint(300_000),
            1,
        )) ==> spec_performance_score(ds, p) == 100,
{
    assert(ds.push(d).drop_last() =~= ds);
    match spec_parse_total_time_ms(p.summary.total_time@) {
        Some(t) => {
            assert(pow10(0) == 1);
            assert(t.mant * 1 * 1 == t.mant);
            let den = t.den();
            assert(300_000 * den <= 1_800_000 * den && 1_800_000 * den <= 3_600_000 * den)
                by (nonlinear_arith)
                requires
                    den >= 0,
            ;
        },
        None => {},
    }
}

} // verus!
