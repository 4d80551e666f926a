//! The root causes: diagnosed rule ids that no causal edge leads to.
use vstd::prelude::*;
use crate::num::{dec_str, zero_pad, u128_to_string, pad_zeros};
use crate::metrics::push_str;
use crate::model::{Diagnostic, DiagnosticView, RuleSeverity, vdiags, vstr, clone_strings, lemma_vstr_push,
    lemma_vdiags_take};
use crate::text::str_eq;
use crate::uniq::{dedup_by, same_text, push_new_text, lemma_dedup_by_items};
use crate::root_cause::{RootCause, RootCauseView, CausalEdge, EdgeView, vedges, rule_ids, node_paths, present};

verus! {

/// Whether some edge leads to `id`.
pub open spec fn is_effect(edges: Seq<EdgeView>, id: Seq<char>) -> bool {
    exists|j: int| 0 <= j < edges.len() && (#[trigger] edges[j]).effect == id
}

pub open spec fn not_effect_fn(edges: Seq<EdgeView>) -> spec_fn(Seq<char>) -> bool {
    |id: Seq<char>| !is_effect(edges, id)
}

/// The rule ids of the root causes: the diagnosed ids (each once, in order of first
/// appearance) that no edge leads to; when every id is led to, the ids of the first
/// three diagnostics.
pub open spec fn root_ids(ds: Seq<DiagnosticView>, edges: Seq<EdgeView>) -> Seq<Seq<char>> {
    let r = dedup_by(rule_ids(ds), same_text()).filter(not_effect_fn(edges));
    if r.len() == 0 {
        dedup_by(rule_ids(ds).take(if ds.len() < 3 { ds.len() as int } else { 3 }), same_text())
    } else {
        r
    }
}

pub open spec fn rule_is(id: Seq<char>) -> spec_fn(DiagnosticView) -> bool {
    |d: DiagnosticView| d.rule_id == id
}

/// The effects of the edges leaving `id`, in edge order.
pub open spec fn symptoms_of(edges: Seq<EdgeView>, id: Seq<char>) -> Seq<Seq<char>>
    decreases edges.len(),
{
    if edges.len() == 0 {
        Seq::empty()
    } else {
        let r = symptoms_of(edges.drop_last(), id);
        if edges.last().cause == id {
            r.push(edges.last().effect)
        } else {
            r
        }
    }
}

/// Base impact of a root cause by the severity of its first diagnostic.
pub open spec fn base_impact(s: RuleSeverity) -> nat {
    match s {
        RuleSeverity::Error => 40,
        RuleSeverity::Warning => 25,
        RuleSeverity::Info => 15,
    }
}

/// Impact: the base impact plus 10 per symptom, at most 100.
pub open spec fn impact(s: RuleSeverity, symptoms: nat) -> nat {
    if base_impact(s) + 10 * symptoms > 100 {
        100
    } else {
        base_impact(s) + 10 * symptoms
    }
}

/// `"RC"` and `n` written with at least three digits.
pub open spec fn rc_label(n: nat) -> Seq<char> {
    "RC"@ + zero_pad(dec_str(n), 3)
}

/// The `n`-th root cause, for rule id `id`: described by the first diagnostic of
/// that id, affecting the nodes of all of them.
pub open spec fn root_cause_of(ds: Seq<DiagnosticView>, edges: Seq<EdgeView>, id: Seq<char>, n: nat) -> RootCauseView {
    let mine = ds.filter(rule_is(id));
    let first = mine[0];
    let symptoms = symptoms_of(edges, id);
    RootCauseView {
        id: rc_label(n),
        diagnostic_ids: seq![id],
        description: first.message,
        impact_percentage: impact(first.severity, symptoms.len()) as u32,
        confidence: 100,
        affected_nodes: node_paths(mine),
        evidence: seq![first.reason],
        symptoms,
        suggestions: first.suggestions,
    }
}

/// The root causes in the order of their ids, numbered from 1.
pub open spec fn numbered_root_causes(ds: Seq<DiagnosticView>, edges: Seq<EdgeView>, ids: Seq<Seq<char>>) -> Seq<
    RootCauseView,
> {
    Seq::new(ids.len(), |i: int| root_cause_of(ds, edges, ids[i], (i + 1) as nat))
}

pub open spec fn impact_is(v: nat) -> spec_fn(RootCauseView) -> bool {
    |r: RootCauseView| r.impact_percentage == v
}

/// The root causes with impact at most `v`, by decreasing impact, keeping the order
/// of equal impacts.
pub open spec fn by_impact(rcs: Seq<RootCauseView>, v: nat) -> Seq<RootCauseView>
    decreases v,
{
    if v == 0 {
        rcs.filter(impact_is(0))
    } else {
        rcs.filter(impact_is(v)) + by_impact(rcs, (v - 1) as nat)
    }
}

/// The root causes of the diagnostics under the causal edges, by decreasing impact.
pub open spec fn spec_root_causes(ds: Seq<DiagnosticView>, edges: Seq<EdgeView>) -> Seq<RootCauseView> {
    by_impact(numbered_root_causes(ds, edges, root_ids(ds, edges)), 100)
}

pub open spec fn vroots(v: Seq<RootCause>) -> Seq<RootCauseView> {
    v.map_values(|r: RootCause| r@)
}

impl RootCause {
    /// A copy of this root cause.
    pub fn copy(&self) -> (r: RootCause)
        ensures
            r@ == self@,
    {
        RootCause {
            id: self.id.clone(),
            diagnostic_ids: clone_strings(&self.diagnostic_ids),
            description: self.description.clone(),
            impact_percentage: self.impact_percentage,
            confidence: self.confidence,
            affected_nodes: clone_strings(&self.affected_nodes),
            evidence: clone_strings(&self.evidence),
            symptoms: clone_strings(&self.symptoms),
            suggestions: clone_strings(&self.suggestions),
        }
    }
}

fn is_effect_exec(edges: &[CausalEdge], id: &str) -> (b: bool)
    ensures
        b == is_effect(vedges(edges@), id@),
{
    let ghost s = vedges(edges@);
    let mut i: usize = 0;
    while i < edges.len()
        invariant
            i <= edges.len(),
            s == vedges(edges@),
            forall|j: int| 0 <= j < i ==> (#[trigger] s[j]).effect != id@,
        decreases edges.len() - i,
    {
        assert(s[i as int] == edges@[i as int]@);
        if str_eq(edges[i].effect.as_str(), id) {
            return true;
        }
        i = i + 1;
    }
    false
}

fn symptoms_exec(edges: &[CausalEdge], id: &str) -> (r: Vec<String>)
    ensures
        vstr(r@) == symptoms_of(vedges(edges@), id@),
{
    let ghost s = vedges(edges@);
    let mut r: Vec<String> = Vec::new();
    let mut i: usize = 0;
    assert(s.take(0) =~= Seq::<EdgeView>::empty());
    assert(vstr(r@) =~= Seq::<Seq<char>>::empty());
    while i < edges.len()
        invariant
            i <= edges.len(),
            s == vedges(edges@),
            vstr(r@) == symptoms_of(s.take(i as int), id@),
        decreases edges.len() - i,
    {
        let ghost t = s.take(i + 1);
        assert(t.drop_last() =~= s.take(i as int));
        assert(t.last() == edges@[i as int]@);
        if str_eq(edges[i].cause.as_str(), id) {
            let e = edges[i].effect.clone();
            proof {
                lemma_vstr_push(r@, e);
            }
            r.push(e);
        }
        i = i + 1;
    }
    assert(s.take(edges.len() as int) =~= s);
    r
}

/// The distinct rule ids of the first `n` diagnostics, in order of first appearance.
fn distinct_ids(ds: &[Diagnostic], n: usize) -> (r: Vec<String>)
    requires
        n <= ds.len(),
    ensures
        vstr(r@) == dedup_by(rule_ids(vdiags(ds@)).take(n as int), same_text()),
{
    let ghost s = rule_ids(vdiags(ds@));
    let mut out: Vec<String> = Vec::new();
    let mut i: usize = 0;
    assert(s.take(0) =~= Seq::<Seq<char>>::empty());
    assert(vstr(out@) =~= Seq::<Seq<char>>::empty());
    while i < n
        invariant
            i <= n <= ds.len(),
            s == rule_ids(vdiags(ds@)),
            vstr(out@) == dedup_by(s.take(i as int), same_text()),
        decreases n - i,
    {
        push_new_text(&mut out, &ds[i].rule_id, Ghost(s.take(i as int)));
        assert(s.take(i + 1) =~= s.take(i as int).push(ds@[i as int].rule_id@));
        i = i + 1;
    }
    out
}

/// The ids of the root causes (see `root_ids`).
fn root_ids_exec(ds: &[Diagnostic], edges: &[CausalEdge]) -> (r: Vec<String>)
    ensures
        vstr(r@) == root_ids(vdiags(ds@), vedges(edges@)),
        forall|i: int| 0 <= i < r@.len() ==> present(vdiags(ds@), #[trigger] r@[i]@),
{
    let ghost s = vdiags(ds@);
    let ghost e = vedges(edges@);
    let all = distinct_ids(ds, ds.len());
    assert(rule_ids(s).take(ds.len() as int) =~= rule_ids(s));
    proof {
        lemma_dedup_by_items(rule_ids(s), same_text());
        assert forall|k: int| 0 <= k < all@.len() implies present(s, #[trigger] all@[k]@) by {
            let d = dedup_by(rule_ids(s), same_text());
            assert(d[k] == all@[k]@);
            let j = choose|j: int| 0 <= j < rule_ids(s).len() && rule_ids(s)[j] == d[k];
            assert(s[j].rule_id == all@[k]@);
        }
    }
    let mut r: Vec<String> = Vec::new();
    let mut i: usize = 0;
    proof {
        reveal(Seq::filter);
        assert(vstr(all@).take(0) =~= Seq::<Seq<char>>::empty());
        assert(vstr(r@) =~= Seq::<Seq<char>>::empty());
    }
    while i < all.len()
        invariant
            i <= all.len(),
            s == vdiags(ds@),
            e == vedges(edges@),
            vstr(all@) == dedup_by(rule_ids(s), same_text()),
            forall|k: int| 0 <= k < all@.len() ==> present(s, #[trigger] all@[k]@),
            vstr(r@) == vstr(all@).take(i as int).filter(not_effect_fn(e)),
            forall|k: int| 0 <= k < r@.len() ==> present(s, #[trigger] r@[k]@),
        decreases all.len() - i,
    {
        proof {
            assert(vstr(all@).take(i + 1) =~= vstr(all@).take(i as int).push(all@[i as int]@));
            vstr(all@).take(i as int).lemma_filter_push(all@[i as int]@, not_effect_fn(e));
        }
        if !is_effect_exec(edges, all[i].as_str()) {
            let c = all[i].clone();
            proof {
                lemma_vstr_push(r@, c);
            }
            r.push(c);
        }
        i = i + 1;
    }
    assert(vstr(all@).take(all.len() as int) =~= vstr(all@));
    if r.len() == 0 {
        let n = if ds.len() < 3 {
            ds.len()
        } else {
            3
        };
        let f = distinct_ids(ds, n);
        proof {
            lemma_dedup_by_items(rule_ids(s).take(n as int), same_text());
            assert forall|k: int| 0 <= k < f@.len() implies present(s, #[trigger] f@[k]@) by {
                let d = dedup_by(rule_ids(s).take(n as int), same_text());
                assert(d[k] == f@[k]@);
                let j = choose|j: int| 0 <= j < n && rule_ids(s).take(n as int)[j] == d[k];
                assert(s[j].rule_id == f@[k]@);
            }
        }
        f
    } else {
        r
    }
}

/// The diagnostics of rule `id`: the index of the first one and all their node
/// paths.
fn diagnostics_of(ds: &[Diagnostic], id: &str) -> (r: (usize, Vec<String>))
    requires
        present(vdiags(ds@), id@),
    ensures
        r.0 < ds.len(),
        vdiags(ds@).filter(rule_is(id@)).len() > 0,
        ds@[r.0 as int]@ == vdiags(ds@).filter(rule_is(id@))[0],
        vstr(r.1@) == node_paths(vdiags(ds@).filter(rule_is(id@))),
{
    let ghost s = vdiags(ds@);
    let mut first: Option<usize> = None;
    let mut nodes: Vec<String> = Vec::new();
    let mut i: usize = 0;
    proof {
        reveal(Seq::filter);
        assert(s.take(0) =~= Seq::<DiagnosticView>::empty());
        assert(vstr(nodes@) =~= Seq::<Seq<char>>::empty());
    }
    while i < ds.len()
        invariant
            i <= ds.len(),
            s == vdiags(ds@),
            vstr(nodes@) == node_paths(s.take(i as int).filter(rule_is(id@))),
            first is None ==> s.take(i as int).filter(rule_is(id@)).len() == 0,
            first matches Some(f) ==> f < i && s.take(i as int).filter(rule_is(id@)).len() > 0
                && s[f as int] == s.take(i as int).filter(rule_is(id@))[0],
        decreases ds.len() - i,
    {
        let ghost before = s.take(i as int).filter(rule_is(id@));
        proof {
            lemma_vdiags_take(ds@, i as int);
            s.take(i as int).lemma_filter_push(s[i as int], rule_is(id@));
        }
        if str_eq(ds[i].rule_id.as_str(), id) {
            if first.is_none() {
                first = Some(i);
            }
            let p = ds[i].node_path.clone();
            proof {
                lemma_vstr_push(nodes@, p);
                assert(node_paths(before.push(s[i as int])) =~= node_paths(before).push(p@));
            }
            nodes.push(p);
        }
        i = i + 1;
    }
    assert(s.take(ds.len() as int) =~= s);
    proof {
        if first is None {
            let j = choose|j: int| 0 <= j < s.len() && (#[trigger] s[j]).rule_id == id@;
            s.lemma_filter_contains(rule_is(id@), j);
        }
    }
    (first.unwrap(), nodes)
}

fn base_impact_exec(s: RuleSeverity) -> (r: u32)
    ensures
        r == base_impact(s),
{
    match s {
        RuleSeverity::Error => 40,
        RuleSeverity::Warning => 25,
        RuleSeverity::Info => 15,
    }
}

/// `"RC"` and `n` with at least three digits.
fn rc_label_exec(n: usize) -> (s: String)
    ensures
        s@ == rc_label(n as nat),
{
    let digits = u128_to_string(n as u128);
    let padded = pad_zeros(digits.as_str(), 3);
    let mut s = String::from_str("RC");
    push_str(&mut s, padded.as_str());
    s
}

fn root_cause_exec(ds: &[Diagnostic], edges: &[CausalEdge], id: &str, n: usize) -> (r: RootCause)
    requires
        present(vdiags(ds@), id@),
    ensures
        r@ == root_cause_of(vdiags(ds@), vedges(edges@), id@, n as nat),
{
    let (f, nodes) = diagnostics_of(ds, id);
    let first = &ds[f];
    let symptoms = symptoms_exec(edges, id);
    let count = symptoms.len();
    let raw: u64 = if count > 10 {
        101
    } else {
        base_impact_exec(first.severity) as u64 + 10 * (count as u64)
    };
    let imp: u32 = if raw > 100 {
        100
    } else {
        raw as u32
    };
    let mut ids: Vec<String> = Vec::new();
    ids.push(String::from_str(id));
    let mut evidence: Vec<String> = Vec::new();
    evidence.push(first.reason.clone());
    let r = RootCause {
        id: rc_label_exec(n),
        diagnostic_ids: ids,
        description: first.message.clone(),
        impact_percentage: imp,
        confidence: 100,
        affected_nodes: nodes,
        evidence,
        symptoms,
        suggestions: clone_strings(&first.suggestions),
    };
    assert(r@.diagnostic_ids =~= seq![id@]);
    assert(r@.evidence =~= seq![first.reason@]);
    r
}

fn push_with_impact(out: &mut Vec<RootCause>, v: &Vec<RootCause>, imp: u32)
    ensures
        vroots(final(out)@) == vroots(old(out)@) + vroots(v@).filter(impact_is(imp as nat)),
{
    let ghost base = vroots(out@);
    let ghost s = vroots(v@);
    let mut i: usize = 0;
    proof {
        reveal(Seq::filter);
        assert(s.take(0) =~= Seq::<RootCauseView>::empty());
        assert(base + Seq::<RootCauseView>::empty() =~= base);
    }
    while i < v.len()
        invariant
            i <= v.len(),
            s == vroots(v@),
            vroots(out@) == base + s.take(i as int).filter(impact_is(imp as nat)),
        decreases v.len() - i,
    {
        proof {
            assert(s.take(i + 1) =~= s.take(i as int).push(v@[i as int]@));
            s.take(i as int).lemma_filter_push(v@[i as int]@, impact_is(imp as nat));
        }
        if v[i].impact_percentage == imp {
            let c = v[i].copy();
            let ghost before = vroots(out@);
            out.push(c);
            assert(vroots(out@) =~= before.push(c@));
        }
        i = i + 1;
    }
    assert(s.take(v.len() as int) =~= s);
}

/// The root causes of the diagnostics under the causal edges: for each root id,
/// numbered in order, the description, evidence and suggestions of its first
/// diagnostic, the nodes of all its diagnostics, its symptoms and its impact; then
/// ordered by decreasing impact.
pub fn identify_root_causes(diagnostics: &[Diagnostic], edges: &[CausalEdge]) -> (r: Vec<RootCause>)
    ensures
        vroots(r@) == spec_root_causes(vdiags(diagnostics@), vedges(edges@)),
{
    let ghost s = vdiags(diagnostics@);
    let ghost e = vedges(edges@);
    let ids = root_ids_exec(diagnostics, edges);
    let ghost sids = vstr(ids@);
    let mut numbered: Vec<RootCause> = Vec::new();
    let mut i: usize = 0;
    while i < ids.len()
        invariant
            i <= ids.len(),
            s == vdiags(diagnostics@),
            e == vedges(edges@),
            sids == vstr(ids@),
            forall|k: int| 0 <= k < ids@.len() ==> present(s, #[trigger] ids@[k]@),
            vroots(numbered@) =~= numbered_root_causes(s, e, sids).take(i as int),
        decreases ids.len() - i,
    {
        let rc = root_cause_exec(diagnostics, edges, ids[i].as_str(), i + 1);
        let ghost before = vroots(numbered@);
        numbered.push(rc);
        assert(vroots(numbered@) =~= before.push(rc@));
        i = i + 1;
    }
    let ghost all = numbered_root_causes(s, e, sids);
    assert(vroots(numbered@) =~= all);
    let mut out: Vec<RootCause> = Vec::new();
    let mut w: u32 = 101;
    assert(vroots(out@) + by_impact(all, 100) =~= by_impact(all, 100));
    while w > 0
        invariant
            w <= 101,
            vroots(numbered@) == all,
            vroots(out@) + (if w == 0 {
                Seq::<RootCauseView>::empty()
            } else {
                by_impact(all, (w - 1) as nat)
            }) == by_impact(all, 100),
        decreases w,
    {
        w = w - 1;
        let ghost before = vroots(out@);
        push_with_impact(&mut out, &numbered, w);
        if w == 0 {
            assert(vroots(out@) + Seq::<RootCauseView>::empty() =~= by_impact(all, 100));
        } else {
            assert(by_impact(all, w as nat) == all.filter(impact_is(w as nat)) + by_impact(all, (w - 1) as nat));
            assert(vroots(out@) + by_impact(all, (w - 1) as nat) =~= by_impact(all, 100));
        }
    }
    assert(vroots(out@) =~= by_impact(all, 100));
    out
}

} // verus!
