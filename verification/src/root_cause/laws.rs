//! Laws of the root cause analysis.
use vstd::prelude::*;
use crate::model::{DiagnosticView, RuleSeverity};
use crate::uniq::{dedup_by, same_text, seen};
use crate::root_cause::{RootCauseView, EdgeView, spec_all_edges, rule_ids, present};
use crate::root_cause::roots::{
    root_ids, numbered_root_causes, by_impact, impact_is, spec_root_causes, impact, base_impact,
    root_cause_of, not_effect_fn, is_effect, rule_is, symptoms_of,
};
use crate::root_cause::chains::{next_ids, paths_from, children_paths};

verus! {

// ---------------------------------------------------------------------------
// Causal paths
// ---------------------------------------------------------------------------

/// Some edge leads from `a` to `b`.
pub open spec fn linked(edges: Seq<EdgeView>, a: Seq<char>, b: Seq<char>) -> bool {
    exists|j: int| 0 <= j < edges.len() && (#[trigger] edges[j]).cause == a && edges[j].effect == b
}

/// Consecutive ids of `p` are joined by an edge, and no id occurs twice.
pub open spec fn path_ok(edges: Seq<EdgeView>, p: Seq<Seq<char>>) -> bool {
    &&& forall|i: int| 0 <= i < p.len() - 1 ==> linked(edges, #[trigger] p[i], p[i + 1])
    &&& forall|i: int, k: int| 0 <= i < k < p.len() ==> p[i] != p[k]
}

/// A causal path from `start` of at most `max` steps.
pub open spec fn causal_path(edges: Seq<EdgeView>, start: Seq<char>, max: nat, q: Seq<Seq<char>>) -> bool {
    &&& 2 <= q.len() <= max + 1
    &&& q[0] == start
    &&& path_ok(edges, q)
}

proof fn lemma_next_ids(edges: Seq<EdgeView>, path: Seq<Seq<char>>)
    ensures
        forall|k: int|
            0 <= k < next_ids(edges, path).len() ==> !path.contains(#[trigger] next_ids(edges, path)[k])
                && exists|j: int|
                0 <= j < edges.len() && (#[trigger] edges[j]).cause == path.last() && edges[j].effect
                    == next_ids(edges, path)[k],
    decreases edges.len(),
{
    if edges.len() > 0 {
        let t = edges.drop_last();
        lemma_next_ids(t, path);
        let r = next_ids(edges, path);
        let p = next_ids(t, path);
        assert forall|k: int| 0 <= k < r.len() implies !path.contains(#[trigger] r[k]) && exists|j: int|
            0 <= j < edges.len() && (#[trigger] edges[j]).cause == path.last() && edges[j].effect == r[k] by {
            if k < p.len() {
                assert(r[k] == p[k]);
                let j = choose|j: int| 0 <= j < t.len() && (#[trigger] t[j]).cause == path.last() && t[j].effect == p[k];
                assert(edges[j] == t[j]);
            } else {
                assert(r[k] == edges.last().effect);
                assert(edges[edges.len() - 1] == edges.last());
            }
        }
    }
}

proof fn lemma_extend_ok(edges: Seq<EdgeView>, path: Seq<Seq<char>>, x: Seq<char>)
    requires
        path.len() > 0,
        path_ok(edges, path),
        !path.contains(x),
        exists|j: int| 0 <= j < edges.len() && (#[trigger] edges[j]).cause == path.last() && edges[j].effect == x,
    ensures
        path_ok(edges, path.push(x)),
{
    let q = path.push(x);
    assert forall|i: int| 0 <= i < q.len() - 1 implies linked(edges, #[trigger] q[i], q[i + 1]) by {
        if i < path.len() - 1 {
            assert(q[i] == path[i] && q[i + 1] == path[i + 1]);
        } else {
            assert(q[i] == path.last() && q[i + 1] == x);
        }
    }
    assert forall|i: int, k: int| 0 <= i < k < q.len() implies q[i] != q[k] by {
        if k == path.len() {
            assert(q[i] == path[i]);
            if path[i] == x {
                assert(path.contains(x));
            }
        } else {
            assert(q[i] == path[i] && q[k] == path[k]);
        }
    }
}

proof fn lemma_paths_from_ok(edges: Seq<EdgeView>, max: nat, path: Seq<Seq<char>>, depth: nat)
    requires
        path.len() == depth + 1,
        depth <= max,
        path_ok(edges, path),
    ensures
        forall|k: int|
            0 <= k < paths_from(edges, max, path, depth).len() ==> causal_path(
                edges,
                path[0],
                max,
                #[trigger] paths_from(edges, max, path, depth)[k],
            ),
    decreases max - depth, 1int, 0int,
{
    if !(depth >= max || next_ids(edges, path).len() == 0) {
        lemma_children_ok(edges, max, path, depth, next_ids(edges, path), 0);
        assert(paths_from(edges, max, path, depth) == children_paths(edges, max, path, depth, next_ids(edges, path), 0));
    } else if path.len() > 1 {
        let r = paths_from(edges, max, path, depth);
        assert(r == seq![path]);
        assert(r[0] == path);
        assert(causal_path(edges, path[0], max, path));
    }
}

proof fn lemma_children_ok(
    edges: Seq<EdgeView>,
    max: nat,
    path: Seq<Seq<char>>,
    depth: nat,
    next: Seq<Seq<char>>,
    j: nat,
)
    requires
        path.len() == depth + 1,
        depth < max,
        path_ok(edges, path),
        next == next_ids(edges, path),
    ensures
        forall|k: int|
            0 <= k < children_paths(edges, max, path, depth, next, j).len() ==> causal_path(
                edges,
                path[0],
                max,
                #[trigger] children_paths(edges, max, path, depth, next, j)[k],
            ),
    decreases max - depth, 0int, next.len() - j,
{
    if j < next.len() {
        lemma_children_ok(edges, max, path, depth, next, j + 1);
        lemma_next_ids(edges, path);
        let x = next[j as int];
        lemma_extend_ok(edges, path, x);
        let np = path.push(x);
        assert(np[0] == path[0]);
        lemma_paths_from_ok(edges, max, np, depth + 1);
        let a = children_paths(edges, max, path, depth, next, j + 1);
        let b = paths_from(edges, max, np, depth + 1);
        let c = children_paths(edges, max, path, depth, next, j);
        assert(c == a + b);
        assert forall|k: int| 0 <= k < c.len() implies causal_path(edges, path[0], max, #[trigger] c[k]) by {
            if k < a.len() {
                assert(c[k] == a[k]);
            } else {
                assert(c[k] == b[k - a.len()]);
            }
        }
    }
}

/// Law of the causal paths: each path `find_paths_from` returns starts at `start`,
/// has between two and `max + 1` ids, follows an edge at each step, and visits no
/// id twice.
pub proof fn lemma_paths_are_causal(edges: Seq<EdgeView>, start: Seq<char>, max: nat)
    ensures
        forall|k: int|
            0 <= k < paths_from(edges, max, seq![start], 0).len() ==> causal_path(
                edges,
                start,
                max,
                #[trigger] paths_from(edges, max, seq![start], 0)[k],
            ),
{
    lemma_paths_from_ok(edges, max, seq![start], 0);
}

// ---------------------------------------------------------------------------
// Root causes
// ---------------------------------------------------------------------------

proof fn lemma_by_impact(rcs: Seq<RootCauseView>, v: nat)
    ensures
        forall|i: int|
            0 <= i < by_impact(rcs, v).len() ==> rcs.contains(#[trigger] by_impact(rcs, v)[i])
                && by_impact(rcs, v)[i].impact_percentage <= v,
        forall|i: int, k: int|
            0 <= i < k < by_impact(rcs, v).len() ==> (#[trigger] by_impact(rcs, v)[i]).impact_percentage
                >= (#[trigger] by_impact(rcs, v)[k]).impact_percentage,
        forall|i: int|
            0 <= i < rcs.len() && rcs[i].impact_percentage <= v ==> by_impact(rcs, v).contains(#[trigger] rcs[i]),
    decreases v,
{
    broadcast use Seq::lemma_filter_pred, Seq::lemma_filter_contains, Seq::lemma_filter_contains_rev;
    let f = rcs.filter(impact_is(v));
    let r = by_impact(rcs, v);
    if v == 0 {
        assert forall|i: int| 0 <= i < r.len() implies rcs.contains(#[trigger] r[i]) && r[i].impact_percentage <= v by {
            assert(f.contains(f[i]));
        }
        assert forall|i: int| 0 <= i < rcs.len() && rcs[i].impact_percentage <= v implies r.contains(
            #[trigger] rcs[i],
        ) by {
            assert(impact_is(v)(rcs[i]));
        }
    } else {
        lemma_by_impact(rcs, (v - 1) as nat);
        let b = by_impact(rcs, (v - 1) as nat);
        assert(r == f + b);
        assert forall|i: int| 0 <= i < r.len() implies rcs.contains(#[trigger] r[i]) && r[i].impact_percentage <= v by {
            if i < f.len() {
                assert(r[i] == f[i]);
                assert(f.contains(f[i]));
            } else {
                assert(r[i] == b[i - f.len()]);
            }
        }
        assert forall|i: int, k: int| 0 <= i < k < r.len() implies (#[trigger] r[i]).impact_percentage >= (
        #[trigger] r[k]).impact_percentage by {
            if k < f.len() {
                assert(r[i] == f[i] && r[k] == f[k]);
            } else if i < f.len() {
                assert(r[i] == f[i] && r[k] == b[k - f.len()]);
            } else {
                assert(r[i] == b[i - f.len()] && r[k] == b[k - f.len()]);
            }
        }
        assert forall|i: int| 0 <= i < rcs.len() && rcs[i].impact_percentage <= v implies r.contains(
            #[trigger] rcs[i],
        ) by {
            if rcs[i].impact_percentage == v {
                assert(impact_is(v)(rcs[i]));
                assert(f.contains(rcs[i]));
                let q = choose|q: int| 0 <= q < f.len() && f[q] == rcs[i];
                assert(r[q] == rcs[i]);
            } else {
                assert(b.contains(rcs[i]));
                let q = choose|q: int| 0 <= q < b.len() && b[q] == rcs[i];
                assert(r[f.len() + q] == rcs[i]);
            }
        }
    }
}

proof fn lemma_dedup_nonempty(s: Seq<Seq<char>>)
    requires
        s.len() > 0,
    ensures
        dedup_by(s, same_text()).len() > 0,
    decreases s.len(),
{
    let t = s.drop_last();
    if t.len() > 0 {
        lemma_dedup_nonempty(t);
    } else {
        assert(!seen(t, same_text(), s.last()));
    }
}

/// Laws of the root causes: they come by decreasing impact; each impact lies between
/// 15 and 100 and each confidence is 100; each root cause stands for one diagnosed
/// rule id; and there is at least one root cause whenever there is a diagnostic.
pub proof fn lemma_root_cause_laws(ds: Seq<DiagnosticView>)
    ensures
        forall|i: int, k: int|
            0 <= i < k < spec_root_causes(ds, spec_all_edges(ds)).len() ==> (#[trigger] spec_root_causes(
                ds,
                spec_all_edges(ds),
            )[i]).impact_percentage >= (#[trigger] spec_root_causes(ds, spec_all_edges(ds))[k]).impact_percentage,
        forall|i: int|
            0 <= i < spec_root_causes(ds, spec_all_edges(ds)).len() ==> {
                let rc = #[trigger] spec_root_causes(ds, spec_all_edges(ds))[i];
                &&& 15 <= rc.impact_percentage <= 100
                &&& rc.confidence == 100
                &&& rc.diagnostic_ids.len() == 1
                &&& present(ds, rc.diagnostic_ids[0])
            },
        ds.len() > 0 ==> spec_root_causes(ds, spec_all_edges(ds)).len() > 0,
{
    broadcast use Seq::lemma_filter_contains_rev;
    let edges = spec_all_edges(ds);
    let ids = root_ids(ds, edges);
    let all = numbered_root_causes(ds, edges, ids);
    let r = spec_root_causes(ds, edges);
    lemma_by_impact(all, 100);
    // every root id is diagnosed
    crate::uniq::lemma_dedup_by_items(rule_ids(ds), same_text());
    let m = if ds.len() < 3 { ds.len() as int } else { 3 };
    crate::uniq::lemma_dedup_by_items(rule_ids(ds).take(m), same_text());
    assert forall|i: int| 0 <= i < ids.len() implies present(ds, #[trigger] ids[i]) by {
        let d = dedup_by(rule_ids(ds), same_text());
        let f = d.filter(not_effect_fn(edges));
        if f.len() > 0 {
            assert(f.contains(f[i]));
            assert(d.contains(f[i]));
            let q = choose|q: int| 0 <= q < d.len() && d[q] == f[i];
            let j = choose|j: int| 0 <= j < rule_ids(ds).len() && rule_ids(ds)[j] == d[q];
            assert(ds[j].rule_id == ids[i]);
        } else {
            let e = dedup_by(rule_ids(ds).take(m), same_text());
            let j = choose|j: int| 0 <= j < rule_ids(ds).take(m).len() && rule_ids(ds).take(m)[j] == e[i];
            assert(ds[j].rule_id == ids[i]);
        }
    }
    assert forall|i: int| 0 <= i < r.len() implies {
        let rc = #[trigger] r[i];
        &&& 15 <= rc.impact_percentage <= 100
        &&& rc.confidence == 100
        &&& rc.diagnostic_ids.len() == 1
        &&& present(ds, rc.diagnostic_ids[0])
    } by {
        assert(all.contains(r[i]));
        let q = choose|q: int| 0 <= q < all.len() && all[q] == r[i];
        assert(all[q] == root_cause_of(ds, edges, ids[q], (q + 1) as nat));
        assert(present(ds, ids[q]));
    }
    if ds.len() > 0 {
        let d = dedup_by(rule_ids(ds), same_text());
        if d.filter(not_effect_fn(edges)).len() == 0 {
            assert(rule_ids(ds).take(m).len() > 0);
            lemma_dedup_nonempty(rule_ids(ds).take(m));
        }
        assert(ids.len() > 0);
        assert(all[0].impact_percentage <= 100);
        assert(r.contains(all[0]));
    }
}

// ---------------------------------------------------------------------------
// Impact of a root cause
// ---------------------------------------------------------------------------

/// The first item of a filter is the first item that passes it.
proof fn lemma_filter_first<A>(s: Seq<A>, p: spec_fn(A) -> bool)
    requires
        s.filter(p).len() > 0,
    ensures
        exists|k: int|
            0 <= k < s.len() && p(s[k]) && (forall|j: int| 0 <= j < k ==> !p(#[trigger] s[j])) && s.filter(p)[0]
                == s[k],
    decreases s.len(),
{
    reveal(Seq::filter);
    broadcast use Seq::lemma_filter_contains;
    let s0 = s.drop_last();
    assert(s.len() > 0);
    if s0.filter(p).len() > 0 {
        lemma_filter_first(s0, p);
        let k = choose|k: int|
            0 <= k < s0.len() && p(s0[k]) && (forall|j: int| 0 <= j < k ==> !p(#[trigger] s0[j])) && s0.filter(p)[0]
                == s0[k];
        assert(s[k] == s0[k]);
        assert forall|j: int| 0 <= j < k implies !p(#[trigger] s[j]) by {
            assert(s[j] == s0[j]);
        }
        assert(s.filter(p)[0] == s0.filter(p)[0]);
    } else {
        let k = s.len() - 1;
        assert forall|j: int| 0 <= j < k implies !p(#[trigger] s[j]) by {
            assert(s[j] == s0[j]);
            if p(s0[j]) {
                assert(s0.filter(p).contains(s0[j]));
            }
        }
        assert(p(s.last()));
        assert(s.filter(p) == s0.filter(p).push(s.last()));
    }
}

/// Points of a root cause by the severity of its first diagnostic.
pub open spec fn severity_points(s: RuleSeverity) -> nat {
    match s {
        RuleSeverity::Error => 40,
        RuleSeverity::Warning => 25,
        RuleSeverity::Info => 15,
    }
}

proof fn lemma_root_ids_present(ds: Seq<DiagnosticView>, edges: Seq<EdgeView>)
    ensures
        forall|i: int| 0 <= i < root_ids(ds, edges).len() ==> present(ds, #[trigger] root_ids(ds, edges)[i]),
{
    broadcast use Seq::lemma_filter_contains_rev;
    let ids = root_ids(ds, edges);
    crate::uniq::lemma_dedup_by_items(rule_ids(ds), same_text());
    let m = if ds.len() < 3 { ds.len() as int } else { 3 };
    crate::uniq::lemma_dedup_by_items(rule_ids(ds).take(m), same_text());
    assert forall|i: int| 0 <= i < ids.len() implies present(ds, #[trigger] ids[i]) by {
        let d = dedup_by(rule_ids(ds), same_text());
        let f = d.filter(not_effect_fn(edges));
        if f.len() > 0 {
            assert(f.contains(f[i]));
            assert(d.contains(f[i]));
            let q = choose|q: int| 0 <= q < d.len() && d[q] == f[i];
            let j = choose|j: int| 0 <= j < rule_ids(ds).len() && rule_ids(ds)[j] == d[q];
            assert(ds[j].rule_id == ids[i]);
        } else {
            let e = dedup_by(rule_ids(ds).take(m), same_text());
            let j = choose|j: int| 0 <= j < rule_ids(ds).take(m).len() && rule_ids(ds).take(m)[j] == e[i];
            assert(ds[j].rule_id == ids[i]);
        }
    }
}

/// The impact of a root cause as the severity of the first diagnostic of its rule id
/// and its symptoms make it.
pub open spec fn impact_of_first(ds: Seq<DiagnosticView>, rc: RootCauseView) -> bool {
    let id = rc.diagnostic_ids[0];
    exists|k: int|
        0 <= k < ds.len() && ds[k].rule_id == id && (forall|j: int| 0 <= j < k ==> (#[trigger] ds[j]).rule_id != id)
            && rc.impact_percentage == (if severity_points(ds[k].severity) + 10 * rc.symptoms.len() > 100 {
            100
        } else {
            severity_points(ds[k].severity) + 10 * rc.symptoms.len()
        })
}

proof fn lemma_one_impact(ds: Seq<DiagnosticView>, edges: Seq<EdgeView>, id: Seq<char>, n: nat)
    requires
        present(ds, id),
    ensures
        impact_of_first(ds, root_cause_of(ds, edges, id, n)),
{
    broadcast use Seq::lemma_filter_contains;
    let w = choose|w: int| 0 <= w < ds.len() && (#[trigger] ds[w]).rule_id == id;
    assert(rule_is(id)(ds[w]));
    assert(ds.filter(rule_is(id)).contains(ds[w]));
    lemma_filter_first(ds, rule_is(id));
    let k = choose|k: int|
        0 <= k < ds.len() && rule_is(id)(ds[k]) && (forall|j: int| 0 <= j < k ==> !rule_is(id)(#[trigger] ds[j]))
            && ds.filter(rule_is(id))[0] == ds[k];
    assert forall|j: int| 0 <= j < k implies (#[trigger] ds[j]).rule_id != id by {
        assert(!rule_is(id)(ds[j]));
    }
    let rc = root_cause_of(ds, edges, id, n);
    assert(rc.diagnostic_ids[0] == id);
    assert(base_impact(ds[k].severity) == severity_points(ds[k].severity));
}

/// Law of root-cause impact: each root cause stands for a rule id whose first
/// diagnostic weighs 40 points when it is an error, 25 when a warning and 15 when an
/// info; each symptom adds 10, and the impact is capped at 100. So with equal
/// symptoms an error outweighs a warning, and a warning an info.
pub proof fn lemma_root_cause_impact(ds: Seq<DiagnosticView>, edges: Seq<EdgeView>)
    ensures
        forall|i: int|
            0 <= i < spec_root_causes(ds, edges).len() ==> impact_of_first(ds, #[trigger] spec_root_causes(ds, edges)[i]),
        severity_points(RuleSeverity::Error) > severity_points(RuleSeverity::Warning) > severity_points(
            RuleSeverity::Info,
        ),
{
    let ids = root_ids(ds, edges);
    let all = numbered_root_causes(ds, edges, ids);
    let r = spec_root_causes(ds, edges);
    lemma_by_impact(all, 100);
    lemma_root_ids_present(ds, edges);
    assert forall|i: int| 0 <= i < r.len() implies impact_of_first(ds, #[trigger] r[i]) by {
        assert(all.contains(r[i]));
        let q = choose|q: int| 0 <= q < all.len() && all[q] == r[i];
        assert(all[q] == root_cause_of(ds, edges, ids[q], (q + 1) as nat));
        assert(present(ds, ids[q]));
        lemma_one_impact(ds, edges, ids[q], (q + 1) as nat);
    }
}

} // verus!
