//! The analysis of a parsed profile: diagnostics, their aggregation, hotspots,
//! conclusion, suggestions and score, with the execution tree marked where
//! diagnostics apply.
use vstd::prelude::*;
use crate::model::{Diagnostic, DiagnosticView, HotSpot, HotSpotView, vdiags, vstr, spec_to_hotspot, lemma_vstr_push};
use crate::tree::{ExecutionTree, ExecutionTreeNode, Profile, ProfileSummary};
use crate::uniq::{dedup_by, same_text, seen, lemma_dedup_by_seen};
use crate::engine::{RuleEngine, spec_analyze, default_config};
use crate::engine::report::{all_suggestions, spec_conclusion, spec_performance_score};
use crate::suggestion::vhots;
use crate::analysis::{
    DiagnosticResult, AggregatedDiagnostic, ResultView, AggregatedView, vresults, vaggs, result_of,
    spec_aggregate, aggregate_diagnostics,
};

verus! {

/// Complete analysis response.
#[derive(Debug, Clone)]
pub struct ProfileAnalysisResponse {
    pub hotspots: Vec<HotSpot>,
    pub conclusion: String,
    pub suggestions: Vec<String>,
    /// Performance score, 0 to 100.
    pub performance_score: u32,
    pub execution_tree: Option<ExecutionTree>,
    pub summary: Option<ProfileSummary>,
    pub diagnostics: Vec<DiagnosticResult>,
    pub aggregated_diagnostics: Vec<AggregatedDiagnostic>,
    /// The diagnostics of each plan node, by plan node id in order of first
    /// appearance.
    pub node_diagnostics: Vec<(i32, Vec<DiagnosticResult>)>,
    pub profile_content: Option<String>,
}

/// The reported forms of diagnostics.
pub open spec fn results_view(s: Seq<DiagnosticView>) -> Seq<ResultView> {
    s.map_values(|d: DiagnosticView| result_of(d))
}

/// The hotspot forms of diagnostics.
pub open spec fn hotspots_view(s: Seq<DiagnosticView>) -> Seq<HotSpotView> {
    s.map_values(|d: DiagnosticView| spec_to_hotspot(d))
}

pub open spec fn plan_is(id: i32) -> spec_fn(ResultView) -> bool {
    |d: ResultView| d.plan_node_id == Some(id)
}

pub open spec fn same_id() -> spec_fn(i32) -> i32 {
    |x: i32| x
}

/// The plan node ids of the diagnostics that have one, in order.
pub open spec fn plan_ids(rs: Seq<ResultView>) -> Seq<i32>
    decreases rs.len(),
{
    if rs.len() == 0 {
        Seq::empty()
    } else {
        let p = plan_ids(rs.drop_last());
        match rs.last().plan_node_id {
            Some(i) => p.push(i),
            None => p,
        }
    }
}

/// The diagnostics grouped by plan node id, the ids in order of first appearance.
pub open spec fn node_groups(rs: Seq<ResultView>) -> Seq<(i32, Seq<ResultView>)> {
    let ids = dedup_by(plan_ids(rs), same_id());
    Seq::new(ids.len(), |k: int| (ids[k], rs.filter(plan_is(ids[k]))))
}

pub open spec fn vgroups(v: Seq<(i32, Vec<DiagnosticResult>)>) -> Seq<(i32, Seq<ResultView>)> {
    v.map_values(|g: (i32, Vec<DiagnosticResult>)| (g.0, vresults(g.1@)))
}

/// The diagnostics of the node's plan node.
pub open spec fn node_group(node: ExecutionTreeNode, rs: Seq<ResultView>) -> Seq<ResultView> {
    match node.plan_node_id {
        Some(id) => rs.filter(plan_is(id)),
        None => Seq::empty(),
    }
}

/// `new` is `old` marked with the diagnostics of its plan node, when it has any.
pub open spec fn node_marked(old: ExecutionTreeNode, new: ExecutionTreeNode, rs: Seq<ResultView>) -> bool {
    let g = node_group(old, rs);
    if g.len() > 0 {
        &&& new == ExecutionTreeNode { has_diagnostic: true, diagnostic_ids: new.diagnostic_ids, ..old }
        &&& vstr(new.diagnostic_ids@) == g.map_values(|d: ResultView| d.rule_id)
    } else {
        new == old
    }
}

/// `new` is the tree `old` with each node marked (see `node_marked`).
pub open spec fn tree_marked(old: ExecutionTree, new: ExecutionTree, rs: Seq<ResultView>) -> bool {
    &&& new.root == old.root
    &&& new.nodes@.len() == old.nodes@.len()
    &&& forall|i: int| 0 <= i < old.nodes@.len() ==> node_marked(old.nodes@[i], #[trigger] new.nodes@[i], rs)
}

fn group_by_plan_node(rs: &Vec<DiagnosticResult>) -> (r: Vec<(i32, Vec<DiagnosticResult>)>)
    ensures
        vgroups(r@) == node_groups(vresults(rs@)),
{
    let ghost s = vresults(rs@);
    // the distinct plan node ids
    let mut ids: Vec<i32> = Vec::new();
    let mut i: usize = 0;
    assert(s.take(0) =~= Seq::<ResultView>::empty());
    while i < rs.len()
        invariant
            i <= rs.len(),
            s == vresults(rs@),
            ids@ == dedup_by(plan_ids(s.take(i as int)), same_id()),
        decreases rs.len() - i,
    {
        let ghost t = s.take(i + 1);
        assert(t.drop_last() =~= s.take(i as int));
        assert(t.last() == rs@[i as int]@);
        match rs[i].plan_node_id {
            Some(id) => {
                let ghost acc = plan_ids(s.take(i as int));
                let mut found = false;
                let mut j: usize = 0;
                while j < ids.len()
                    invariant
                        j <= ids.len(),
                        found == exists|q: int| 0 <= q < j && ids@[q] == id,
                    decreases ids.len() - j,
                {
                    if ids[j] == id {
                        found = true;
                    }
                    j = j + 1;
                }
                proof {
                    lemma_dedup_by_seen(acc, same_id());
                    let nxt = acc.push(id);
                    assert(nxt.drop_last() =~= acc);
                    assert(plan_ids(t) == nxt);
                    let d = dedup_by(acc, same_id());
                    if found {
                        let q = choose|q: int| 0 <= q < ids@.len() && ids@[q] == id;
                        assert(same_id()(d[q]) == id);
                        assert(seen(d, same_id(), id));
                    }
                    if seen(d, same_id(), id) {
                        let q = choose|q: int| 0 <= q < d.len() && same_id()(d[q]) == id;
                        assert(ids@[q] == id);
                    }
                }
                if !found {
                    ids.push(id);
                }
            },
            None => {},
        }
        i = i + 1;
    }
    assert(s.take(rs.len() as int) =~= s);
    let ghost vids = ids@;
    let mut out: Vec<(i32, Vec<DiagnosticResult>)> = Vec::new();
    let mut k: usize = 0;
    assert(vgroups(out@) =~= node_groups(s).take(0));
    while k < ids.len()
        invariant
            k <= ids.len(),
            s == vresults(rs@),
            vids == ids@,
            vids == dedup_by(plan_ids(s), same_id()),
            vgroups(out@) == node_groups(s).take(k as int),
        decreases ids.len() - k,
    {
        let id = ids[k];
        let mut g: Vec<DiagnosticResult> = Vec::new();
        let mut q: usize = 0;
        proof {
            reveal(Seq::filter);
            assert(s.take(0) =~= Seq::<ResultView>::empty());
            assert(vresults(g@) =~= Seq::<ResultView>::empty());
        }
        while q < rs.len()
            invariant
                q <= rs.len(),
                s == vresults(rs@),
                vresults(g@) == s.take(q as int).filter(plan_is(id)),
            decreases rs.len() - q,
        {
            proof {
                assert(s.take(q + 1) =~= s.take(q as int).push(s[q as int]));
                s.take(q as int).lemma_filter_push(s[q as int], plan_is(id));
                assert(s[q as int] == rs@[q as int]@);
            }
            if rs[q].plan_node_id == Some(id) {
                let c = rs[q].copy();
                let ghost before = vresults(g@);
                g.push(c);
                assert(vresults(g@) =~= before.push(c@));
            }
            q = q + 1;
        }
        assert(s.take(rs.len() as int) =~= s);
        let ghost before = vgroups(out@);
        out.push((id, g));
        assert(vgroups(out@) =~= before.push((id, vresults(g@))));
        assert(node_groups(s).take(k + 1) =~= node_groups(s).take(k as int).push(node_groups(s)[k as int]));
        k = k + 1;
    }
    assert(node_groups(s).take(ids.len() as int) =~= node_groups(s));
    out
}

/// The rule ids of the diagnostics of plan node `id`, if there are any.
fn ids_of_group(groups: &Vec<(i32, Vec<DiagnosticResult>)>, id: i32, Ghost(rs): Ghost<Seq<ResultView>>) -> (r: Option<
    Vec<String>,
>)
    requires
        vgroups(groups@) == node_groups(rs),
    ensures
        rs.filter(plan_is(id)).len() > 0 ==> (r matches Some(v) && vstr(v@) == rs.filter(plan_is(id)).map_values(
            |d: ResultView| d.rule_id,
        )),
        rs.filter(plan_is(id)).len() == 0 ==> r is None,
{
    let ghost ids = dedup_by(plan_ids(rs), same_id());
    proof {
        crate::uniq::lemma_dedup_by_items(plan_ids(rs), same_id());
        lemma_plan_ids_from(rs);
        assert(vgroups(groups@).len() == groups@.len());
        assert(node_groups(rs).len() == ids.len());
    }
    let mut k: usize = 0;
    while k < groups.len()
        invariant
            k <= groups.len(),
            vgroups(groups@) == node_groups(rs),
            ids == dedup_by(plan_ids(rs), same_id()),
            groups@.len() == ids.len(),
            forall|q: int| 0 <= q < k ==> ids[q] != id,
        decreases groups.len() - k,
    {
        assert(vgroups(groups@)[k as int] == node_groups(rs)[k as int]);
        if groups[k].0 == id {
            let g = &groups[k].1;
            assert(vresults(g@) == rs.filter(plan_is(id)));
            proof {
                crate::uniq::lemma_dedup_by_items(plan_ids(rs), same_id());
                lemma_plan_ids_from(rs);
                assert(ids[k as int] == dedup_by(plan_ids(rs), same_id())[k as int]);
                let j = choose|j: int| 0 <= j < plan_ids(rs).len() && plan_ids(rs)[j] == ids[k as int];
                let m = choose|m: int| 0 <= m < rs.len() && rs[m].plan_node_id == Some(plan_ids(rs)[j]);
                rs.lemma_filter_contains(plan_is(id), m);
            }
            let mut v: Vec<String> = Vec::new();
            let mut q: usize = 0;
            assert(vstr(v@) =~= vresults(g@).take(0).map_values(|d: ResultView| d.rule_id));
            while q < g.len()
                invariant
                    q <= g.len(),
                    vstr(v@) == vresults(g@).take(q as int).map_values(|d: ResultView| d.rule_id),
                decreases g.len() - q,
            {
                let c = g[q].rule_id.clone();
                proof {
                    lemma_vstr_push(v@, c);
                    assert(vresults(g@).take(q + 1) =~= vresults(g@).take(q as int).push(g@[q as int]@));
                }
                v.push(c);
                assert(vstr(v@) =~= vresults(g@).take(q + 1).map_values(|d: ResultView| d.rule_id));
                q = q + 1;
            }
            assert(vresults(g@).take(g.len() as int) =~= vresults(g@));
            return Some(v);
        }
        k = k + 1;
    }
    proof {
        lemma_dedup_by_seen(plan_ids(rs), same_id());
        if rs.filter(plan_is(id)).len() > 0 {
            let f = rs.filter(plan_is(id));
            assert(f.contains(f[0]));
            rs.lemma_filter_contains_rev(plan_is(id), f[0]);
            rs.lemma_filter_pred(plan_is(id), 0);
            let j = choose|j: int| 0 <= j < rs.len() && rs[j] == f[0];
            lemma_plan_ids_has(rs, j);
            assert(seen(plan_ids(rs), same_id(), id));
            assert(seen(ids, same_id(), id));
            let q = choose|q: int| 0 <= q < ids.len() && same_id()(ids[q]) == id;
            assert(false);
        }
    }
    None
}

proof fn lemma_plan_ids_from(rs: Seq<ResultView>)
    ensures
        forall|q: int|
            0 <= q < plan_ids(rs).len() ==> exists|m: int|
                0 <= m < rs.len() && rs[m].plan_node_id == Some(#[trigger] plan_ids(rs)[q]),
    decreases rs.len(),
{
    if rs.len() > 0 {
        let t = rs.drop_last();
        lemma_plan_ids_from(t);
        let p = plan_ids(t);
        assert forall|q: int| 0 <= q < plan_ids(rs).len() implies exists|m: int|
            0 <= m < rs.len() && rs[m].plan_node_id == Some(#[trigger] plan_ids(rs)[q]) by {
            if q < p.len() {
                assert(plan_ids(rs)[q] == p[q]);
                let m = choose|m: int| 0 <= m < t.len() && t[m].plan_node_id == Some(p[q]);
                assert(rs[m] == t[m]);
            } else {
                assert(rs[rs.len() - 1] == rs.last());
            }
        }
    }
}

proof fn lemma_plan_ids_has(rs: Seq<ResultView>, j: int)
    requires
        0 <= j < rs.len(),
        rs[j].plan_node_id is Some,
    ensures
        plan_ids(rs).contains(rs[j].plan_node_id->0),
    decreases rs.len(),
{
    let t = rs.drop_last();
    if j < rs.len() - 1 {
        assert(t[j] == rs[j]);
        lemma_plan_ids_has(t, j);
        let p = plan_ids(t);
        let q = choose|q: int| 0 <= q < p.len() && p[q] == rs[j].plan_node_id->0;
        match rs.last().plan_node_id {
            Some(i) => {
                assert(p.push(i)[q] == p[q]);
            },
            None => {},
        }
    } else {
        let p = plan_ids(t);
        assert(p.push(rs[j].plan_node_id->0)[p.len() as int] == rs[j].plan_node_id->0);
    }
}

fn mark_tree(tree: ExecutionTree, groups: &Vec<(i32, Vec<DiagnosticResult>)>, Ghost(rs): Ghost<Seq<ResultView>>) -> (r: ExecutionTree)
    requires
        vgroups(groups@) == node_groups(rs),
    ensures
        tree_marked(tree, r, rs),
{
    let ExecutionTree { root, mut nodes } = tree;
    let ghost orig = nodes@;
    let n0 = nodes.len();
    let mut out: Vec<ExecutionTreeNode> = Vec::new();
    let mut k: usize = 0;
    assert(orig.skip(0) =~= orig);
    while nodes.len() > 0
        invariant
            vgroups(groups@) == node_groups(rs),
            orig.len() == n0,
            k + nodes@.len() == orig.len(),
            nodes@ == orig.skip(k as int),
            out@.len() == k,
            forall|i: int| 0 <= i < k ==> node_marked(orig[i], #[trigger] out@[i], rs),
        decreases nodes@.len(),
    {
        let mut node = nodes.remove(0);
        assert(node == orig[k as int]);
        assert(nodes@ =~= orig.skip(k + 1));
        let ghost old_node = node;
        match node.plan_node_id {
            Some(id) => {
                match ids_of_group(groups, id, Ghost(rs)) {
                    Some(v) => {
                        node.has_diagnostic = true;
                        node.diagnostic_ids = v;
                    },
                    None => {},
                }
            },
            None => {},
        }
        assert(node_marked(old_node, node, rs));
        out.push(node);
        k = k + 1;
    }
    ExecutionTree { root, nodes: out }
}

/// The diagnostics in reported form.
fn results_of(ds: &Vec<Diagnostic>) -> (r: Vec<DiagnosticResult>)
    ensures
        vresults(r@) == results_view(vdiags(ds@)),
{
    let mut r: Vec<DiagnosticResult> = Vec::new();
    let mut i: usize = 0;
    assert(vresults(r@) =~= results_view(vdiags(ds@).take(0)));
    while i < ds.len()
        invariant
            i <= ds.len(),
            vresults(r@) == results_view(vdiags(ds@).take(i as int)),
        decreases ds.len() - i,
    {
        let c = DiagnosticResult::from_diagnostic(&ds[i]);
        let ghost before = vresults(r@);
        r.push(c);
        assert(vdiags(ds@).take(i + 1) =~= vdiags(ds@).take(i as int).push(ds@[i as int]@));
        assert(results_view(vdiags(ds@).take(i + 1)) =~= results_view(vdiags(ds@).take(i as int)).push(c@));
        assert(vresults(r@) =~= before.push(c@));
        i = i + 1;
    }
    assert(vdiags(ds@).take(ds.len() as int) =~= vdiags(ds@));
    r
}

fn hotspots_of(ds: &Vec<Diagnostic>) -> (r: Vec<HotSpot>)
    ensures
        vhots(r@) == hotspots_view(vdiags(ds@)),
{
    let mut r: Vec<HotSpot> = Vec::new();
    let mut i: usize = 0;
    assert(vhots(r@) =~= hotspots_view(vdiags(ds@).take(0)));
    while i < ds.len()
        invariant
            i <= ds.len(),
            vhots(r@) == hotspots_view(vdiags(ds@).take(i as int)),
        decreases ds.len() - i,
    {
        let h = ds[i].to_hotspot();
        let ghost before = vhots(r@);
        r.push(h);
        assert(vdiags(ds@).take(i + 1) =~= vdiags(ds@).take(i as int).push(ds@[i as int]@));
        assert(hotspots_view(vdiags(ds@).take(i + 1)) =~= hotspots_view(vdiags(ds@).take(i as int)).push(h@));
        assert(vhots(r@) =~= before.push(h@));
        i = i + 1;
    }
    assert(vdiags(ds@).take(ds.len() as int) =~= vdiags(ds@));
    r
}

/// Analyze a parsed profile: run the rule engine with its default configuration,
/// report and aggregate its diagnostics, group them by plan node and mark the
/// execution tree with them, and derive hotspots, conclusion, suggestions and score.
pub fn analyze_profile(profile: Profile, profile_text: &str) -> (r: ProfileAnalysisResponse)
    requires
        profile.wf(),
    ensures
        ({
            let rd = spec_analyze(default_config(), profile);
            let rs = results_view(rd);
            &&& vhots(r.hotspots@) == hotspots_view(rd)
            &&& r.conclusion@ == spec_conclusion(rd, profile)
            &&& vstr(r.suggestions@) == dedup_by(all_suggestions(rd), same_text())
            &&& r.performance_score == spec_performance_score(rd, profile)
            &&& vresults(r.diagnostics@) == rs
            &&& vaggs(r.aggregated_diagnostics@) == spec_aggregate(rs)
            &&& vgroups(r.node_diagnostics@) == node_groups(rs)
            &&& r.summary == Some(profile.summary)
            &&& (r.profile_content matches Some(c) && c@ == profile_text@)
            &&& match (profile.execution_tree, r.execution_tree) {
                (Some(t), Some(t2)) => tree_marked(t, t2, rs),
                (None, None) => true,
                _ => false,
            }
        }),
{
    let engine = RuleEngine::new();
    let rule_diagnostics = engine.analyze(&profile);
    let diagnostics = results_of(&rule_diagnostics);
    let node_diagnostics = group_by_plan_node(&diagnostics);
    let aggregated = aggregate_diagnostics(diagnostics.as_slice());
    let hotspots = hotspots_of(&rule_diagnostics);
    let conclusion = RuleEngine::generate_conclusion(rule_diagnostics.as_slice(), &profile);
    let suggestions = RuleEngine::generate_suggestions(rule_diagnostics.as_slice());
    let score = RuleEngine::calculate_performance_score(rule_diagnostics.as_slice(), &profile);
    let ghost rs = vresults(diagnostics@);
    let ghost p0 = profile;
    let Profile { summary, planner: _, execution: _, fragments: _, execution_tree } = profile;
    let tree = match execution_tree {
        Some(t) => Some(mark_tree(t, &node_diagnostics, Ghost(rs))),
        None => None,
    };
    ProfileAnalysisResponse {
        hotspots,
        conclusion,
        suggestions,
        performance_score: score,
        execution_tree: tree,
        summary: Some(summary),
        diagnostics,
        aggregated_diagnostics: aggregated,
        node_diagnostics,
        profile_content: Some(String::from_str(profile_text)),
    }
}

} // verus!
