//! Root cause analysis: causal edges between diagnostics (within a node, and
//! propagated between nodes), the root causes among them, the causal chains that
//! lead from a root cause to its symptoms, and a summary.
use vstd::prelude::*;
use crate::model::{Diagnostic, DiagnosticView, vdiags, vstr, vlit, lemma_vdiags_take};
use crate::text::str_eq;
use crate::uniq::{dedup_by, same_text, push_new_text};

pub mod roots;
pub mod chains;
pub mod laws;

verus! {

// ---------------------------------------------------------------------------
// Results
// ---------------------------------------------------------------------------

/// A root cause of the diagnosed problems.
#[derive(Debug, Clone)]
pub struct RootCause {
    /// Identifier, `"RC001"` and on.
    pub id: String,
    /// Rule ids of the diagnostics behind it.
    pub diagnostic_ids: Vec<String>,
    pub description: String,
    /// Impact, 0 to 100.
    pub impact_percentage: u32,
    /// Confidence in percent (100 for a conclusion drawn by rule).
    pub confidence: u32,
    pub affected_nodes: Vec<String>,
    pub evidence: Vec<String>,
    /// Rule ids of the diagnostics it causes.
    pub symptoms: Vec<String>,
    pub suggestions: Vec<String>,
}

pub struct RootCauseView {
    pub id: Seq<char>,
    pub diagnostic_ids: Seq<Seq<char>>,
    pub description: Seq<char>,
    pub impact_percentage: u32,
    pub confidence: u32,
    pub affected_nodes: Seq<Seq<char>>,
    pub evidence: Seq<Seq<char>>,
    pub symptoms: Seq<Seq<char>>,
    pub suggestions: Seq<Seq<char>>,
}

impl View for RootCause {
    type V = RootCauseView;

    open spec fn view(&self) -> RootCauseView {
        RootCauseView {
            id: self.id@,
            diagnostic_ids: vstr(self.diagnostic_ids@),
            description: self.description@,
            impact_percentage: self.impact_percentage,
            confidence: self.confidence,
            affected_nodes: vstr(self.affected_nodes@),
            evidence: vstr(self.evidence@),
            symptoms: vstr(self.symptoms@),
            suggestions: vstr(self.suggestions@),
        }
    }
}

/// A chain from a root cause to a symptom: `[cause, "→", intermediate, "→", symptom]`.
#[derive(Debug, Clone)]
pub struct CausalChain {
    pub chain: Vec<String>,
    pub explanation: String,
    /// Confidence in percent.
    pub confidence: u32,
}

pub struct CausalChainView {
    pub chain: Seq<Seq<char>>,
    pub explanation: Seq<char>,
    pub confidence: u32,
}

impl View for CausalChain {
    type V = CausalChainView;

    open spec fn view(&self) -> CausalChainView {
        CausalChainView { chain: vstr(self.chain@), explanation: self.explanation@, confidence: self.confidence }
    }
}

/// The outcome of a root cause analysis.
#[derive(Debug, Clone)]
pub struct RootCauseAnalysis {
    /// Root causes, by decreasing impact.
    pub root_causes: Vec<RootCause>,
    pub causal_chains: Vec<CausalChain>,
    pub summary: String,
    /// Number of diagnostics analysed.
    pub total_diagnostics: usize,
}

// ---------------------------------------------------------------------------
// Causal edges
// ---------------------------------------------------------------------------

/// A causal edge: the diagnostic `cause` leads to the diagnostic `effect` (rule ids).
#[derive(Debug, Clone)]
pub struct CausalEdge {
    pub cause: String,
    pub effect: String,
    pub description: String,
}

pub struct EdgeView {
    pub cause: Seq<char>,
    pub effect: Seq<char>,
    pub description: Seq<char>,
}

impl View for CausalEdge {
    type V = EdgeView;

    open spec fn view(&self) -> EdgeView {
        EdgeView { cause: self.cause@, effect: self.effect@, description: self.description@ }
    }
}

pub open spec fn vedges(v: Seq<CausalEdge>) -> Seq<EdgeView> {
    v.map_values(|e: CausalEdge| e@)
}

pub open spec fn edge(cause: Seq<char>, effect: Seq<char>, description: Seq<char>) -> EdgeView {
    EdgeView { cause, effect, description }
}

/// Number of causal rules within a node.
pub const INTRA_RULE_COUNT: usize = 8;

/// Number of propagation rules between nodes.
pub const INTER_RULE_COUNT: usize = 7;

/// Causes of within-node rule `k`.
pub open spec fn intra_causes(k: int) -> Seq<Seq<char>> {
    if k == 0 {
        seq!["S016"@, "S006"@]
    } else if k == 1 {
        seq!["S009"@]
    } else if k == 2 {
        seq!["S008"@, "S012"@, "S013"@]
    } else if k == 3 {
        seq!["S001"@]
    } else if k == 4 {
        seq!["J002"@]
    } else if k == 5 {
        seq!["J005"@]
    } else if k == 6 {
        seq!["A001"@]
    } else {
        seq!["A003"@]
    }
}

/// Effect of within-node rule `k`.
pub open spec fn intra_effect(k: int) -> Seq<char> {
    if k == 0 || k == 1 {
        "S007"@
    } else if k == 2 {
        "S003"@
    } else if k == 3 {
        "G003"@
    } else if k == 4 {
        "J001"@
    } else if k == 5 {
        "E002"@
    } else if k == 6 {
        "Q003"@
    } else {
        "A002"@
    }
}

/// Description of within-node rule `k`.
pub open spec fn intra_desc(k: int) -> Seq<char> {
    if k == 0 {
        "小文件/碎片化导致IO瓶颈"@
    } else if k == 1 {
        "缓存命中率低导致IO瓶颈"@
    } else if k == 2 {
        "索引未生效导致过滤效果差"@
    } else if k == 3 {
        "数据倾斜导致执行时间倾斜"@
    } else if k == 4 {
        "Join顺序不优导致Hash表过大"@
    } else if k == 5 {
        "Broadcast表过大导致网络瓶颈"@
    } else if k == 6 {
        "聚合倾斜导致内存溢出"@
    } else {
        "Group by 键过多导致Hash表过大"@
    }
}

/// Upstream, downstream and description of propagation rule `k`.
pub open spec fn inter_rule(k: int) -> (Seq<char>, Seq<char>, Seq<char>) {
    if k == 0 {
        ("S001"@, "G003"@, "SCAN数据倾斜传导到下游执行时间倾斜"@)
    } else if k == 1 {
        ("S001"@, "J003"@, "SCAN数据倾斜传导到Join探测端"@)
    } else if k == 2 {
        ("S001"@, "A001"@, "SCAN数据倾斜传导到聚合倾斜"@)
    } else if k == 3 {
        ("S003"@, "J001"@, "过滤效果差导致下游Join数据量大"@)
    } else if k == 4 {
        ("S003"@, "A002"@, "过滤效果差导致聚合处理数据量大"@)
    } else if k == 5 {
        ("J001"@, "Q003"@, "Join内存占用高导致触发Spill"@)
    } else {
        ("A002"@, "Q003"@, "聚合内存占用高导致触发Spill"@)
    }
}

/// Whether some diagnostic at node `path` has rule id `id`.
pub open spec fn present_at(ds: Seq<DiagnosticView>, path: Seq<char>, id: Seq<char>) -> bool {
    exists|i: int| 0 <= i < ds.len() && (#[trigger] ds[i]).node_path == path && ds[i].rule_id == id
}

/// Whether some diagnostic has rule id `id`.
pub open spec fn present(ds: Seq<DiagnosticView>, id: Seq<char>) -> bool {
    exists|i: int| 0 <= i < ds.len() && (#[trigger] ds[i]).rule_id == id
}

/// An edge from each of `causes` present at `path` to `effect`, in the order of
/// `causes`.
pub open spec fn cause_edges(
    ds: Seq<DiagnosticView>,
    path: Seq<char>,
    causes: Seq<Seq<char>>,
    effect: Seq<char>,
    desc: Seq<char>,
) -> Seq<EdgeView>
    decreases causes.len(),
{
    if causes.len() == 0 {
        Seq::empty()
    } else {
        let r = cause_edges(ds, path, causes.drop_last(), effect, desc);
        if present_at(ds, path, causes.last()) {
            r.push(edge(causes.last(), effect, desc))
        } else {
            r
        }
    }
}

/// The edges within-node rule `k` finds at node `path`: when its effect is present
/// there, one edge from each of its causes present there.
pub open spec fn intra_rule_edges(ds: Seq<DiagnosticView>, path: Seq<char>, k: int) -> Seq<EdgeView> {
    if present_at(ds, path, intra_effect(k)) {
        cause_edges(ds, path, intra_causes(k), intra_effect(k), intra_desc(k))
    } else {
        Seq::empty()
    }
}

/// The edges the first `n` within-node rules find at node `path`.
pub open spec fn node_intra_edges(ds: Seq<DiagnosticView>, path: Seq<char>, n: nat) -> Seq<EdgeView>
    decreases n,
{
    if n == 0 {
        Seq::empty()
    } else {
        node_intra_edges(ds, path, (n - 1) as nat) + intra_rule_edges(ds, path, n - 1)
    }
}

/// The within-node edges at each of `paths`, path after path.
pub open spec fn intra_edges_over(ds: Seq<DiagnosticView>, paths: Seq<Seq<char>>) -> Seq<EdgeView>
    decreases paths.len(),
{
    if paths.len() == 0 {
        Seq::empty()
    } else {
        intra_edges_over(ds, paths.drop_last()) + node_intra_edges(ds, paths.last(), INTRA_RULE_COUNT as nat)
    }
}

pub open spec fn node_paths(ds: Seq<DiagnosticView>) -> Seq<Seq<char>> {
    ds.map_values(|d: DiagnosticView| d.node_path)
}

pub open spec fn rule_ids(ds: Seq<DiagnosticView>) -> Seq<Seq<char>> {
    ds.map_values(|d: DiagnosticView| d.rule_id)
}

/// The within-node edges, node by node in the order nodes first appear.
pub open spec fn spec_intra_edges(ds: Seq<DiagnosticView>) -> Seq<EdgeView> {
    intra_edges_over(ds, dedup_by(node_paths(ds), same_text()))
}

/// The edges the first `n` propagation rules find: one for each rule whose upstream
/// and downstream ids are both diagnosed (on any nodes).
pub open spec fn inter_edges(ds: Seq<DiagnosticView>, n: nat) -> Seq<EdgeView>
    decreases n,
{
    if n == 0 {
        Seq::empty()
    } else {
        let (up, down, desc) = inter_rule(n - 1);
        inter_edges(ds, (n - 1) as nat) + if present(ds, up) && present(ds, down) {
            seq![edge(up, down, desc)]
        } else {
            Seq::empty()
        }
    }
}

/// All causal edges: the within-node ones, then the propagated ones.
pub open spec fn spec_all_edges(ds: Seq<DiagnosticView>) -> Seq<EdgeView> {
    spec_intra_edges(ds) + inter_edges(ds, INTER_RULE_COUNT as nat)
}

fn present_at_exec(ds: &[Diagnostic], path: &str, id: &str) -> (b: bool)
    ensures
        b == present_at(vdiags(ds@), path@, id@),
{
    let ghost s = vdiags(ds@);
    let mut i: usize = 0;
    while i < ds.len()
        invariant
            i <= ds.len(),
            s == vdiags(ds@),
            forall|j: int| 0 <= j < i ==> !((#[trigger] s[j]).node_path == path@ && s[j].rule_id == id@),
        decreases ds.len() - i,
    {
        if str_eq(ds[i].node_path.as_str(), path) && str_eq(ds[i].rule_id.as_str(), id) {
            assert(s[i as int] == ds@[i as int]@);
            return true;
        }
        assert(s[i as int] == ds@[i as int]@);
        i = i + 1;
    }
    false
}

pub(crate) fn present_exec(ds: &[Diagnostic], id: &str) -> (b: bool)
    ensures
        b == present(vdiags(ds@), id@),
{
    let ghost s = vdiags(ds@);
    let mut i: usize = 0;
    while i < ds.len()
        invariant
            i <= ds.len(),
            s == vdiags(ds@),
            forall|j: int| 0 <= j < i ==> (#[trigger] s[j]).rule_id != id@,
        decreases ds.len() - i,
    {
        assert(s[i as int] == ds@[i as int]@);
        if str_eq(ds[i].rule_id.as_str(), id) {
            return true;
        }
        i = i + 1;
    }
    false
}

fn push_edge(out: &mut Vec<CausalEdge>, cause: &str, effect: &str, desc: &str)
    ensures
        vedges(final(out)@) == vedges(old(out)@).push(edge(cause@, effect@, desc@)),
{
    let e = CausalEdge {
        cause: String::from_str(cause),
        effect: String::from_str(effect),
        description: String::from_str(desc),
    };
    out.push(e);
    assert(vedges(out@) =~= vedges(old(out)@).push(edge(cause@, effect@, desc@)));
}

fn push_cause_edges(
    out: &mut Vec<CausalEdge>,
    ds: &[Diagnostic],
    path: &str,
    causes: &[&str],
    effect: &str,
    desc: &str,
)
    ensures
        vedges(final(out)@) == vedges(old(out)@) + cause_edges(vdiags(ds@), path@, vlit(causes@), effect@, desc@),
{
    let ghost base = vedges(out@);
    let mut j: usize = 0;
    assert(vlit(causes@).take(0) =~= Seq::<Seq<char>>::empty());
    assert(base + Seq::<EdgeView>::empty() =~= base);
    while j < causes.len()
        invariant
            j <= causes.len(),
            vedges(out@) == base + cause_edges(vdiags(ds@), path@, vlit(causes@).take(j as int), effect@, desc@),
        decreases causes.len() - j,
    {
        let ghost c = vlit(causes@).take(j + 1);
        assert(c.drop_last() =~= vlit(causes@).take(j as int));
        assert(c.last() == causes@[j as int]@);
        if present_at_exec(ds, path, causes[j]) {
            push_edge(out, causes[j], effect, desc);
            assert(vedges(out@) =~= base + cause_edges(vdiags(ds@), path@, c, effect@, desc@));
        }
        j = j + 1;
    }
    assert(vlit(causes@).take(causes.len() as int) =~= vlit(causes@));
}

fn push_intra_rule_edges(out: &mut Vec<CausalEdge>, ds: &[Diagnostic], path: &str, k: usize)
    requires
        k < INTRA_RULE_COUNT,
    ensures
        vedges(final(out)@) == vedges(old(out)@) + intra_rule_edges(vdiags(ds@), path@, k as int),
{
    let effect: &str = if k == 0 || k == 1 {
        "S007"
    } else if k == 2 {
        "S003"
    } else if k == 3 {
        "G003"
    } else if k == 4 {
        "J001"
    } else if k == 5 {
        "E002"
    } else if k == 6 {
        "Q003"
    } else {
        "A002"
    };
    assert(effect@ == intra_effect(k as int));
    if !present_at_exec(ds, path, effect) {
        assert(vedges(out@) =~= vedges(out@) + Seq::<EdgeView>::empty());
        return;
    }
    if k == 0 {
        let c: [&str; 2] = ["S016", "S006"];
        assert(vlit(c@) =~= intra_causes(0));
        push_cause_edges(out, ds, path, &c, effect, "小文件/碎片化导致IO瓶颈");
    } else if k == 1 {
        let c: [&str; 1] = ["S009"];
        assert(vlit(c@) =~= intra_causes(1));
        push_cause_edges(out, ds, path, &c, effect, "缓存命中率低导致IO瓶颈");
    } else if k == 2 {
        let c: [&str; 3] = ["S008", "S012", "S013"];
        assert(vlit(c@) =~= intra_causes(2));
        push_cause_edges(out, ds, path, &c, effect, "索引未生效导致过滤效果差");
    } else if k == 3 {
        let c: [&str; 1] = ["S001"];
        assert(vlit(c@) =~= intra_causes(3));
        push_cause_edges(out, ds, path, &c, effect, "数据倾斜导致执行时间倾斜");
    } else if k == 4 {
        let c: [&str; 1] = ["J002"];
        assert(vlit(c@) =~= intra_causes(4));
        push_cause_edges(out, ds, path, &c, effect, "Join顺序不优导致Hash表过大");
    } else if k == 5 {
        let c: [&str; 1] = ["J005"];
        assert(vlit(c@) =~= intra_causes(5));
        push_cause_edges(out, ds, path, &c, effect, "Broadcast表过大导致网络瓶颈");
    } else if k == 6 {
        let c: [&str; 1] = ["A001"];
        assert(vlit(c@) =~= intra_causes(6));
        push_cause_edges(out, ds, path, &c, effect, "聚合倾斜导致内存溢出");
    } else {
        let c: [&str; 1] = ["A003"];
        assert(vlit(c@) =~= intra_causes(7));
        push_cause_edges(out, ds, path, &c, effect, "Group by 键过多导致Hash表过大");
    }
}

/// The node paths of the diagnostics, each once, in order of first appearance.
fn distinct_paths(ds: &[Diagnostic]) -> (r: Vec<String>)
    ensures
        vstr(r@) == dedup_by(node_paths(vdiags(ds@)), same_text()),
{
    let ghost s = vdiags(ds@);
    let mut out: Vec<String> = Vec::new();
    let mut i: usize = 0;
    assert(node_paths(s).take(0) =~= Seq::<Seq<char>>::empty());
    assert(vstr(out@) =~= Seq::<Seq<char>>::empty());
    while i < ds.len()
        invariant
            i <= ds.len(),
            s == vdiags(ds@),
            vstr(out@) == dedup_by(node_paths(s).take(i as int), same_text()),
        decreases ds.len() - i,
    {
        push_new_text(&mut out, &ds[i].node_path, Ghost(node_paths(s).take(i as int)));
        assert(node_paths(s).take(i + 1) =~= node_paths(s).take(i as int).push(ds@[i as int].node_path@));
        i = i + 1;
    }
    assert(node_paths(s).take(ds.len() as int) =~= node_paths(s));
    out
}

/// The within-node causal edges, node by node in the order the nodes first appear.
pub fn find_intra_node_causality(diagnostics: &[Diagnostic]) -> (r: Vec<CausalEdge>)
    ensures
        vedges(r@) == spec_intra_edges(vdiags(diagnostics@)),
{
    let ghost s = vdiags(diagnostics@);
    let paths = distinct_paths(diagnostics);
    let mut out: Vec<CausalEdge> = Vec::new();
    let mut i: usize = 0;
    assert(vstr(paths@).take(0) =~= Seq::<Seq<char>>::empty());
    assert(vedges(out@) =~= Seq::<EdgeView>::empty());
    while i < paths.len()
        invariant
            i <= paths.len(),
            s == vdiags(diagnostics@),
            vedges(out@) == intra_edges_over(s, vstr(paths@).take(i as int)),
        decreases paths.len() - i,
    {
        let ghost before = vedges(out@);
        let mut k: usize = 0;
        assert(before + Seq::<EdgeView>::empty() =~= before);
        while k < INTRA_RULE_COUNT
            invariant
                k <= INTRA_RULE_COUNT,
                i < paths.len(),
                s == vdiags(diagnostics@),
                vedges(out@) == before + node_intra_edges(s, paths@[i as int]@, k as nat),
            decreases INTRA_RULE_COUNT - k,
        {
            push_intra_rule_edges(&mut out, diagnostics, paths[i].as_str(), k);
            assert(vedges(out@) =~= before + node_intra_edges(s, paths@[i as int]@, (k + 1) as nat));
            k = k + 1;
        }
        proof {
            let p = vstr(paths@).take(i + 1);
            assert(p.drop_last() =~= vstr(paths@).take(i as int));
            assert(p.last() == paths@[i as int]@);
        }
        i = i + 1;
    }
    assert(vstr(paths@).take(paths.len() as int) =~= vstr(paths@));
    out
}

/// The propagated edges: one for each propagation rule whose upstream and
/// downstream rule ids are both diagnosed.
pub fn find_inter_node_propagation(diagnostics: &[Diagnostic]) -> (r: Vec<CausalEdge>)
    ensures
        vedges(r@) == inter_edges(vdiags(diagnostics@), INTER_RULE_COUNT as nat),
{
    let mut out: Vec<CausalEdge> = Vec::new();
    let mut k: usize = 0;
    assert(vedges(out@) =~= Seq::<EdgeView>::empty());
    while k < INTER_RULE_COUNT
        invariant
            k <= INTER_RULE_COUNT,
            vedges(out@) == inter_edges(vdiags(diagnostics@), k as nat),
        decreases INTER_RULE_COUNT - k,
    {
        let (up, down, desc): (&str, &str, &str) = if k == 0 {
            ("S001", "G003", "SCAN数据倾斜传导到下游执行时间倾斜")
        } else if k == 1 {
            ("S001", "J003", "SCAN数据倾斜传导到Join探测端")
        } else if k == 2 {
            ("S001", "A001", "SCAN数据倾斜传导到聚合倾斜")
        } else if k == 3 {
            ("S003", "J001", "过滤效果差导致下游Join数据量大")
        } else if k == 4 {
            ("S003", "A002", "过滤效果差导致聚合处理数据量大")
        } else if k == 5 {
            ("J001", "Q003", "Join内存占用高导致触发Spill")
        } else {
            ("A002", "Q003", "聚合内存占用高导致触发Spill")
        };
        assert((up@, down@, desc@) == inter_rule(k as int));
        if present_exec(diagnostics, up) && present_exec(diagnostics, down) {
            push_edge(&mut out, up, down, desc);
        }
        assert(vedges(out@) =~= inter_edges(vdiags(diagnostics@), (k + 1) as nat));
        k = k + 1;
    }
    out
}

} // verus!
