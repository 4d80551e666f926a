//! The rule engine: runs the query-level and node-level rules over a profile,
//! orders the diagnostics by severity, keeps one diagnostic per rule and node, and
//! caps their number.
use vstd::prelude::*;
use crate::model::{
    Diagnostic, DiagnosticView, RuleSeverity, severity_rank, vdiags, vparams, lemma_vdiags_push,
    lemma_vdiags_take,
};
use crate::tree::{ExecutionTreeNode, Profile};
use crate::text::str_eq;
use crate::metrics::push_str;
use crate::rules::RuleContext;
use crate::rules::query::{QueryDiagnostic, QueryDiagnosticView};
use crate::uniq::{
    seen, dedup_by, lemma_dedup_by_step, lemma_dedup_by_seen, lemma_dedup_by_distinct, lemma_dedup_by_items,
    lemma_dedup_by_sorted,
};
use crate::engine::dispatch::{
    opt_dview, node_rule, query_rule, eval_node_rule, eval_query, NODE_RULE_COUNT, QUERY_RULE_COUNT,
};

pub mod dispatch;
pub mod report;

verus! {

/// Rule engine configuration.
#[derive(Debug, Clone, Copy)]
pub struct RuleEngineConfig {
    /// Maximum number of diagnostics returned.
    pub max_suggestions: usize,
    /// Whether diagnostics keep their parameter suggestions.
    pub include_parameters: bool,
    /// Minimum severity reported.
    pub min_severity: RuleSeverity,
}

/// The default configuration: at most 100 diagnostics, with parameter
/// suggestions, from severity `Info` up.
pub open spec fn default_config() -> RuleEngineConfig {
    RuleEngineConfig { max_suggestions: 100, include_parameters: true, min_severity: RuleSeverity::Info }
}

impl Default for RuleEngineConfig {
    fn default() -> (c: Self)
        ensures
            c == default_config(),
    {
        RuleEngineConfig { max_suggestions: 100, include_parameters: true, min_severity: RuleSeverity::Info }
    }
}

// ---------------------------------------------------------------------------
// What the engine reports
// ---------------------------------------------------------------------------

/// Whether severity `s` is at least `min` (`Info < Warning < Error`).
pub open spec fn at_least(s: RuleSeverity, min: RuleSeverity) -> bool {
    severity_rank(s) >= severity_rank(min)
}

/// A diagnostic without its parameter suggestions.
pub open spec fn without_params(d: DiagnosticView) -> DiagnosticView {
    DiagnosticView {
        rule_id: d.rule_id,
        rule_name: d.rule_name,
        severity: d.severity,
        node_path: d.node_path,
        plan_node_id: d.plan_node_id,
        message: d.message,
        reason: d.reason,
        suggestions: d.suggestions,
        parameter_suggestions: Seq::empty(),
    }
}

/// What the engine keeps of a rule's outcome: a diagnostic of at least the minimum
/// severity, without parameter suggestions unless they are included.
pub open spec fn kept(config: RuleEngineConfig, o: Option<DiagnosticView>) -> Seq<DiagnosticView> {
    match o {
        Some(d) => if at_least(d.severity, config.min_severity) {
            seq![if config.include_parameters { d } else { without_params(d) }]
        } else {
            Seq::empty()
        },
        None => Seq::empty(),
    }
}

/// A query-level diagnostic placed at the node path `"Query"`, with no plan node.
pub open spec fn query_as_diag(q: QueryDiagnosticView) -> DiagnosticView {
    DiagnosticView {
        rule_id: q.rule_id,
        rule_name: q.rule_name,
        severity: q.severity,
        node_path: "Query"@,
        plan_node_id: None,
        message: q.message,
        reason: q.reason,
        suggestions: q.suggestions,
        parameter_suggestions: q.parameter_suggestions,
    }
}

pub open spec fn opt_query_as_diag(o: Option<QueryDiagnosticView>) -> Option<DiagnosticView> {
    match o {
        Some(q) => Some(query_as_diag(q)),
        None => None,
    }
}

/// What the first `n` query rules contribute, in rule order.
pub open spec fn query_diags(config: RuleEngineConfig, p: Profile, n: nat) -> Seq<DiagnosticView>
    decreases n,
{
    if n == 0 {
        Seq::empty()
    } else {
        query_diags(config, p, (n - 1) as nat) + kept(config, opt_query_as_diag(query_rule(n - 1, p)))
    }
}

/// What the first `n` node rules contribute on `node`, in rule order.
pub open spec fn node_diags(config: RuleEngineConfig, node: ExecutionTreeNode, n: nat) -> Seq<
    DiagnosticView,
>
    decreases n,
{
    if n == 0 {
        Seq::empty()
    } else {
        node_diags(config, node, (n - 1) as nat) + kept(config, node_rule(n - 1, node))
    }
}

/// What all node rules contribute on the nodes, node after node.
pub open spec fn tree_diags(config: RuleEngineConfig, nodes: Seq<ExecutionTreeNode>) -> Seq<
    DiagnosticView,
>
    decreases nodes.len(),
{
    if nodes.len() == 0 {
        Seq::empty()
    } else {
        tree_diags(config, nodes.drop_last()) + node_diags(config, nodes.last(), NODE_RULE_COUNT as nat)
    }
}

/// Everything the rules report on the profile: the query rules first, then the
/// node rules on each node of the execution tree.
pub open spec fn spec_collect(config: RuleEngineConfig, p: Profile) -> Seq<DiagnosticView> {
    query_diags(config, p, QUERY_RULE_COUNT as nat) + match p.execution_tree {
        Some(t) => tree_diags(config, t.nodes@),
        None => Seq::empty(),
    }
}

pub open spec fn has_severity(s: RuleSeverity) -> spec_fn(DiagnosticView) -> bool {
    |d: DiagnosticView| d.severity == s
}

/// The diagnostics ordered by decreasing severity, keeping the order of equally
/// severe ones (a stable sort).
pub open spec fn by_severity(s: Seq<DiagnosticView>) -> Seq<DiagnosticView> {
    s.filter(has_severity(RuleSeverity::Error)) + s.filter(has_severity(RuleSeverity::Warning))
        + s.filter(has_severity(RuleSeverity::Info))
}

/// The key by which repeated diagnostics are recognised: `"<rule id>:<node path>"`.
pub open spec fn diag_key(d: DiagnosticView) -> Seq<char> {
    d.rule_id + ":"@ + d.node_path
}

pub open spec fn diag_key_fn() -> spec_fn(DiagnosticView) -> Seq<char> {
    |d: DiagnosticView| diag_key(d)
}

/// The diagnostics the engine returns: everything reported, ordered by severity,
/// the first of each key kept, at most `max_suggestions` of them.
pub open spec fn spec_analyze(config: RuleEngineConfig, p: Profile) -> Seq<DiagnosticView> {
    let d = dedup_by(by_severity(spec_collect(config, p)), diag_key_fn());
    if d.len() > config.max_suggestions {
        d.take(config.max_suggestions as int)
    } else {
        d
    }
}

// ---------------------------------------------------------------------------
// Evaluation
// ---------------------------------------------------------------------------

fn keep_push(config: RuleEngineConfig, out: &mut Vec<Diagnostic>, d: Option<Diagnostic>)
    ensures
        vdiags(final(out)@) == vdiags(old(out)@) + kept(config, opt_dview(d)),
{
    match d {
        Some(mut d) => {
            let ghost d0 = d@;
            if d.severity.rank() >= config.min_severity.rank() {
                if !config.include_parameters {
                    d.parameter_suggestions = Vec::new();
                    assert(vparams(d.parameter_suggestions@) =~= Seq::<crate::model::ParameterSuggestionView>::empty());
                    assert(d@ =~= without_params(d0));
                }
                proof {
                    lemma_vdiags_push(out@, d);
                }
                let ghost before = vdiags(out@);
                out.push(d);
                assert(vdiags(out@) =~= before + seq![d@]);
            } else {
                assert(vdiags(out@) =~= vdiags(out@) + Seq::<DiagnosticView>::empty());
            }
        },
        None => {
            assert(vdiags(out@) =~= vdiags(out@) + Seq::<DiagnosticView>::empty());
        },
    }
}

fn query_to_diag(q: QueryDiagnostic) -> (d: Diagnostic)
    ensures
        d@ == query_as_diag(q@),
{
    Diagnostic {
        rule_id: q.rule_id,
        rule_name: q.rule_name,
        severity: q.severity,
        node_path: String::from_str("Query"),
        plan_node_id: None,
        message: q.message,
        reason: q.reason,
        suggestions: q.suggestions,
        parameter_suggestions: q.parameter_suggestions,
    }
}

fn collect(config: RuleEngineConfig, profile: &Profile) -> (r: Vec<Diagnostic>)
    requires
        profile.wf(),
    ensures
        vdiags(r@) == spec_collect(config, *profile),
{
    let mut out: Vec<Diagnostic> = Vec::new();
    let mut k: usize = 0;
    assert(vdiags(out@) =~= Seq::<DiagnosticView>::empty());
    while k < QUERY_RULE_COUNT
        invariant
            k <= QUERY_RULE_COUNT,
            profile.wf(),
            vdiags(out@) == query_diags(config, *profile, k as nat),
        decreases QUERY_RULE_COUNT - k,
    {
        let q = eval_query(k, profile);
        let d = match q {
            Some(q) => Some(query_to_diag(q)),
            None => None,
        };
        assert(opt_dview(d) == opt_query_as_diag(query_rule(k as int, *profile)));
        keep_push(config, &mut out, d);
        k = k + 1;
    }
    match &profile.execution_tree {
        Some(t) => {
            let ghost base = vdiags(out@);
            assert(forall|j: int| 0 <= j < t.nodes@.len() ==> (#[trigger] t.nodes@[j]).wf());
            let mut i: usize = 0;
            assert(t.nodes@.take(0) =~= Seq::<ExecutionTreeNode>::empty());
            assert(base + Seq::<DiagnosticView>::empty() =~= base);
            while i < t.nodes.len()
                invariant
                    i <= t.nodes.len(),
                    forall|j: int| 0 <= j < t.nodes@.len() ==> (#[trigger] t.nodes@[j]).wf(),
                    vdiags(out@) == base + tree_diags(config, t.nodes@.take(i as int)),
                decreases t.nodes.len() - i,
            {
                let node = &t.nodes[i];
                assert(node.wf());
                let ctx = RuleContext { node, session_variables: &profile.summary.non_default_variables };
                let ghost before = vdiags(out@);
                let mut k: usize = 0;
                assert(before + Seq::<DiagnosticView>::empty() =~= before);
                while k < NODE_RULE_COUNT
                    invariant
                        k <= NODE_RULE_COUNT,
                        ctx.node == node,
                        node.wf(),
                        vdiags(out@) == before + node_diags(config, *node, k as nat),
                    decreases NODE_RULE_COUNT - k,
                {
                    let d = eval_node_rule(k, &ctx);
                    let ghost mid = vdiags(out@);
                    keep_push(config, &mut out, d);
                    assert(vdiags(out@) =~= before + node_diags(config, *node, (k + 1) as nat));
                    k = k + 1;
                }
                proof {
                    let s = t.nodes@.take(i + 1);
                    assert(s.drop_last() =~= t.nodes@.take(i as int));
                    assert(s.last() == *node);
                    assert(vdiags(out@) =~= base + tree_diags(config, s));
                }
                i = i + 1;
            }
            assert(t.nodes@.take(t.nodes.len() as int) =~= t.nodes@);
        },
        None => {
            assert(vdiags(out@) =~= vdiags(out@) + Seq::<DiagnosticView>::empty());
        },
    }
    out
}

fn push_severity(out: &mut Vec<Diagnostic>, v: &Vec<Diagnostic>, s: RuleSeverity)
    ensures
        vdiags(final(out)@) == vdiags(old(out)@) + vdiags(v@).filter(has_severity(s)),
{
    let ghost base = vdiags(out@);
    let mut i: usize = 0;
    proof {
        reveal(Seq::filter);
        assert(vdiags(v@).take(0) =~= Seq::<DiagnosticView>::empty());
        assert(base + Seq::<DiagnosticView>::empty() =~= base);
    }
    while i < v.len()
        invariant
            i <= v.len(),
            vdiags(out@) == base + vdiags(v@).take(i as int).filter(has_severity(s)),
        decreases v.len() - i,
    {
        proof {
            lemma_vdiags_take(v@, i as int);
            vdiags(v@).take(i as int).lemma_filter_push(v@[i as int]@, has_severity(s));
        }
        if v[i].severity == s {
            let c = v[i].copy();
            let ghost before = vdiags(out@);
            proof {
                lemma_vdiags_push(out@, c);
            }
            out.push(c);
            assert(vdiags(out@) =~= base + vdiags(v@).take(i + 1).filter(has_severity(s)));
        }
        i = i + 1;
    }
    assert(vdiags(v@).take(v.len() as int) =~= vdiags(v@));
}

fn sort_by_severity(v: &Vec<Diagnostic>) -> (r: Vec<Diagnostic>)
    ensures
        vdiags(r@) == by_severity(vdiags(v@)),
{
    let mut r: Vec<Diagnostic> = Vec::new();
    assert(vdiags(r@) =~= Seq::<DiagnosticView>::empty());
    push_severity(&mut r, v, RuleSeverity::Error);
    assert(vdiags(r@) =~= vdiags(v@).filter(has_severity(RuleSeverity::Error)));
    push_severity(&mut r, v, RuleSeverity::Warning);
    push_severity(&mut r, v, RuleSeverity::Info);
    r
}

fn key_of(d: &Diagnostic) -> (k: String)
    ensures
        k@ == diag_key(d@),
{
    let mut k = d.rule_id.clone();
    push_str(&mut k, ":");
    push_str(&mut k, d.node_path.as_str());
    k
}

fn dedup_diags(v: &Vec<Diagnostic>) -> (r: Vec<Diagnostic>)
    ensures
        vdiags(r@) == dedup_by(vdiags(v@), diag_key_fn()),
{
    let ghost s = vdiags(v@);
    let mut r: Vec<Diagnostic> = Vec::new();
    let mut keys: Vec<String> = Vec::new();
    let mut i: usize = 0;
    assert(s.take(0) =~= Seq::<DiagnosticView>::empty());
    assert(vdiags(r@) =~= Seq::<DiagnosticView>::empty());
    while i < v.len()
        invariant
            i <= v.len(),
            s == vdiags(v@),
            vdiags(r@) == dedup_by(s.take(i as int), diag_key_fn()),
            keys@.len() == r@.len(),
            forall|j: int| 0 <= j < r@.len() ==> (#[trigger] keys@[j])@ == diag_key(r@[j]@),
        decreases v.len() - i,
    {
        let k = key_of(&v[i]);
        let mut found = false;
        let mut j: usize = 0;
        while j < keys.len()
            invariant
                j <= keys.len(),
                found == exists|q: int| 0 <= q < j && (#[trigger] keys@[q])@ == k@,
            decreases keys.len() - j,
        {
            if str_eq(keys[j].as_str(), k.as_str()) {
                found = true;
            }
            j = j + 1;
        }
        proof {
            lemma_dedup_by_seen(s.take(i as int), diag_key_fn());
            lemma_dedup_by_step(s, diag_key_fn(), i as int);
            let d = dedup_by(s.take(i as int), diag_key_fn());
            assert(s[i as int] == v@[i as int]@);
            if found {
                let q = choose|q: int| 0 <= q < keys@.len() && (#[trigger] keys@[q])@ == k@;
                assert(d[q] == r@[q]@);
                assert(seen(d, diag_key_fn(), diag_key(s[i as int])));
            }
            if seen(d, diag_key_fn(), diag_key(s[i as int])) {
                let q = choose|q: int| 0 <= q < d.len() && diag_key(d[q]) == diag_key(s[i as int]);
                assert(d[q] == r@[q]@);
                assert(keys@[q]@ == k@);
            }
        }
        if !found {
            let c = v[i].copy();
            proof {
                lemma_vdiags_push(r@, c);
            }
            r.push(c);
            keys.push(k);
        }
        i = i + 1;
    }
    assert(s.take(v.len() as int) =~= s);
    r
}

/// The rule engine.
pub struct RuleEngine {
    config: RuleEngineConfig,
}

impl RuleEngine {
    /// The configuration the engine runs with.
    pub closed spec fn cfg(self) -> RuleEngineConfig {
        self.config
    }

    /// An engine with the default configuration.
    pub fn new() -> (e: Self)
        ensures
            e.cfg() == default_config(),
    {
        RuleEngine { config: RuleEngineConfig::default() }
    }

    /// An engine with the given configuration.
    pub fn with_config(config: RuleEngineConfig) -> (e: Self)
        ensures
            e.cfg() == config,
    {
        RuleEngine { config }
    }

    /// Analyze a profile and return its diagnostics.
    pub fn analyze(&self, profile: &Profile) -> (r: Vec<Diagnostic>)
        requires
            profile.wf(),
        ensures
            vdiags(r@) == spec_analyze(self.cfg(), *profile),
    {
        let all = collect(self.config, profile);
        let sorted = sort_by_severity(&all);
        let mut r = dedup_diags(&sorted);
        if r.len() > self.config.max_suggestions {
            r.truncate(self.config.max_suggestions);
            assert(vdiags(r@) =~= dedup_by(by_severity(spec_collect(self.cfg(), *profile)), diag_key_fn()).take(
                self.cfg().max_suggestions as int,
            ));
        }
        r
    }
}

impl Default for RuleEngine {
    fn default() -> (e: Self)
        ensures
            e.cfg() == default_config(),
    {
        RuleEngine::new()
    }
}

// ---------------------------------------------------------------------------
// Laws
// ---------------------------------------------------------------------------

/// What every diagnostic the engine keeps satisfies under `config`.
pub open spec fn admitted(config: RuleEngineConfig, d: DiagnosticView) -> bool {
    &&& at_least(d.severity, config.min_severity)
    &&& (!config.include_parameters ==> d.parameter_suggestions.len() == 0)
}

pub open spec fn all_admitted(config: RuleEngineConfig, s: Seq<DiagnosticView>) -> bool {
    forall|i: int| 0 <= i < s.len() ==> admitted(config, #[trigger] s[i])
}

proof fn lemma_concat_admitted(config: RuleEngineConfig, a: Seq<DiagnosticView>, b: Seq<DiagnosticView>)
    requires
        all_admitted(config, a),
        all_admitted(config, b),
    ensures
        all_admitted(config, a + b),
{
    assert forall|i: int| 0 <= i < (a + b).len() implies admitted(config, #[trigger] (a + b)[i]) by {
        if i < a.len() {
            assert((a + b)[i] == a[i]);
        } else {
            assert((a + b)[i] == b[i - a.len()]);
        }
    }
}

proof fn lemma_kept_admitted(config: RuleEngineConfig, o: Option<DiagnosticView>)
    ensures
        all_admitted(config, kept(config, o)),
{
}

proof fn lemma_query_diags_admitted(config: RuleEngineConfig, p: Profile, n: nat)
    ensures
        all_admitted(config, query_diags(config, p, n)),
    decreases n,
{
    if n > 0 {
        lemma_query_diags_admitted(config, p, (n - 1) as nat);
        lemma_kept_admitted(config, opt_query_as_diag(query_rule(n - 1, p)));
        lemma_concat_admitted(
            config,
            query_diags(config, p, (n - 1) as nat),
            kept(config, opt_query_as_diag(query_rule(n - 1, p))),
        );
    }
}

proof fn lemma_node_diags_admitted(config: RuleEngineConfig, node: ExecutionTreeNode, n: nat)
    ensures
        all_admitted(config, node_diags(config, node, n)),
    decreases n,
{
    if n > 0 {
        lemma_node_diags_admitted(config, node, (n - 1) as nat);
        lemma_kept_admitted(config, node_rule(n - 1, node));
        lemma_concat_admitted(config, node_diags(config, node, (n - 1) as nat), kept(config, node_rule(n - 1, node)));
    }
}

proof fn lemma_tree_diags_admitted(config: RuleEngineConfig, nodes: Seq<ExecutionTreeNode>)
    ensures
        all_admitted(config, tree_diags(config, nodes)),
    decreases nodes.len(),
{
    if nodes.len() > 0 {
        lemma_tree_diags_admitted(config, nodes.drop_last());
        lemma_node_diags_admitted(config, nodes.last(), NODE_RULE_COUNT as nat);
        lemma_concat_admitted(
            config,
            tree_diags(config, nodes.drop_last()),
            node_diags(config, nodes.last(), NODE_RULE_COUNT as nat),
        );
    }
}

pub open spec fn rank_fn() -> spec_fn(DiagnosticView) -> int {
    |d: DiagnosticView| severity_rank(d.severity) as int
}

/// `by_severity(s)` is ordered by decreasing severity and holds the same items as `s`.
proof fn lemma_by_severity(s: Seq<DiagnosticView>)
    ensures
        forall|i: int, j: int|
            0 <= i < j < by_severity(s).len() ==> rank_fn()(#[trigger] by_severity(s)[i]) >= rank_fn()(
                #[trigger] by_severity(s)[j],
            ),
        forall|i: int| 0 <= i < by_severity(s).len() ==> s.contains(#[trigger] by_severity(s)[i]),
        forall|j: int| 0 <= j < s.len() ==> by_severity(s).contains(#[trigger] s[j]),
{
    broadcast use Seq::lemma_filter_pred, Seq::lemma_filter_contains, Seq::lemma_filter_contains_rev;
    let e = s.filter(has_severity(RuleSeverity::Error));
    let w = s.filter(has_severity(RuleSeverity::Warning));
    let f = s.filter(has_severity(RuleSeverity::Info));
    let r = by_severity(s);
    assert(r == e + w + f);
    assert forall|i: int| 0 <= i < r.len() implies s.contains(#[trigger] r[i]) && (
        (i < e.len() ==> r[i].severity == RuleSeverity::Error)
        && (e.len() <= i < e.len() + w.len() ==> r[i].severity == RuleSeverity::Warning)
        && (e.len() + w.len() <= i ==> r[i].severity == RuleSeverity::Info)) by {
        if i < e.len() {
            assert(r[i] == e[i]);
            assert(e.contains(e[i]));
        } else if i < e.len() + w.len() {
            assert(r[i] == w[i - e.len()]);
            assert(w.contains(w[i - e.len()]));
        } else {
            assert(r[i] == f[i - e.len() - w.len()]);
            assert(f.contains(f[i - e.len() - w.len()]));
        }
    }
    assert forall|j: int| 0 <= j < s.len() implies r.contains(#[trigger] s[j]) by {
        let x = s[j];
        if x.severity == RuleSeverity::Error {
            assert(e.contains(x));
            let q = choose|q: int| 0 <= q < e.len() && e[q] == x;
            assert(r[q] == x);
        } else if x.severity == RuleSeverity::Warning {
            assert(w.contains(x));
            let q = choose|q: int| 0 <= q < w.len() && w[q] == x;
            assert(r[e.len() + q] == x);
        } else {
            assert(f.contains(x));
            let q = choose|q: int| 0 <= q < f.len() && f[q] == x;
            assert(r[e.len() + w.len() + q] == x);
        }
    }
}

/// Laws of `analyze`: it returns at most `max_suggestions` diagnostics; no two of them
/// share a rule id and node path; they come by decreasing severity; each has at least
/// the minimum severity; none carries parameter suggestions when those are excluded;
/// and when fewer than `max_suggestions` come back, every rule id and node path that
/// a rule reported is among them.
pub proof fn lemma_analyze_laws(config: RuleEngineConfig, p: Profile)
    ensures
        spec_analyze(config, p).len() <= config.max_suggestions,
        forall|i: int, j: int|
            0 <= i < j < spec_analyze(config, p).len() ==> diag_key(#[trigger] spec_analyze(config, p)[i])
                != diag_key(#[trigger] spec_analyze(config, p)[j]),
        forall|i: int, j: int|
            0 <= i < j < spec_analyze(config, p).len() ==> severity_rank(
                (#[trigger] spec_analyze(config, p)[i]).severity,
            ) >= severity_rank((#[trigger] spec_analyze(config, p)[j]).severity),
        forall|i: int|
            0 <= i < spec_analyze(config, p).len() ==> at_least(
                (#[trigger] spec_analyze(config, p)[i]).severity,
                config.min_severity,
            ),
        !config.include_parameters ==> forall|i: int|
            0 <= i < spec_analyze(config, p).len()
                ==> (#[trigger] spec_analyze(config, p)[i]).parameter_suggestions.len() == 0,
        spec_analyze(config, p).len() < config.max_suggestions ==> forall|j: int|
            0 <= j < spec_collect(config, p).len() ==> seen(
                spec_analyze(config, p),
                diag_key_fn(),
                diag_key(#[trigger] spec_collect(config, p)[j]),
            ),
{
    let c = spec_collect(config, p);
    let b = by_severity(c);
    let d = dedup_by(b, diag_key_fn());
    let r = spec_analyze(config, p);
    lemma_query_diags_admitted(config, p, QUERY_RULE_COUNT as nat);
    match p.execution_tree {
        Some(t) => lemma_tree_diags_admitted(config, t.nodes@),
        None => {},
    }
    lemma_concat_admitted(
        config,
        query_diags(config, p, QUERY_RULE_COUNT as nat),
        match p.execution_tree {
            Some(t) => tree_diags(config, t.nodes@),
            None => Seq::empty(),
        },
    );
    assert(all_admitted(config, c));
    lemma_by_severity(c);
    lemma_dedup_by_distinct(b, diag_key_fn());
    lemma_dedup_by_items(b, diag_key_fn());
    lemma_dedup_by_sorted(b, diag_key_fn(), rank_fn());
    lemma_dedup_by_seen(b, diag_key_fn());
    assert forall|i: int| 0 <= i < r.len() implies admitted(config, #[trigger] r[i]) && r[i] == d[i] by {
        assert(r[i] == d[i]);
        let q = choose|q: int| 0 <= q < b.len() && b[q] == d[i];
        assert(c.contains(b[q]));
    }
    assert forall|i: int, j: int| 0 <= i < j < r.len() implies diag_key(#[trigger] r[i]) != diag_key(
        #[trigger] r[j],
    ) && severity_rank(r[i].severity) >= severity_rank(r[j].severity) by {
        assert(r[i] == d[i] && r[j] == d[j]);
    }
    if r.len() < config.max_suggestions {
        assert(r == d);
        assert forall|j: int| 0 <= j < c.len() implies seen(r, diag_key_fn(), diag_key(#[trigger] c[j])) by {
            assert(b.contains(c[j]));
            let q = choose|q: int| 0 <= q < b.len() && b[q] == c[j];
            assert(seen(b, diag_key_fn(), diag_key(c[j])));
        }
    }
}

} // verus!
