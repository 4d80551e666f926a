//! The analysis response: diagnostics as the API reports them, and their
//! aggregation by rule.
use vstd::prelude::*;
use crate::num::{dec_str, u128_to_string};
use crate::metrics::push_str;
use crate::model::{
    Diagnostic, DiagnosticView, ParameterSuggestion, ParameterSuggestionView, ParameterType, vstr, vparams,
    clone_strings, copy_opt_string, opt_view, severity_name, lemma_vstr_push,
};
use crate::text::str_eq;
use crate::uniq::{dedup_by, same_text, push_new_text, push_new_texts};

pub mod profile;

verus! {

// ---------------------------------------------------------------------------
// Reported diagnostics
// ---------------------------------------------------------------------------

/// A parameter suggestion as reported.
#[derive(Debug, Clone)]
pub struct ParameterTuningSuggestion {
    pub name: String,
    /// `"Session"` or `"BE"`.
    pub param_type: String,
    pub current: Option<String>,
    pub recommended: String,
    pub command: String,
}

pub struct TuningView {
    pub name: Seq<char>,
    pub param_type: Seq<char>,
    pub current: Option<Seq<char>>,
    pub recommended: Seq<char>,
    pub command: Seq<char>,
}

impl View for ParameterTuningSuggestion {
    type V = TuningView;

    open spec fn view(&self) -> TuningView {
        TuningView {
            name: self.name@,
            param_type: self.param_type@,
            current: opt_view(self.current),
            recommended: self.recommended@,
            command: self.command@,
        }
    }
}

pub open spec fn vtunings(v: Seq<ParameterTuningSuggestion>) -> Seq<TuningView> {
    v.map_values(|p: ParameterTuningSuggestion| p@)
}

/// A diagnostic as reported; the severity is written out (`"Error"`, `"Warning"`,
/// `"Info"`).
#[derive(Debug, Clone)]
pub struct DiagnosticResult {
    pub rule_id: String,
    pub rule_name: String,
    pub severity: String,
    pub node_path: String,
    pub plan_node_id: Option<i32>,
    pub message: String,
    pub reason: String,
    pub suggestions: Vec<String>,
    pub parameter_suggestions: Vec<ParameterTuningSuggestion>,
}

pub struct ResultView {
    pub rule_id: Seq<char>,
    pub rule_name: Seq<char>,
    pub severity: Seq<char>,
    pub node_path: Seq<char>,
    pub plan_node_id: Option<i32>,
    pub message: Seq<char>,
    pub reason: Seq<char>,
    pub suggestions: Seq<Seq<char>>,
    pub parameter_suggestions: Seq<TuningView>,
}

impl View for DiagnosticResult {
    type V = ResultView;

    open spec fn view(&self) -> ResultView {
        ResultView {
            rule_id: self.rule_id@,
            rule_name: self.rule_name@,
            severity: self.severity@,
            node_path: self.node_path@,
            plan_node_id: self.plan_node_id,
            message: self.message@,
            reason: self.reason@,
            suggestions: vstr(self.suggestions@),
            parameter_suggestions: vtunings(self.parameter_suggestions@),
        }
    }
}

pub open spec fn vresults(v: Seq<DiagnosticResult>) -> Seq<ResultView> {
    v.map_values(|d: DiagnosticResult| d@)
}

/// The diagnostics of one rule, aggregated over the nodes where they occur.
#[derive(Debug, Clone)]
pub struct AggregatedDiagnostic {
    pub rule_id: String,
    pub rule_name: String,
    pub severity: String,
    pub message: String,
    pub reason: String,
    pub affected_nodes: Vec<String>,
    pub node_count: usize,
    pub suggestions: Vec<String>,
    pub parameter_suggestions: Vec<ParameterTuningSuggestion>,
}

pub struct AggregatedView {
    pub rule_id: Seq<char>,
    pub rule_name: Seq<char>,
    pub severity: Seq<char>,
    pub message: Seq<char>,
    pub reason: Seq<char>,
    pub affected_nodes: Seq<Seq<char>>,
    pub node_count: usize,
    pub suggestions: Seq<Seq<char>>,
    pub parameter_suggestions: Seq<TuningView>,
}

impl View for AggregatedDiagnostic {
    type V = AggregatedView;

    open spec fn view(&self) -> AggregatedView {
        AggregatedView {
            rule_id: self.rule_id@,
            rule_name: self.rule_name@,
            severity: self.severity@,
            message: self.message@,
            reason: self.reason@,
            affected_nodes: vstr(self.affected_nodes@),
            node_count: self.node_count,
            suggestions: vstr(self.suggestions@),
            parameter_suggestions: vtunings(self.parameter_suggestions@),
        }
    }
}

pub open spec fn vaggs(v: Seq<AggregatedDiagnostic>) -> Seq<AggregatedView> {
    v.map_values(|a: AggregatedDiagnostic| a@)
}

pub open spec fn param_type_name(t: ParameterType) -> Seq<char> {
    match t {
        ParameterType::Session => "Session"@,
        ParameterType::BE => "BE"@,
    }
}

pub open spec fn tunings_of(s: Seq<ParameterSuggestionView>) -> Seq<TuningView> {
    s.map_values(|p: ParameterSuggestionView| tuning_of(p))
}

pub open spec fn tuning_of(p: ParameterSuggestionView) -> TuningView {
    TuningView {
        name: p.name,
        param_type: param_type_name(p.param_type),
        current: p.current,
        recommended: p.recommended,
        command: p.command,
    }
}

/// The reported form of a diagnostic.
pub open spec fn result_of(d: DiagnosticView) -> ResultView {
    ResultView {
        rule_id: d.rule_id,
        rule_name: d.rule_name,
        severity: severity_name(d.severity),
        node_path: d.node_path,
        plan_node_id: d.plan_node_id,
        message: d.message,
        reason: d.reason,
        suggestions: d.suggestions,
        parameter_suggestions: tunings_of(d.parameter_suggestions),
    }
}

fn tuning_exec(p: &ParameterSuggestion) -> (r: ParameterTuningSuggestion)
    ensures
        r@ == tuning_of(p@),
{
    ParameterTuningSuggestion {
        name: p.name.clone(),
        param_type: match p.param_type {
            ParameterType::Session => String::from_str("Session"),
            ParameterType::BE => String::from_str("BE"),
        },
        current: copy_opt_string(&p.current),
        recommended: p.recommended.clone(),
        command: p.command.clone(),
    }
}

impl DiagnosticResult {
    /// The reported form of a diagnostic.
    pub fn from_diagnostic(d: &Diagnostic) -> (r: DiagnosticResult)
        ensures
            r@ == result_of(d@),
    {
        let mut ps: Vec<ParameterTuningSuggestion> = Vec::new();
        let mut i: usize = 0;
        let ghost src = vparams(d.parameter_suggestions@);
        assert(vtunings(ps@) =~= tunings_of(src.take(0)));
        while i < d.parameter_suggestions.len()
            invariant
                i <= d.parameter_suggestions.len(),
                src == vparams(d.parameter_suggestions@),
                vtunings(ps@) == tunings_of(src.take(i as int)),
            decreases d.parameter_suggestions.len() - i,
        {
            let t = tuning_exec(&d.parameter_suggestions[i]);
            let ghost before = vtunings(ps@);
            ps.push(t);
            assert(src.take(i + 1) =~= src.take(i as int).push(src[i as int]));
            assert(src[i as int] == d.parameter_suggestions@[i as int]@);
            assert(tunings_of(src.take(i + 1)) =~= tunings_of(src.take(i as int)).push(t@));
            assert(vtunings(ps@) =~= before.push(t@));
            i = i + 1;
        }
        assert(src.take(d.parameter_suggestions.len() as int) =~= src);
        DiagnosticResult {
            rule_id: d.rule_id.clone(),
            rule_name: d.rule_name.clone(),
            severity: d.severity.name(),
            node_path: d.node_path.clone(),
            plan_node_id: d.plan_node_id,
            message: d.message.clone(),
            reason: d.reason.clone(),
            suggestions: clone_strings(&d.suggestions),
            parameter_suggestions: ps,
        }
    }

    /// A copy of this result.
    pub fn copy(&self) -> (r: DiagnosticResult)
        ensures
            r@ == self@,
    {
        DiagnosticResult {
            rule_id: self.rule_id.clone(),
            rule_name: self.rule_name.clone(),
            severity: self.severity.clone(),
            node_path: self.node_path.clone(),
            plan_node_id: self.plan_node_id,
            message: self.message.clone(),
            reason: self.reason.clone(),
            suggestions: clone_strings(&self.suggestions),
            parameter_suggestions: copy_tunings(&self.parameter_suggestions),
        }
    }
}

pub fn copy_tunings(v: &Vec<ParameterTuningSuggestion>) -> (r: Vec<ParameterTuningSuggestion>)
    ensures
        vtunings(r@) == vtunings(v@),
{
    let mut r: Vec<ParameterTuningSuggestion> = Vec::new();
    let mut i: usize = 0;
    assert(vtunings(r@) =~= vtunings(v@.take(0)));
    while i < v.len()
        invariant
            i <= v.len(),
            vtunings(r@) == vtunings(v@.take(i as int)),
        decreases v.len() - i,
    {
        let p = &v[i];
        let c = ParameterTuningSuggestion {
            name: p.name.clone(),
            param_type: p.param_type.clone(),
            current: copy_opt_string(&p.current),
            recommended: p.recommended.clone(),
            command: p.command.clone(),
        };
        let ghost before = vtunings(r@);
        r.push(c);
        assert(v@.take(i + 1) =~= v@.take(i as int).push(v@[i as int]));
        assert(vtunings(r@) =~= before.push(c@));
        assert(vtunings(v@.take(i + 1)) =~= vtunings(v@.take(i as int)).push(v@[i as int]@));
        i = i + 1;
    }
    assert(v@.take(v.len() as int) =~= v@);
    r
}

// ---------------------------------------------------------------------------
// Aggregation
// ---------------------------------------------------------------------------

/// Order of a written severity: `"Error"` 3, `"Warning"` 2, `"Info"` 1, else 0.
pub open spec fn severity_rank_text(s: Seq<char>) -> nat {
    if s == "Error"@ {
        3
    } else if s == "Warning"@ {
        2
    } else if s == "Info"@ {
        1
    } else {
        0
    }
}

/// The order of a written severity (higher is more severe).
pub fn severity_order(severity: &str) -> (r: u8)
    ensures
        r == severity_rank_text(severity@),
{
    if str_eq(severity, "Error") {
        3
    } else if str_eq(severity, "Warning") {
        2
    } else if str_eq(severity, "Info") {
        1
    } else {
        0
    }
}

pub open spec fn result_rule_is(id: Seq<char>) -> spec_fn(ResultView) -> bool {
    |d: ResultView| d.rule_id == id
}

pub open spec fn result_ids(ds: Seq<ResultView>) -> Seq<Seq<char>> {
    ds.map_values(|d: ResultView| d.rule_id)
}

/// The most severe of the severities of `g` (the last one among equally severe).
pub open spec fn max_severity(g: Seq<ResultView>) -> Seq<char>
    decreases g.len(),
{
    if g.len() == 0 {
        Seq::empty()
    } else if g.len() == 1 {
        g[0].severity
    } else {
        let m = max_severity(g.drop_last());
        if severity_rank_text(g.last().severity) >= severity_rank_text(m) {
            g.last().severity
        } else {
            m
        }
    }
}

/// The parameter suggestions of the first diagnostic of `g` that has some.
pub open spec fn first_params(g: Seq<ResultView>) -> Seq<TuningView>
    decreases g.len(),
{
    if g.len() == 0 {
        Seq::empty()
    } else {
        let p = first_params(g.drop_last());
        if p.len() > 0 {
            p
        } else {
            g.last().parameter_suggestions
        }
    }
}

/// The suggestions of the diagnostics of `g`, one after another.
pub open spec fn group_suggestions(g: Seq<ResultView>) -> Seq<Seq<char>>
    decreases g.len(),
{
    if g.len() == 0 {
        Seq::empty()
    } else {
        group_suggestions(g.drop_last()) + g.last().suggestions
    }
}

/// The aggregate of the diagnostics of rule `id`.
pub open spec fn aggregate_of(ds: Seq<ResultView>, id: Seq<char>) -> AggregatedView {
    let g = ds.filter(result_rule_is(id));
    let first = g[0];
    AggregatedView {
        rule_id: id,
        rule_name: first.rule_name,
        severity: max_severity(g),
        message: if g.len() > 1 {
            dec_str(g.len()) + " 个节点存在此问题"@
        } else {
            first.message
        },
        reason: first.reason,
        affected_nodes: g.map_values(|d: ResultView| d.node_path),
        node_count: g.len() as usize,
        suggestions: dedup_by(group_suggestions(g), same_text()),
        parameter_suggestions: first_params(g),
    }
}

/// `a` goes before `b`: it is more severe, or as severe on more nodes.
pub open spec fn agg_before(a: AggregatedView, b: AggregatedView) -> bool {
    severity_rank_text(a.severity) > severity_rank_text(b.severity) || (severity_rank_text(a.severity)
        == severity_rank_text(b.severity) && a.node_count > b.node_count)
}

/// `x` inserted into `s` just before the first item it goes before.
pub open spec fn insert_agg(s: Seq<AggregatedView>, x: AggregatedView) -> Seq<AggregatedView>
    decreases s.len(),
{
    if s.len() == 0 {
        seq![x]
    } else if agg_before(x, s[0]) {
        seq![x] + s
    } else {
        seq![s[0]] + insert_agg(s.drop_first(), x)
    }
}

/// The aggregates in order (`agg_before`), equal ones in their original order.
pub open spec fn sort_aggs(s: Seq<AggregatedView>) -> Seq<AggregatedView>
    decreases s.len(),
{
    if s.len() == 0 {
        s
    } else {
        insert_agg(sort_aggs(s.drop_last()), s.last())
    }
}

/// The aggregates of the diagnostics, one per rule id in order of first appearance,
/// then ordered by decreasing severity and node count.
pub open spec fn spec_aggregate(ds: Seq<ResultView>) -> Seq<AggregatedView> {
    let ids = dedup_by(result_ids(ds), same_text());
    sort_aggs(Seq::new(ids.len(), |i: int| aggregate_of(ds, ids[i])))
}

proof fn lemma_insert_agg(s: Seq<AggregatedView>, x: AggregatedView, p: int)
    requires
        0 <= p <= s.len(),
        forall|i: int| 0 <= i < p ==> !agg_before(x, #[trigger] s[i]),
        p == s.len() || agg_before(x, s[p]),
    ensures
        insert_agg(s, x) == s.insert(p, x),
    decreases s.len(),
{
    if s.len() == 0 {
        assert(s.insert(p, x) =~= seq![x]);
    } else if p == 0 {
        assert(s.insert(p, x) =~= seq![x] + s);
    } else {
        let t = s.drop_first();
        assert forall|i: int| 0 <= i < p - 1 implies !agg_before(x, #[trigger] t[i]) by {
            assert(t[i] == s[i + 1]);
        }
        if p < s.len() {
            assert(t[p - 1] == s[p]);
        }
        lemma_insert_agg(t, x, p - 1);
        assert(seq![s[0]] + t.insert(p - 1, x) =~= s.insert(p, x));
    }
}

impl AggregatedDiagnostic {
    /// A copy of this aggregate.
    pub fn copy(&self) -> (r: AggregatedDiagnostic)
        ensures
            r@ == self@,
    {
        AggregatedDiagnostic {
            rule_id: self.rule_id.clone(),
            rule_name: self.rule_name.clone(),
            severity: self.severity.clone(),
            message: self.message.clone(),
            reason: self.reason.clone(),
            affected_nodes: clone_strings(&self.affected_nodes),
            node_count: self.node_count,
            suggestions: clone_strings(&self.suggestions),
            parameter_suggestions: copy_tunings(&self.parameter_suggestions),
        }
    }
}

fn agg_before_exec(a: &AggregatedDiagnostic, b: &AggregatedDiagnostic) -> (r: bool)
    ensures
        r == agg_before(a@, b@),
{
    let sa = severity_order(a.severity.as_str());
    let sb = severity_order(b.severity.as_str());
    sa > sb || (sa == sb && a.node_count > b.node_count)
}

fn sort_aggregates(v: &Vec<AggregatedDiagnostic>) -> (r: Vec<AggregatedDiagnostic>)
    ensures
        vaggs(r@) == sort_aggs(vaggs(v@)),
{
    let ghost s = vaggs(v@);
    let mut out: Vec<AggregatedDiagnostic> = Vec::new();
    let mut i: usize = 0;
    assert(s.take(0) =~= Seq::<AggregatedView>::empty());
    assert(vaggs(out@) =~= Seq::<AggregatedView>::empty());
    while i < v.len()
        invariant
            i <= v.len(),
            s == vaggs(v@),
            vaggs(out@) == sort_aggs(s.take(i as int)),
        decreases v.len() - i,
    {
        let x = v[i].copy();
        let mut p: usize = 0;
        while p < out.len() && !agg_before_exec(&x, &out[p])
            invariant
                p <= out.len(),
                forall|k: int| 0 <= k < p ==> !agg_before(x@, #[trigger] vaggs(out@)[k]),
            decreases out.len() - p,
        {
            p = p + 1;
        }
        proof {
            lemma_insert_agg(vaggs(out@), x@, p as int);
            let t = s.take(i + 1);
            assert(t.drop_last() =~= s.take(i as int));
            assert(t.last() == x@);
        }
        let ghost before = vaggs(out@);
        out.insert(p, x);
        assert(vaggs(out@) =~= before.insert(p as int, x@));
        i = i + 1;
    }
    assert(s.take(v.len() as int) =~= s);
    out
}

/// The aggregate of the diagnostics of rule `id` (which some diagnostic has).
fn aggregate_one(ds: &[DiagnosticResult], id: &String) -> (r: AggregatedDiagnostic)
    requires
        exists|j: int| 0 <= j < ds@.len() && (#[trigger] ds@[j]).rule_id@ == id@,
    ensures
        r@ == aggregate_of(vresults(ds@), id@),
{
    let ghost s = vresults(ds@);
    let ghost f = result_rule_is(id@);
    let mut first: Option<usize> = None;
    let mut count: usize = 0;
    let mut nodes: Vec<String> = Vec::new();
    let mut sugg: Vec<String> = Vec::new();
    let mut params: Vec<ParameterTuningSuggestion> = Vec::new();
    let mut sev = String::new();
    let mut i: usize = 0;
    proof {
        reveal(Seq::filter);
        assert(s.take(0) =~= Seq::<ResultView>::empty());
        assert(vstr(nodes@) =~= Seq::<Seq<char>>::empty());
        assert(vstr(sugg@) =~= Seq::<Seq<char>>::empty());
        assert(vtunings(params@) =~= Seq::<TuningView>::empty());
    }
    while i < ds.len()
        invariant
            i <= ds.len(),
            s == vresults(ds@),
            f == result_rule_is(id@),
            count == s.take(i as int).filter(f).len(),
            count <= i,
            first is None ==> count == 0,
            first matches Some(k) ==> k < ds.len() && count > 0 && s.take(i as int).filter(f)[0] == s[k as int],
            vstr(nodes@) == s.take(i as int).filter(f).map_values(|d: ResultView| d.node_path),
            vstr(sugg@) == dedup_by(group_suggestions(s.take(i as int).filter(f)), same_text()),
            vtunings(params@) == first_params(s.take(i as int).filter(f)),
            count > 0 ==> sev@ == max_severity(s.take(i as int).filter(f)),
        decreases ds.len() - i,
    {
        let ghost g = s.take(i as int).filter(f);
        let ghost x = s[i as int];
        proof {
            assert(s.take(i + 1) =~= s.take(i as int).push(x));
            s.take(i as int).lemma_filter_push(x, f);
            assert(x == ds@[i as int]@);
        }
        let d = &ds[i];
        if str_eq(d.rule_id.as_str(), id.as_str()) {
            let ghost g2 = g.push(x);
            assert(g2.drop_last() =~= g);
            assert(g2.last() == x);
            if first.is_none() {
                first = Some(i);
            }
            let p = d.node_path.clone();
            proof {
                lemma_vstr_push(nodes@, p);
                assert(g2.map_values(|d: ResultView| d.node_path) =~= g.map_values(|d: ResultView| d.node_path).push(p@));
            }
            nodes.push(p);
            push_new_texts(&mut sugg, &d.suggestions, Ghost(group_suggestions(g)));
            if params.len() == 0 {
                params = copy_tunings(&d.parameter_suggestions);
            }
            if count == 0 || severity_order(d.severity.as_str()) >= severity_order(sev.as_str()) {
                sev = d.severity.clone();
            }
            count = count + 1;
        }
        i = i + 1;
    }
    assert(s.take(ds.len() as int) =~= s);
    proof {
        if first is None {
            let j = choose|j: int| 0 <= j < ds@.len() && (#[trigger] ds@[j]).rule_id@ == id@;
            assert(s[j] == ds@[j]@);
            s.lemma_filter_contains(f, j);
        }
    }
    let k = first.unwrap();
    let fd = &ds[k];
    let message = if count > 1 {
        let mut m = u128_to_string(count as u128);
        push_str(&mut m, " 个节点存在此问题");
        m
    } else {
        fd.message.clone()
    };
    AggregatedDiagnostic {
        rule_id: id.clone(),
        rule_name: fd.rule_name.clone(),
        severity: sev,
        message,
        reason: fd.reason.clone(),
        affected_nodes: nodes,
        node_count: count,
        suggestions: sugg,
        parameter_suggestions: params,
    }
}

/// The diagnostics aggregated by rule id: per rule, the most severe severity, the
/// affected nodes, the suggestions (each once), the first non-empty parameter
/// suggestions, and a message that counts the nodes when there are several; ordered
/// by decreasing severity, then decreasing node count.
pub fn aggregate_diagnostics(diagnostics: &[DiagnosticResult]) -> (r: Vec<AggregatedDiagnostic>)
    ensures
        vaggs(r@) == spec_aggregate(vresults(diagnostics@)),
{
    let ghost s = vresults(diagnostics@);
    let mut ids: Vec<String> = Vec::new();
    let mut i: usize = 0;
    assert(result_ids(s).take(0) =~= Seq::<Seq<char>>::empty());
    assert(vstr(ids@) =~= Seq::<Seq<char>>::empty());
    while i < diagnostics.len()
        invariant
            i <= diagnostics.len(),
            s == vresults(diagnostics@),
            vstr(ids@) == dedup_by(result_ids(s).take(i as int), same_text()),
        decreases diagnostics.len() - i,
    {
        push_new_text(&mut ids, &diagnostics[i].rule_id, Ghost(result_ids(s).take(i as int)));
        assert(result_ids(s).take(i + 1) =~= result_ids(s).take(i as int).push(diagnostics@[i as int].rule_id@));
        i = i + 1;
    }
    assert(result_ids(s).take(diagnostics.len() as int) =~= result_ids(s));
    let ghost vids = vstr(ids@);
    proof {
        crate::uniq::lemma_dedup_by_items(result_ids(s), same_text());
    }
    let mut aggs: Vec<AggregatedDiagnostic> = Vec::new();
    let mut k: usize = 0;
    while k < ids.len()
        invariant
            k <= ids.len(),
            s == vresults(diagnostics@),
            vids == vstr(ids@),
            vids == dedup_by(result_ids(s), same_text()),
            forall|q: int|
                0 <= q < vids.len() ==> exists|j: int|
                    0 <= j < result_ids(s).len() && result_ids(s)[j] == #[trigger] vids[q],
            vaggs(aggs@) =~= Seq::new(vids.len(), |q: int| aggregate_of(s, vids[q])).take(k as int),
        decreases ids.len() - k,
    {
        proof {
            let j = choose|j: int| 0 <= j < result_ids(s).len() && result_ids(s)[j] == #[trigger] vids[k as int];
            assert(diagnostics@[j].rule_id@ == ids@[k as int]@);
        }
        let a = aggregate_one(diagnostics, &ids[k]);
        let ghost before = vaggs(aggs@);
        aggs.push(a);
        assert(vaggs(aggs@) =~= before.push(a@));
        k = k + 1;
    }
    assert(vaggs(aggs@) =~= Seq::new(vids.len(), |q: int| aggregate_of(s, vids[q])));
    sort_aggregates(&aggs)
}

// ---------------------------------------------------------------------------
// Laws
// ---------------------------------------------------------------------------

pub open spec fn aggs_sorted(s: Seq<AggregatedView>) -> bool {
    forall|i: int, j: int| 0 <= i < j < s.len() ==> !agg_before(#[trigger] s[j], #[trigger] s[i])
}

proof fn lemma_insert_agg_props(s: Seq<AggregatedView>, x: AggregatedView)
    ensures
        insert_agg(s, x).len() == s.len() + 1,
        insert_agg(s, x).contains(x),
        forall|i: int| 0 <= i < s.len() ==> insert_agg(s, x).contains(#[trigger] s[i]),
        forall|k: int|
            0 <= k < insert_agg(s, x).len() ==> (#[trigger] insert_agg(s, x)[k] == x || s.contains(
                insert_agg(s, x)[k],
            )),
        aggs_sorted(s) ==> aggs_sorted(insert_agg(s, x)),
    decreases s.len(),
{
    let r = insert_agg(s, x);
    if s.len() == 0 {
        assert(r[0] == x);
    } else if agg_before(x, s[0]) {
        assert(r == seq![x] + s);
        assert(r[0] == x);
        assert forall|i: int| 0 <= i < s.len() implies r.contains(#[trigger] s[i]) by {
            assert(r[i + 1] == s[i]);
        }
        assert forall|k: int| 0 <= k < r.len() implies (#[trigger] r[k] == x || s.contains(r[k])) by {
            if k > 0 {
                assert(r[k] == s[k - 1]);
            }
        }
        if aggs_sorted(s) {
            assert forall|i: int, j: int| 0 <= i < j < r.len() implies !agg_before(#[trigger] r[j], #[trigger] r[i]) by {
                if i == 0 {
                    assert(r[j] == s[j - 1]);
                    if j - 1 > 0 {
                        assert(!agg_before(s[j - 1], s[0]));
                    }
                } else {
                    assert(r[i] == s[i - 1] && r[j] == s[j - 1]);
                }
            }
        }
    } else {
        let t = s.drop_first();
        lemma_insert_agg_props(t, x);
        let u = insert_agg(t, x);
        assert(r == seq![s[0]] + u);
        assert(r[0] == s[0]);
        assert forall|i: int| 0 <= i < s.len() implies r.contains(#[trigger] s[i]) by {
            if i > 0 {
                assert(t[i - 1] == s[i]);
                assert(u.contains(t[i - 1]));
                let q = choose|q: int| 0 <= q < u.len() && u[q] == t[i - 1];
                assert(r[q + 1] == s[i]);
            }
        }
        assert(r.contains(x)) by {
            let q = choose|q: int| 0 <= q < u.len() && u[q] == x;
            assert(r[q + 1] == x);
        }
        assert forall|k: int| 0 <= k < r.len() implies (#[trigger] r[k] == x || s.contains(r[k])) by {
            if k > 0 {
                assert(r[k] == u[k - 1]);
                if u[k - 1] != x {
                    let q = choose|q: int| 0 <= q < t.len() && t[q] == u[k - 1];
                    assert(s[q + 1] == t[q]);
                }
            }
        }
        if aggs_sorted(s) {
            assert(aggs_sorted(t)) by {
                assert forall|i: int, j: int| 0 <= i < j < t.len() implies !agg_before(#[trigger] t[j], #[trigger] t[i]) by {
                    assert(t[i] == s[i + 1] && t[j] == s[j + 1]);
                }
            }
            assert forall|i: int, j: int| 0 <= i < j < r.len() implies !agg_before(#[trigger] r[j], #[trigger] r[i]) by {
                assert(r[j] == u[j - 1]);
                if i == 0 {
                    if u[j - 1] != x {
                        let q = choose|q: int| 0 <= q < t.len() && t[q] == u[j - 1];
                        assert(t[q] == s[q + 1]);
                    }
                } else {
                    assert(r[i] == u[i - 1]);
                }
            }
        }
    }
}

proof fn lemma_sort_aggs(s: Seq<AggregatedView>)
    ensures
        aggs_sorted(sort_aggs(s)),
        sort_aggs(s).len() == s.len(),
        forall|i: int| 0 <= i < s.len() ==> sort_aggs(s).contains(#[trigger] s[i]),
        forall|k: int| 0 <= k < sort_aggs(s).len() ==> s.contains(#[trigger] sort_aggs(s)[k]),
    decreases s.len(),
{
    if s.len() > 0 {
        let t = s.drop_last();
        lemma_sort_aggs(t);
        let st = sort_aggs(t);
        lemma_insert_agg_props(st, s.last());
        let r = sort_aggs(s);
        assert forall|i: int| 0 <= i < s.len() implies r.contains(#[trigger] s[i]) by {
            if i < s.len() - 1 {
                assert(t[i] == s[i]);
                assert(st.contains(t[i]));
                let q = choose|q: int| 0 <= q < st.len() && st[q] == t[i];
                assert(r.contains(st[q]));
            }
        }
        assert forall|k: int| 0 <= k < r.len() implies s.contains(#[trigger] r[k]) by {
            if r[k] == s.last() {
                assert(s[s.len() - 1] == s.last());
            } else {
                let q = choose|q: int| 0 <= q < st.len() && st[q] == r[k];
                assert(t.contains(st[q]));
                let j = choose|j: int| 0 <= j < t.len() && t[j] == st[q];
                assert(s[j] == t[j]);
            }
        }
    }
}

/// Laws of the aggregation: the aggregates come by decreasing severity, then
/// decreasing node count; every diagnosed rule id has an aggregate; and each
/// aggregate stands for a diagnosed rule id, counts its diagnostics and lists one
/// node per diagnostic.
pub proof fn lemma_aggregate_laws(ds: Seq<ResultView>)
    requires
        ds.len() <= usize::MAX,
    ensures
        aggs_sorted(spec_aggregate(ds)),
        forall|j: int|
            0 <= j < ds.len() ==> exists|k: int|
                0 <= k < spec_aggregate(ds).len() && (#[trigger] spec_aggregate(ds)[k]).rule_id == (
                #[trigger] ds[j]).rule_id,
        forall|k: int|
            0 <= k < spec_aggregate(ds).len() ==> {
                let a = #[trigger] spec_aggregate(ds)[k];
                &&& exists|j: int| 0 <= j < ds.len() && ds[j].rule_id == a.rule_id
                &&& a.node_count == ds.filter(result_rule_is(a.rule_id)).len()
                &&& a.affected_nodes.len() == a.node_count
            },
{
    let ids = dedup_by(result_ids(ds), same_text());
    let u = Seq::new(ids.len(), |i: int| aggregate_of(ds, ids[i]));
    let r = spec_aggregate(ds);
    lemma_sort_aggs(u);
    crate::uniq::lemma_dedup_by_items(result_ids(ds), same_text());
    crate::uniq::lemma_dedup_by_seen(result_ids(ds), same_text());
    assert forall|j: int| 0 <= j < ds.len() implies exists|k: int|
        0 <= k < r.len() && (#[trigger] r[k]).rule_id == (#[trigger] ds[j]).rule_id by {
        let id = ds[j].rule_id;
        assert(result_ids(ds)[j] == id);
        assert(crate::uniq::seen(result_ids(ds), same_text(), id));
        let q = choose|q: int| 0 <= q < ids.len() && same_text()(ids[q]) == id;
        assert(u[q].rule_id == id);
        assert(r.contains(u[q]));
        let k = choose|k: int| 0 <= k < r.len() && r[k] == u[q];
        assert(r[k].rule_id == id);
    }
    assert forall|k: int| 0 <= k < r.len() implies {
        let a = #[trigger] r[k];
        &&& exists|j: int| 0 <= j < ds.len() && ds[j].rule_id == a.rule_id
        &&& a.node_count == ds.filter(result_rule_is(a.rule_id)).len()
        &&& a.affected_nodes.len() == a.node_count
    } by {
        assert(u.contains(r[k]));
        let q = choose|q: int| 0 <= q < u.len() && u[q] == r[k];
        let j = choose|j: int| 0 <= j < result_ids(ds).len() && result_ids(ds)[j] == ids[q];
        assert(ds[j].rule_id == ids[q]);
        let g = ds.filter(result_rule_is(ids[q]));
        ds.lemma_filter_len(result_rule_is(ids[q]));
        assert(g.len() <= ds.len());
        assert(r[k].rule_id == ids[q]);
        assert(ds[j].rule_id == r[k].rule_id);
        assert(r[k].node_count == g.len());
    }
}

} // verus!
