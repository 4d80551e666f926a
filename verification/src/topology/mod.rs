//! The execution topology: the plan-node graph read from the topology JSON of a
//! profile, completed with the final sink operator, and its checks.
use vstd::prelude::*;
use vstd::string::*;
use crate::text::{
    trim_seq, occurs_at, contains_seq, ends_with_seq, str_trim, chars_of, string_of_range, occurs_at_exec,
    str_contains, str_ends_with, str_eq,
};
use crate::model::{vstr, opt_view, int_str, i64_to_string};
use crate::metrics::push_str;
use crate::tree::{Fragment, Pipeline, Operator, NodeClass, spec_infer_node_class, infer_node_class};

pub mod graph;

verus! {

// ---------------------------------------------------------------------------
// Graph
// ---------------------------------------------------------------------------

/// Error of the topology parser.
#[derive(Debug, Clone)]
pub enum ParseError {
    TopologyError(String),
}

impl ParseError {
    /// The message of the error.
    pub open spec fn msg(self) -> Seq<char> {
        match self {
            ParseError::TopologyError(m) => m@,
        }
    }
}

/// A plan node of the topology; `properties` holds each property's value as JSON
/// text.
#[derive(Debug, Clone)]
pub struct TopologyNode {
    pub id: i32,
    pub name: String,
    pub node_class: NodeClass,
    pub properties: Vec<(String, String)>,
    pub children: Vec<i32>,
}

/// Parser of the execution topology.
pub struct TopologyParser;

/// The topology graph.
#[derive(Debug, Clone)]
pub struct TopologyGraph {
    pub root_id: i32,
    pub nodes: Vec<TopologyNode>,
}

pub struct TopoView {
    pub id: i32,
    pub name: Seq<char>,
    pub node_class: NodeClass,
    pub properties: Seq<(Seq<char>, Seq<char>)>,
    pub children: Seq<i32>,
}

pub open spec fn pairs_view(v: Seq<(String, String)>) -> Seq<(Seq<char>, Seq<char>)> {
    v.map_values(|p: (String, String)| (p.0@, p.1@))
}

impl View for TopologyNode {
    type V = TopoView;

    open spec fn view(&self) -> TopoView {
        TopoView {
            id: self.id,
            name: self.name@,
            node_class: self.node_class,
            properties: pairs_view(self.properties@),
            children: self.children@,
        }
    }
}

pub open spec fn vnodes(v: Seq<TopologyNode>) -> Seq<TopoView> {
    v.map_values(|n: TopologyNode| n@)
}

impl TopologyNode {
    /// Infer the node class from an operator name.
    pub fn infer_node_class(name: &str) -> (c: NodeClass)
        ensures
            c == spec_infer_node_class(name@),
    {
        infer_node_class(name)
    }
}

/// A topology node as decoded from JSON, before it is checked: each field is absent
/// when the JSON lacks it or holds it with another type; a child is absent when it
/// is not an integer.
#[derive(Debug, Clone)]
pub struct RawNode {
    pub id: Option<i64>,
    pub name: Option<String>,
    pub properties: Option<Vec<(String, String)>>,
    pub children: Option<Vec<Option<i64>>>,
}

/// A topology as decoded from JSON, before it is checked.
#[derive(Debug, Clone)]
pub struct RawTopology {
    pub root_id: Option<i64>,
    pub nodes: Option<Vec<RawNode>>,
}

// ---------------------------------------------------------------------------
// JSON text
// ---------------------------------------------------------------------------

/// Position of the first `c` in `t` from `i` on.
pub open spec fn first_char(t: Seq<char>, c: char, i: int) -> Option<int>
    decreases t.len() - i,
{
    if i < 0 || i >= t.len() {
        None
    } else if t[i] == c {
        Some(i)
    } else {
        first_char(t, c, i + 1)
    }
}

/// Scanning from `i` at brace depth `d`: the position just after the `}` that
/// brings the depth back to zero.
pub open spec fn close_at(t: Seq<char>, i: int, d: int) -> Option<int>
    decreases t.len() - i,
{
    if i < 0 || i >= t.len() {
        None
    } else {
        let d2 = if t[i] == '{' {
            d + 1
        } else if t[i] == '}' {
            d - 1
        } else {
            d
        };
        if t[i] == '}' && d2 == 0 {
            Some(i + 1)
        } else {
            close_at(t, i + 1, d2)
        }
    }
}

/// The JSON object in a text: from the first `{` of the trimmed text to its
/// matching `}`.
pub open spec fn spec_extract_json(s: Seq<char>) -> Option<Seq<char>> {
    let t = trim_seq(s);
    match first_char(t, '{', 0) {
        None => None,
        Some(st) => match close_at(t, st, 0) {
            Some(e) => Some(t.subrange(st, e)),
            None => None,
        },
    }
}

/// Extract the JSON object from a text that may hold other text around it.
pub fn extract_json(s: &str) -> (r: Result<String, ParseError>)
    ensures
        match r {
            Ok(j) => spec_extract_json(s@) == Some(j@),
            Err(e) => spec_extract_json(s@) is None && e.msg() == "No valid JSON found"@,
        },
{
    let t = str_trim(s);
    let cs = chars_of(t);
    let mut i: usize = 0;
    while i < cs.len() && cs[i] != '{'
        invariant
            i <= cs.len(),
            cs@ == trim_seq(s@),
            first_char(cs@, '{', 0) == first_char(cs@, '{', i as int),
        decreases cs.len() - i,
    {
        i = i + 1;
    }
    if i >= cs.len() {
        return Err(ParseError::TopologyError(String::from_str("No valid JSON found")));
    }
    let start = i;
    let mut depth: usize = 0;
    let mut j: usize = start;
    while j < cs.len()
        invariant
            start <= j <= cs.len(),
            start < cs.len(),
            cs@[start as int] == '{',
            cs@ == trim_seq(s@),
            first_char(cs@, '{', 0) == Some(start as int),
            close_at(cs@, start as int, 0) == close_at(cs@, j as int, depth as int),
            depth <= j - start,
            j > start ==> depth > 0,
            j == start ==> depth == 0,
        decreases cs.len() - j,
    {
        let c = cs[j];
        if c == '{' {
            depth = depth + 1;
        } else if c == '}' {
            depth = depth - 1;
            if depth == 0 {
                let r = string_of_range(&cs, start, j + 1);
                return Ok(r);
            }
        }
        j = j + 1;
    }
    Err(ParseError::TopologyError(String::from_str("No valid JSON found")))
}

// ---------------------------------------------------------------------------
// Nodes
// ---------------------------------------------------------------------------

pub open spec fn int_children(cs: Seq<Option<i64>>) -> Seq<i32>
    decreases cs.len(),
{
    if cs.len() == 0 {
        Seq::empty()
    } else {
        let p = int_children(cs.drop_last());
        match cs.last() {
            Some(i) => p.push(i as i32),
            None => p,
        }
    }
}

/// The checked node of a decoded node: its id and name must be present; missing
/// properties and children count as none; non-integer children are dropped.
pub open spec fn spec_parse_node(raw: RawNode) -> Result<TopoView, Seq<char>> {
    match raw.id {
        None => Err("Node missing id"@),
        Some(id) => match raw.name {
            None => Err("Node missing name"@),
            Some(name) => Ok(
                TopoView {
                    id: id as i32,
                    name: name@,
                    node_class: spec_infer_node_class(name@),
                    properties: match raw.properties {
                        Some(p) => pairs_view(p@),
                        None => Seq::empty(),
                    },
                    children: match raw.children {
                        Some(cs) => int_children(cs@),
                        None => Seq::empty(),
                    },
                },
            ),
        },
    }
}

fn children_of_raw(cs: &Vec<Option<i64>>) -> (r: Vec<i32>)
    ensures
        r@ == int_children(cs@),
{
    let mut r: Vec<i32> = Vec::new();
    let mut i: usize = 0;
    assert(cs@.take(0) =~= Seq::<Option<i64>>::empty());
    while i < cs.len()
        invariant
            i <= cs.len(),
            r@ == int_children(cs@.take(i as int)),
        decreases cs.len() - i,
    {
        let ghost t = cs@.take(i + 1);
        assert(t.drop_last() =~= cs@.take(i as int));
        match cs[i] {
            Some(v) => {
                r.push(v as i32);
            },
            None => {},
        }
        i = i + 1;
    }
    assert(cs@.take(cs.len() as int) =~= cs@);
    r
}

fn copy_pairs(v: &Vec<(String, String)>) -> (r: Vec<(String, String)>)
    ensures
        pairs_view(r@) == pairs_view(v@),
{
    let mut r: Vec<(String, String)> = Vec::new();
    let mut i: usize = 0;
    assert(pairs_view(r@) =~= pairs_view(v@.take(0)));
    while i < v.len()
        invariant
            i <= v.len(),
            pairs_view(r@) == pairs_view(v@.take(i as int)),
        decreases v.len() - i,
    {
        let item = (v[i].0.clone(), v[i].1.clone());
        let ghost before = r@;
        r.push(item);
        assert(v@.take(i + 1) =~= v@.take(i as int).push(v@[i as int]));
        assert(pairs_view(r@) =~= pairs_view(before).push((item.0@, item.1@)));
        assert(pairs_view(v@.take(i + 1)) =~= pairs_view(v@.take(i as int)).push((v@[i as int].0@, v@[i as int].1@)));
        i = i + 1;
    }
    assert(v@.take(v.len() as int) =~= v@);
    r
}

/// Check a decoded node.
pub fn parse_node(raw: &RawNode) -> (r: Result<TopologyNode, ParseError>)
    ensures
        match r {
            Ok(n) => spec_parse_node(*raw) == Ok::<TopoView, Seq<char>>(n@),
            Err(e) => spec_parse_node(*raw) == Err::<TopoView, Seq<char>>(e.msg()),
        },
{
    let id = match raw.id {
        Some(v) => v,
        None => {
            return Err(ParseError::TopologyError(String::from_str("Node missing id")));
        },
    };
    let name = match &raw.name {
        Some(n) => n.clone(),
        None => {
            return Err(ParseError::TopologyError(String::from_str("Node missing name")));
        },
    };
    let properties = match &raw.properties {
        Some(p) => copy_pairs(p),
        None => Vec::new(),
    };
    let children = match &raw.children {
        Some(cs) => children_of_raw(cs),
        None => Vec::new(),
    };
    let node_class = infer_node_class(name.as_str());
    let n = TopologyNode { id: id as i32, name, node_class, properties, children };
    assert(raw.properties is None ==> pairs_view(n.properties@) =~= Seq::<(Seq<char>, Seq<char>)>::empty());
    Ok(n)
}

// ---------------------------------------------------------------------------
// Sink operators
// ---------------------------------------------------------------------------

/// Position of the first occurrence of `n` in `h` from `i` on.
pub open spec fn find_from(h: Seq<char>, n: Seq<char>, i: int) -> Option<int>
    decreases h.len() + 1 - i,
{
    if i < 0 || i + n.len() > h.len() {
        None
    } else if occurs_at(h, n, i) {
        Some(i)
    } else {
        find_from(h, n, i + 1)
    }
}

/// An operator name without its `" (plan_node_id=..)"` suffix.
pub open spec fn spec_operator_name(full: Seq<char>) -> Seq<char> {
    match find_from(full, " (plan_node_id="@, 0) {
        Some(p) => full.take(p),
        None => full,
    }
}

/// Extract the operator name without its plan node id suffix.
pub fn extract_operator_name(full_name: &str) -> (r: String)
    ensures
        r@ == spec_operator_name(full_name@),
{
    let h = chars_of(full_name);
    let n = chars_of(" (plan_node_id=");
    proof {
        reveal_strlit(" (plan_node_id=");
    }
    assert(n@.len() == 15);
    let mut i: usize = 0;
    while i < h.len() && n.len() <= h.len() - i
        invariant
            i <= h.len(),
            h@ == full_name@,
            n@ == " (plan_node_id="@,
            n@.len() == 15,
            find_from(h@, n@, 0) == find_from(h@, n@, i as int),
        decreases h.len() - i,
    {
        if occurs_at_exec(&h, &n, i) {
            let r = string_of_range(&h, 0, i);
            assert(h@.subrange(0, i as int) =~= h@.take(i as int));
            return r;
        }
        i = i + 1;
    }
    assert(find_from(h@, n@, i as int) is None);
    let r = string_of_range(&h, 0, h.len());
    assert(h@.subrange(0, h@.len() as int) =~= h@);
    r
}

/// A sink that ends the query, not one that feeds an exchange or a multicast.
pub open spec fn spec_is_final_sink(name: Seq<char>) -> bool {
    !(contains_seq(name, "EXCHANGE_SINK"@) || contains_seq(name, "LOCAL_EXCHANGE_SINK"@)) && !contains_seq(
        name,
        "MULTI_CAST"@,
    )
}

/// Whether a sink is final (not an intermediate exchange or multicast sink).
pub fn is_final_sink(sink_name: &str) -> (b: bool)
    ensures
        b == spec_is_final_sink(sink_name@),
{
    if str_contains(sink_name, "EXCHANGE_SINK") || str_contains(sink_name, "LOCAL_EXCHANGE_SINK") {
        return false;
    }
    if str_contains(sink_name, "MULTI_CAST") {
        return false;
    }
    true
}

/// Priority of a sink for selection (lower is better).
pub open spec fn spec_sink_priority(name: Seq<char>) -> i32 {
    if name == "RESULT_SINK"@ {
        1
    } else if name == "OLAP_TABLE_SINK"@ {
        2
    } else if contains_seq(name, "TABLE_SINK"@) {
        3
    } else if contains_seq(name, "EXCHANGE_SINK"@) {
        4
    } else if contains_seq(name, "LOCAL_EXCHANGE_SINK"@) {
        5
    } else {
        6
    }
}

/// Priority of a sink for selection (lower is better).
pub fn get_sink_priority(sink_name: &str) -> (p: i32)
    ensures
        p == spec_sink_priority(sink_name@),
{
    if str_eq(sink_name, "RESULT_SINK") {
        1
    } else if str_eq(sink_name, "OLAP_TABLE_SINK") {
        2
    } else if str_contains(sink_name, "TABLE_SINK") {
        3
    } else if str_contains(sink_name, "EXCHANGE_SINK") {
        4
    } else if str_contains(sink_name, "LOCAL_EXCHANGE_SINK") {
        5
    } else {
        6
    }
}

/// The operators of the fragments, fragment by fragment and pipeline by pipeline,
/// as (name, plan node id).
pub open spec fn pipeline_ops(ps: Seq<Pipeline>) -> Seq<(Seq<char>, Option<Seq<char>>)>
    decreases ps.len(),
{
    if ps.len() == 0 {
        Seq::empty()
    } else {
        pipeline_ops(ps.drop_last()) + ps.last().operators@.map_values(
            |o: Operator| (o.name@, opt_view(o.plan_node_id)),
        )
    }
}

pub open spec fn fragment_ops(fs: Seq<Fragment>) -> Seq<(Seq<char>, Option<Seq<char>>)>
    decreases fs.len(),
{
    if fs.len() == 0 {
        Seq::empty()
    } else {
        fragment_ops(fs.drop_last()) + pipeline_ops(fs.last().pipelines@)
    }
}

/// Selection key of a sink: final sinks first, then by priority.
pub open spec fn sink_key(name: Seq<char>) -> int {
    (if spec_is_final_sink(name) { 0int } else { 10int }) + spec_sink_priority(name) as int
}

/// The sink to select among the operators: of the names (without plan node id)
/// that end in `_SINK`, the first one with the least key.
pub open spec fn best_sink(ops: Seq<(Seq<char>, Option<Seq<char>>)>) -> Option<Seq<char>>
    decreases ops.len(),
{
    if ops.len() == 0 {
        None
    } else {
        let b = best_sink(ops.drop_last());
        let name = spec_operator_name(ops.last().0);
        if ends_with_seq(name, "_SINK"@) {
            match b {
                None => Some(name),
                Some(x) => if sink_key(name) < sink_key(x) {
                    Some(name)
                } else {
                    Some(x)
                },
            }
        } else {
            b
        }
    }
}

/// Operator `i` is a sink candidate: its name (without plan node id) ends in `_SINK`.
pub open spec fn sink_candidate(ops: Seq<(Seq<char>, Option<Seq<char>>)>, i: int) -> bool {
    0 <= i < ops.len() && ends_with_seq(spec_operator_name(ops[i].0), "_SINK"@)
}

/// Sink `a` may be chosen over sink `b`: a final sink before one that is not, and
/// among sinks that are both final or both not, the lower priority number first.
pub open spec fn sink_preferred(a: Seq<char>, b: Seq<char>) -> bool {
    &&& (spec_is_final_sink(b) ==> spec_is_final_sink(a))
    &&& (spec_is_final_sink(a) == spec_is_final_sink(b) ==> spec_sink_priority(a) <= spec_sink_priority(b))
}

proof fn lemma_priority_range(n: Seq<char>)
    ensures
        1 <= spec_sink_priority(n) <= 6,
{
}

proof fn lemma_best_sink(ops: Seq<(Seq<char>, Option<Seq<char>>)>)
    ensures
        best_sink(ops) is None <==> (forall|i: int| !#[trigger] sink_candidate(ops, i)),
        best_sink(ops) matches Some(n) ==> exists|i: int| #[trigger] sink_candidate(ops, i) && spec_operator_name(ops[i].0) == n,
        best_sink(ops) matches Some(n) ==> forall|i: int|
            #[trigger] sink_candidate(ops, i) ==> sink_key(n) <= sink_key(spec_operator_name(ops[i].0)),
    decreases ops.len(),
{
    if ops.len() > 0 {
        let o0 = ops.drop_last();
        lemma_best_sink(o0);
        let last = ops.len() - 1;
        assert forall|i: int| 0 <= i < o0.len() implies #[trigger] sink_candidate(ops, i) == sink_candidate(o0, i) by {
            assert(ops[i] == o0[i]);
        }
        let name = spec_operator_name(ops.last().0);
        if ends_with_seq(name, "_SINK"@) {
            assert(sink_candidate(ops, last));
            match best_sink(o0) {
                None => {
                    assert forall|i: int| #[trigger] sink_candidate(ops, i) implies sink_key(name) <= sink_key(
                        spec_operator_name(ops[i].0),
                    ) by {
                        if i < last {
                            assert(sink_candidate(o0, i));
                        }
                    }
                },
                Some(x) => {
                    let j = choose|j: int| #[trigger] sink_candidate(o0, j) && spec_operator_name(o0[j].0) == x;
                    assert(sink_candidate(ops, j) && spec_operator_name(ops[j].0) == x);
                    let n = best_sink(ops).unwrap();
                    assert forall|i: int| #[trigger] sink_candidate(ops, i) implies sink_key(n) <= sink_key(
                        spec_operator_name(ops[i].0),
                    ) by {
                        if i < last {
                            assert(sink_candidate(o0, i));
                            assert(ops[i] == o0[i]);
                        }
                    }
                },
            }
        } else {
            assert forall|i: int| #[trigger] sink_candidate(ops, i) implies sink_candidate(o0, i) && ops[i] == o0[i] by {
                if i == last {
                    assert(false);
                }
            }
            if best_sink(o0) is Some {
                let x = best_sink(o0).unwrap();
                let j = choose|j: int| #[trigger] sink_candidate(o0, j) && spec_operator_name(o0[j].0) == x;
                assert(sink_candidate(ops, j) && spec_operator_name(ops[j].0) == x);
            } else {
                assert forall|i: int| !#[trigger] sink_candidate(ops, i) by {
                    if sink_candidate(ops, i) {
                        assert(sink_candidate(o0, i));
                    }
                }
            }
        }
    }
}

proof fn lemma_result_sink_best(n: Seq<char>)
    requires
        sink_key(n) <= sink_key("RESULT_SINK"@),
    ensures
        n == "RESULT_SINK"@,
        sink_key("RESULT_SINK"@) == 1,
{
    reveal_strlit("RESULT_SINK");
    reveal_strlit("EXCHANGE_SINK");
    reveal_strlit("LOCAL_EXCHANGE_SINK");
    reveal_strlit("MULTI_CAST");
    let rs = "RESULT_SINK"@;
    assert(!contains_seq(rs, "EXCHANGE_SINK"@));
    assert(!contains_seq(rs, "LOCAL_EXCHANGE_SINK"@));
    assert forall|i: int| !occurs_at(rs, "MULTI_CAST"@, i) by {
        if occurs_at(rs, "MULTI_CAST"@, i) {
            assert(rs.subrange(i, i + 10)[0] == 'M');
            assert(rs[i] == 'M');
        }
    }
    assert(!contains_seq(rs, "MULTI_CAST"@));
    assert(spec_is_final_sink(rs));
    assert(spec_sink_priority(rs) == 1);
    lemma_priority_range(n);
}

proof fn lemma_local_exchange_is_exchange(h: Seq<char>)
    requires
        contains_seq(h, "LOCAL_EXCHANGE_SINK"@),
    ensures
        contains_seq(h, "EXCHANGE_SINK"@),
{
    reveal_strlit("LOCAL_EXCHANGE_SINK");
    reveal_strlit("EXCHANGE_SINK");
    let i = choose|i: int| occurs_at(h, "LOCAL_EXCHANGE_SINK"@, i);
    assert(h.subrange(i + 6, i + 19) =~= h.subrange(i, i + 19).subrange(6, 19));
    assert("LOCAL_EXCHANGE_SINK"@.subrange(6, 19) =~= "EXCHANGE_SINK"@);
    assert(occurs_at(h, "EXCHANGE_SINK"@, i + 6));
}

proof fn lemma_olap_sink_best(n: Seq<char>)
    requires
        sink_key(n) <= sink_key("OLAP_TABLE_SINK"@),
    ensures
        n == "RESULT_SINK"@ || n == "OLAP_TABLE_SINK"@,
{
    reveal_strlit("RESULT_SINK");
    reveal_strlit("OLAP_TABLE_SINK");
    reveal_strlit("EXCHANGE_SINK");
    reveal_strlit("LOCAL_EXCHANGE_SINK");
    reveal_strlit("MULTI_CAST");
    let o = "OLAP_TABLE_SINK"@;
    assert forall|i: int| !occurs_at(o, "EXCHANGE_SINK"@, i) by {
        if occurs_at(o, "EXCHANGE_SINK"@, i) {
            assert(o.subrange(i, i + 13)[0] == 'E');
            assert(o[i] == 'E');
        }
    }
    assert(!contains_seq(o, "EXCHANGE_SINK"@));
    assert(!contains_seq(o, "LOCAL_EXCHANGE_SINK"@));
    assert forall|i: int| !occurs_at(o, "MULTI_CAST"@, i) by {
        if occurs_at(o, "MULTI_CAST"@, i) {
            assert(o.subrange(i, i + 10)[0] == 'M');
            assert(o[i] == 'M');
        }
    }
    assert(!contains_seq(o, "MULTI_CAST"@));
    assert(o != "RESULT_SINK"@);
    assert(spec_sink_priority(o) == 2);
    lemma_priority_range(n);
}

/// Law of sink selection: a sink is selected exactly when some operator's name ends
/// in `_SINK`; the selected sink is one of those names; it is preferred over every
/// other candidate (final sinks before intermediate ones, then by priority); an
/// exchange or multicast sink is never selected while another sink is present; a
/// `RESULT_SINK`, when present, is always the one selected, and otherwise an
/// `OLAP_TABLE_SINK`, when present.
pub proof fn lemma_sink_selection(fs: Seq<Fragment>)
    ensures
        ({
            let ops = fragment_ops(fs);
            &&& best_sink(ops) is None <==> (forall|i: int| !#[trigger] sink_candidate(ops, i))
            &&& best_sink(ops) matches Some(n) ==> exists|i: int|
                #[trigger] sink_candidate(ops, i) && spec_operator_name(ops[i].0) == n
            &&& best_sink(ops) matches Some(n) ==> forall|i: int|
                #[trigger] sink_candidate(ops, i) ==> sink_preferred(n, spec_operator_name(ops[i].0))
            &&& (exists|i: int| #[trigger] sink_candidate(ops, i) && spec_operator_name(ops[i].0) == "RESULT_SINK"@)
                ==> best_sink(ops) == Some("RESULT_SINK"@)
            &&& (exists|i: int| #[trigger] sink_candidate(ops, i) && spec_operator_name(ops[i].0) == "OLAP_TABLE_SINK"@)
                && !(exists|i: int| #[trigger] sink_candidate(ops, i) && spec_operator_name(ops[i].0) == "RESULT_SINK"@)
                ==> best_sink(ops) == Some("OLAP_TABLE_SINK"@)
            &&& (exists|i: int| #[trigger] sink_candidate(ops, i) && !contains_seq(spec_operator_name(ops[i].0), "EXCHANGE_SINK"@)
                && !contains_seq(spec_operator_name(ops[i].0), "MULTI_CAST"@)) ==> (best_sink(ops) matches Some(n)
                && !contains_seq(n, "EXCHANGE_SINK"@) && !contains_seq(n, "MULTI_CAST"@))
        }),
{
    let ops = fragment_ops(fs);
    lemma_best_sink(ops);
    if best_sink(ops) is Some {
        let n = best_sink(ops).unwrap();
        assert forall|i: int| #[trigger] sink_candidate(ops, i) implies sink_preferred(n, spec_operator_name(ops[i].0)) by {
            lemma_priority_range(n);
            lemma_priority_range(spec_operator_name(ops[i].0));
        }
    }
    if exists|i: int| #[trigger] sink_candidate(ops, i) && spec_operator_name(ops[i].0) == "RESULT_SINK"@ {
        let i = choose|i: int| #[trigger] sink_candidate(ops, i) && spec_operator_name(ops[i].0) == "RESULT_SINK"@;
        let n = best_sink(ops).unwrap();
        assert(sink_key(n) <= sink_key(spec_operator_name(ops[i].0)));
        lemma_result_sink_best(n);
    }
    if exists|i: int| #[trigger] sink_candidate(ops, i) && spec_operator_name(ops[i].0) == "OLAP_TABLE_SINK"@ {
        let i = choose|i: int| #[trigger] sink_candidate(ops, i) && spec_operator_name(ops[i].0) == "OLAP_TABLE_SINK"@;
        let n = best_sink(ops).unwrap();
        let j = choose|j: int| #[trigger] sink_candidate(ops, j) && spec_operator_name(ops[j].0) == n;
        assert(sink_key(n) <= sink_key(spec_operator_name(ops[i].0)));
        lemma_olap_sink_best(n);
    }
    if exists|i: int| #[trigger] sink_candidate(ops, i) && !contains_seq(spec_operator_name(ops[i].0), "EXCHANGE_SINK"@)
        && !contains_seq(spec_operator_name(ops[i].0), "MULTI_CAST"@) {
        let i = choose|i: int| #[trigger] sink_candidate(ops, i) && !contains_seq(spec_operator_name(ops[i].0), "EXCHANGE_SINK"@)
            && !contains_seq(spec_operator_name(ops[i].0), "MULTI_CAST"@);
        let c = spec_operator_name(ops[i].0);
        let n = best_sink(ops).unwrap();
        assert(sink_key(n) <= sink_key(c));
        lemma_priority_range(n);
        lemma_priority_range(c);
        if contains_seq(c, "LOCAL_EXCHANGE_SINK"@) {
            lemma_local_exchange_is_exchange(c);
        }
        assert(spec_is_final_sink(c));
    }
}

pub open spec fn op_views(v: Seq<(String, Option<String>)>) -> Seq<(Seq<char>, Option<Seq<char>>)> {
    v.map_values(|p: (String, Option<String>)| (p.0@, opt_view(p.1)))
}

/// The operators of the fragments in order, as (name, plan node id).
fn operator_list(fragments: &[Fragment]) -> (r: Vec<(String, Option<String>)>)
    ensures
        op_views(r@) == fragment_ops(fragments@),
{
    let mut r: Vec<(String, Option<String>)> = Vec::new();
    let mut i: usize = 0;
    assert(fragments@.take(0) =~= Seq::<Fragment>::empty());
    assert(op_views(r@) =~= Seq::<(Seq<char>, Option<Seq<char>>)>::empty());
    while i < fragments.len()
        invariant
            i <= fragments.len(),
            op_views(r@) == fragment_ops(fragments@.take(i as int)),
        decreases fragments.len() - i,
    {
        let ps = &fragments[i].pipelines;
        let ghost base = op_views(r@);
        let mut j: usize = 0;
        assert(ps@.take(0) =~= Seq::<Pipeline>::empty());
        assert(base + pipeline_ops(ps@.take(0)) =~= base);
        while j < ps.len()
            invariant
                j <= ps.len(),
                op_views(r@) == base + pipeline_ops(ps@.take(j as int)),
            decreases ps.len() - j,
        {
            let ops = &ps[j].operators;
            let ghost mid = op_views(r@);
            let mut k: usize = 0;
            assert(mid + ops@.take(0).map_values(|o: Operator| (o.name@, opt_view(o.plan_node_id))) =~= mid);
            while k < ops.len()
                invariant
                    k <= ops.len(),
                    op_views(r@) == mid + ops@.take(
                        k as int,
                    ).map_values(|o: Operator| (o.name@, opt_view(o.plan_node_id))),
                decreases ops.len() - k,
            {
                let op = &ops[k];
                let pid = match &op.plan_node_id {
                    Some(p) => Some(p.clone()),
                    None => None,
                };
                let item = (op.name.clone(), pid);
                let ghost before = r@;
                r.push(item);
                assert(op_views(r@) =~= op_views(before).push((op.name@, opt_view(op.plan_node_id))));
                assert(ops@.take(k + 1) =~= ops@.take(k as int).push(ops@[k as int]));
                assert(ops@.take(k + 1).map_values(|o: Operator| (o.name@, opt_view(o.plan_node_id))) =~= ops@.take(
                    k as int,
                ).map_values(|o: Operator| (o.name@, opt_view(o.plan_node_id))).push((op.name@, opt_view(op.plan_node_id))));
                k = k + 1;
            }
            assert(ops@.take(ops.len() as int) =~= ops@);
            proof {
                let t = ps@.take(j + 1);
                assert(t.drop_last() =~= ps@.take(j as int));
                assert(t.last() == ps@[j as int]);
            }
            j = j + 1;
        }
        assert(ps@.take(ps.len() as int) =~= ps@);
        proof {
            let t = fragments@.take(i + 1);
            assert(t.drop_last() =~= fragments@.take(i as int));
            assert(t.last() == fragments@[i as int]);
        }
        i = i + 1;
    }
    assert(fragments@.take(fragments.len() as int) =~= fragments@);
    r
}

/// Select the sink operator: of the operators whose name ends in `_SINK`, final sinks
/// before intermediate ones, then by priority, the first one.
pub fn select_sink_node(fragments: &[Fragment]) -> (r: Option<String>)
    ensures
        opt_view(r) == best_sink(fragment_ops(fragments@)),
{
    let ops = operator_list(fragments);
    let ghost s = op_views(ops@);
    let mut best: Option<(String, i32)> = None;
    let mut i: usize = 0;
    assert(s.take(0) =~= Seq::<(Seq<char>, Option<Seq<char>>)>::empty());
    while i < ops.len()
        invariant
            i <= ops.len(),
            s == op_views(ops@),
            match best {
                None => best_sink(s.take(i as int)) is None,
                Some((n, k)) => best_sink(s.take(i as int)) == Some(n@) && k == sink_key(n@),
            },
        decreases ops.len() - i,
    {
        let ghost t = s.take(i + 1);
        assert(t.drop_last() =~= s.take(i as int));
        assert(t.last() == s[i as int]);
        let name = extract_operator_name(ops[i].0.as_str());
        if str_ends_with(name.as_str(), "_SINK") {
            let fin = is_final_sink(name.as_str());
            let key: i32 = (if fin {
                0
            } else {
                10
            }) + get_sink_priority(name.as_str());
            let replace = match &best {
                None => true,
                Some((_, k)) => key < *k,
            };
            if replace {
                best = Some((name, key));
            }
        }
        i = i + 1;
    }
    assert(s.take(ops.len() as int) =~= s);
    match best {
        Some((n, _)) => Some(n),
        None => None,
    }
}

/// Text of a decimal `i32`: an optional sign and at least one digit, in range.
pub open spec fn spec_parse_i32(s: Seq<char>) -> Option<i32> {
    let neg = s.len() > 0 && s[0] == '-';
    let signed = s.len() > 0 && (s[0] == '-' || s[0] == '+');
    let digits = if signed { s.drop_first() } else { s };
    if digits.len() == 0 || !crate::num::all_digits(digits) {
        None
    } else {
        let v: int = if neg { -(crate::num::digits_val(digits) as int) } else { crate::num::digits_val(digits) as int };
        if i32::MIN <= v <= i32::MAX {
            Some(v as i32)
        } else {
            None
        }
    }
}

/// Parse a decimal `i32` (optional `+` or `-`, then digits).
pub fn parse_i32(s: &str) -> (r: Option<i32>)
    ensures
        r == spec_parse_i32(s@),
{
    let cs = chars_of(s);
    if cs.len() == 0 {
        return None;
    }
    let neg = cs[0] == '-';
    let start: usize = if cs[0] == '-' || cs[0] == '+' {
        1
    } else {
        0
    };
    let ghost digits = if start == 1 {
        s@.drop_first()
    } else {
        s@
    };
    assert(digits =~= cs@.skip(start as int));
    if start >= cs.len() {
        assert(digits.len() == 0);
        return None;
    }
    let mut v: i64 = 0;
    let mut i: usize = start;
    assert(cs@.subrange(start as int, start as int) =~= Seq::<char>::empty());
    while i < cs.len()
        invariant
            start <= i <= cs.len(),
            cs@ == s@,
            digits == cs@.skip(start as int),
            digits == (if s@.len() > 0 && (s@[0] == '-' || s@[0] == '+') {
                s@.drop_first()
            } else {
                s@
            }),
            neg == (s@.len() > 0 && s@[0] == '-'),
            digits.len() > 0,
            crate::num::all_digits(cs@.subrange(start as int, i as int)),
            v == crate::num::digits_val(cs@.subrange(start as int, i as int)),
            v <= 0x8000_0000,
        decreases cs.len() - i,
    {
        let c = cs[i];
        if !('0' <= c && c <= '9') {
            proof {
                assert(digits[i - start] == c);
                assert(!crate::num::all_digits(digits));
            }
            return None;
        }
        let d = (c as u32 - '0' as u32) as i64;
        proof {
            let pre = cs@.subrange(start as int, i as int);
            crate::num::lemma_digits_val_push(pre, c);
            assert(cs@.subrange(start as int, i + 1) =~= pre.push(c));
        }
        if v * 10 + d > 0x8000_0000 {
            proof {
                lemma_digits_grow_past(cs@, start as int, i + 1);
                assert(digits =~= cs@.subrange(start as int, cs.len() as int));
            }
            return None;
        }
        v = v * 10 + d;
        i = i + 1;
    }
    assert(cs@.subrange(start as int, cs.len() as int) =~= digits);
    if neg {
        Some((0 - v) as i32)
    } else if v > 0x7fff_ffff {
        None
    } else {
        Some(v as i32)
    }
}

/// Once a prefix of the digits exceeds 2^31, so does the whole number.
proof fn lemma_digits_grow_past(cs: Seq<char>, start: int, i: int)
    requires
        0 <= start < i <= cs.len(),
        crate::num::digits_val(cs.subrange(start, i)) > 0x8000_0000,
    ensures
        crate::num::all_digits(cs.subrange(start, cs.len() as int)) ==> crate::num::digits_val(
            cs.subrange(start, cs.len() as int),
        ) > 0x8000_0000,
{
    let whole = cs.subrange(start, cs.len() as int);
    if crate::num::all_digits(whole) {
        let pre = cs.subrange(start, i);
        let rest = cs.subrange(i, cs.len() as int);
        assert(whole =~= pre + rest);
        assert forall|k: int| 0 <= k < rest.len() implies crate::text::is_digit(#[trigger] rest[k]) by {
            assert(rest[k] == whole[k + (i - start)]);
        }
        crate::num::lemma_digits_val_grows(pre, rest);
    }
}

/// The plan node id of the first operator named `name` whose id reads as an `i32`.
pub open spec fn sink_plan_id(ops: Seq<(Seq<char>, Option<Seq<char>>)>, name: Seq<char>) -> Option<i32>
    decreases ops.len(),
{
    if ops.len() == 0 {
        None
    } else if ops[0].0 == name && (ops[0].1 matches Some(p) && spec_parse_i32(p) is Some) {
        spec_parse_i32(ops[0].1->0)
    } else {
        sink_plan_id(ops.drop_first(), name)
    }
}

/// Find the plan node id of the sink operator named `sink_name`.
pub fn find_sink_plan_node_id(fragments: &[Fragment], sink_name: &str) -> (r: Option<i32>)
    ensures
        r == sink_plan_id(fragment_ops(fragments@), sink_name@),
{
    let ops = operator_list(fragments);
    let ghost s = op_views(ops@);
    let mut i: usize = 0;
    assert(s.skip(0) =~= s);
    while i < ops.len()
        invariant
            i <= ops.len(),
            s == op_views(ops@),
            s == fragment_ops(fragments@),
            sink_plan_id(s, sink_name@) == sink_plan_id(s.skip(i as int), sink_name@),
        decreases ops.len() - i,
    {
        assert(s.skip(i as int)[0] == s[i as int]);
        assert(s[i as int] == (ops@[i as int].0@, opt_view(ops@[i as int].1)));
        if str_eq(ops[i].0.as_str(), sink_name) {
            match &ops[i].1 {
                Some(p) => {
                    match parse_i32(p.as_str()) {
                        Some(v) => {
                            assert(opt_view(ops@[i as int].1) == Some(p@));
                            assert(spec_parse_i32(p@) == Some(v));
                            assert(s.skip(i as int)[0].0 == sink_name@);
                            assert(s.skip(i as int).len() > 0);
                            assert(sink_plan_id(s.skip(i as int), sink_name@) == Some(v));
                            return Some(v);
                        },
                        None => {},
                    }
                },
                None => {},
            }
        }
        assert(s.skip(i as int).drop_first() =~= s.skip(i + 1));
        i = i + 1;
    }
    None
}

// ---------------------------------------------------------------------------
// Parsing
// ---------------------------------------------------------------------------

/// The checked nodes, or the error of the first node that fails.
pub open spec fn parse_nodes(raws: Seq<RawNode>) -> Result<Seq<TopoView>, Seq<char>>
    decreases raws.len(),
{
    if raws.len() == 0 {
        Ok(Seq::empty())
    } else {
        match parse_nodes(raws.drop_last()) {
            Err(e) => Err(e),
            Ok(ns) => match spec_parse_node(raws.last()) {
                Err(e) => Err(e),
                Ok(n) => Ok(ns.push(n)),
            },
        }
    }
}

pub open spec fn has_id(ns: Seq<TopoView>, id: i32) -> bool {
    exists|k: int| 0 <= k < ns.len() && (#[trigger] ns[k]).id == id
}

/// The nodes completed with the selected sink operator, when there is one and no
/// node has its plan node id yet (`-1` when no id can be read).
pub open spec fn with_sink(ns: Seq<TopoView>, fragments: Seq<Fragment>) -> Seq<TopoView> {
    match best_sink(fragment_ops(fragments)) {
        None => ns,
        Some(name) => {
            let id: i32 = match sink_plan_id(fragment_ops(fragments), name) {
                Some(i) => i,
                None => -1i32,
            };
            if has_id(ns, id) {
                ns
            } else {
                ns.push(
                    TopoView {
                        id,
                        name,
                        node_class: spec_infer_node_class(name),
                        properties: Seq::empty(),
                        children: Seq::empty(),
                    },
                )
            }
        },
    }
}

/// The topology of a decoded JSON document: root id and nodes, completed with the
/// sink operator of the fragments.
pub open spec fn spec_parse_topology(raw: RawTopology, fragments: Seq<Fragment>) -> Result<(i32, Seq<TopoView>), Seq<char>> {
    match raw.root_id {
        None => Err("Missing rootId"@),
        Some(r) => match raw.nodes {
            None => Err("Missing nodes array"@),
            Some(ns) => match parse_nodes(ns@) {
                Err(e) => Err(e),
                Ok(v) => Ok((r as i32, with_sink(v, fragments))),
            },
        },
    }
}

pub(crate) fn has_id_exec(nodes: &Vec<TopologyNode>, id: i32) -> (b: bool)
    ensures
        b == has_id(vnodes(nodes@), id),
{
    let mut i: usize = 0;
    while i < nodes.len()
        invariant
            i <= nodes.len(),
            forall|k: int| 0 <= k < i ==> (#[trigger] nodes@[k]).id != id,
        decreases nodes.len() - i,
    {
        if nodes[i].id == id {
            assert(vnodes(nodes@)[i as int].id == id);
            return true;
        }
        i = i + 1;
    }
    proof {
        if has_id(vnodes(nodes@), id) {
            let k = choose|k: int| 0 <= k < vnodes(nodes@).len() && (#[trigger] vnodes(nodes@)[k]).id == id;
            assert(nodes@[k].id == id);
        }
    }
    false
}

/// Add the selected sink operator as a node, unless a node already has its id.
fn extract_and_add_sink_nodes(nodes: &mut Vec<TopologyNode>, fragments: &[Fragment])
    ensures
        vnodes(final(nodes)@) == with_sink(vnodes(old(nodes)@), fragments@),
{
    match select_sink_node(fragments) {
        None => {},
        Some(sink_name) => {
            let sink_id = match find_sink_plan_node_id(fragments, sink_name.as_str()) {
                Some(i) => i,
                None => -1,
            };
            if !has_id_exec(nodes, sink_id) {
                let node_class = infer_node_class(sink_name.as_str());
                let n = TopologyNode {
                    id: sink_id,
                    name: sink_name,
                    node_class,
                    properties: Vec::new(),
                    children: Vec::new(),
                };
                let ghost before = vnodes(nodes@);
                assert(pairs_view(n.properties@) =~= Seq::<(Seq<char>, Seq<char>)>::empty());
                assert(n.children@ =~= Seq::<i32>::empty());
                nodes.push(n);
                assert(vnodes(nodes@) =~= before.push(n@));
            }
        },
    }
}

impl TopologyParser {
    /// Check a decoded topology and complete it with the sink operator of the
    /// fragments.
    pub fn parse_with_fragments(raw: &RawTopology, fragments: &[Fragment]) -> (r: Result<TopologyGraph, ParseError>)
        ensures
            match r {
                Ok(g) => spec_parse_topology(*raw, fragments@) == Ok::<(i32, Seq<TopoView>), Seq<char>>(
                    (g.root_id, vnodes(g.nodes@)),
                ),
                Err(e) => spec_parse_topology(*raw, fragments@) == Err::<(i32, Seq<TopoView>), Seq<char>>(e.msg()),
            },
    {
        let root = match raw.root_id {
            Some(r) => r,
            None => {
                return Err(ParseError::TopologyError(String::from_str("Missing rootId")));
            },
        };
        let raws = match &raw.nodes {
            Some(ns) => ns,
            None => {
                return Err(ParseError::TopologyError(String::from_str("Missing nodes array")));
            },
        };
        let mut nodes: Vec<TopologyNode> = Vec::new();
        let mut i: usize = 0;
        assert(raws@.take(0) =~= Seq::<RawNode>::empty());
        assert(vnodes(nodes@) =~= Seq::<TopoView>::empty());
        while i < raws.len()
            invariant
                i <= raws.len(),
                raw.root_id == Some(root),
                raw.nodes matches Some(ns) && ns@ == raws@,
                parse_nodes(raws@.take(i as int)) == Ok::<Seq<TopoView>, Seq<char>>(vnodes(nodes@)),
            decreases raws.len() - i,
        {
            let ghost t = raws@.take(i + 1);
            assert(t.drop_last() =~= raws@.take(i as int));
            assert(t.last() == raws@[i as int]);
            match parse_node(&raws[i]) {
                Ok(n) => {
                    let ghost before = vnodes(nodes@);
                    nodes.push(n);
                    assert(vnodes(nodes@) =~= before.push(n@));
                },
                Err(e) => {
                    proof {
                        lemma_parse_nodes_err(raws@, i as int + 1, e.msg());
                    }
                    return Err(e);
                },
            }
            i = i + 1;
        }
        assert(raws@.take(raws.len() as int) =~= raws@);
        extract_and_add_sink_nodes(&mut nodes, fragments);
        Ok(TopologyGraph { root_id: #[verifier::truncate] (root as i32), nodes })
    }

    /// Check a decoded topology (no fragments).
    pub fn parse(raw: &RawTopology) -> (r: Result<TopologyGraph, ParseError>)
        ensures
            match r {
                Ok(g) => spec_parse_topology(*raw, Seq::empty()) == Ok::<(i32, Seq<TopoView>), Seq<char>>(
                    (g.root_id, vnodes(g.nodes@)),
                ),
                Err(e) => spec_parse_topology(*raw, Seq::empty()) == Err::<(i32, Seq<TopoView>), Seq<char>>(e.msg()),
            },
    {
        let empty: Vec<Fragment> = Vec::new();
        assert(empty@ =~= Seq::<Fragment>::empty());
        Self::parse_with_fragments(raw, empty.as_slice())
    }
}

/// Once a prefix of the nodes fails to parse, the whole list fails with the same
/// error.
proof fn lemma_parse_nodes_err(raws: Seq<RawNode>, n: int, e: Seq<char>)
    requires
        0 < n <= raws.len(),
        parse_nodes(raws.take(n)) == Err::<Seq<TopoView>, Seq<char>>(e),
    ensures
        parse_nodes(raws) == Err::<Seq<TopoView>, Seq<char>>(e),
    decreases raws.len() - n,
{
    if n < raws.len() {
        let t = raws.take(n + 1);
        assert(t.drop_last() =~= raws.take(n));
        lemma_parse_nodes_err(raws, n + 1, e);
    } else {
        assert(raws.take(n) =~= raws);
    }
}

} // verus!
