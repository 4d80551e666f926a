//! Causal chains from the root causes, the summary, and the whole analysis.
use vstd::prelude::*;
use crate::num::{dec_str, u128_to_string};
use crate::metrics::push_str;
use crate::model::{Diagnostic, DiagnosticView, vdiags, vstr, clone_strings, lemma_vstr_push};
use crate::text::str_eq;
use crate::root_cause::{
    RootCause, RootCauseView, CausalChain, CausalChainView, CausalEdge, EdgeView, RootCauseAnalysis, vedges,
    spec_all_edges, find_intra_node_causality, find_inter_node_propagation,
};
use crate::root_cause::roots::{rule_is, vroots, spec_root_causes, identify_root_causes};

verus! {

// ---------------------------------------------------------------------------
// Paths
// ---------------------------------------------------------------------------

/// The ids one edge leads to from the end of `path` and not yet on it, in edge order.
pub open spec fn next_ids(edges: Seq<EdgeView>, path: Seq<Seq<char>>) -> Seq<Seq<char>>
    decreases edges.len(),
{
    if edges.len() == 0 {
        Seq::empty()
    } else {
        let r = next_ids(edges.drop_last(), path);
        let e = edges.last();
        if e.cause == path.last() && !path.contains(e.effect) {
            r.push(e.effect)
        } else {
            r
        }
    }
}

/// The maximal paths that extend `path` (which has taken `depth` steps) by at most
/// `max - depth` further steps, depth first, the continuations of later edges
/// first; a path is kept when it has at least two ids.
pub open spec fn paths_from(edges: Seq<EdgeView>, max: nat, path: Seq<Seq<char>>, depth: nat) -> Seq<
    Seq<Seq<char>>,
>
    decreases max - depth, 1int, 0int,
{
    if depth >= max || next_ids(edges, path).len() == 0 {
        if path.len() > 1 {
            seq![path]
        } else {
            Seq::empty()
        }
    } else {
        children_paths(edges, max, path, depth, next_ids(edges, path), 0)
    }
}

/// The paths through the continuations `next[j..]` of `path`, the last one first.
pub open spec fn children_paths(
    edges: Seq<EdgeView>,
    max: nat,
    path: Seq<Seq<char>>,
    depth: nat,
    next: Seq<Seq<char>>,
    j: nat,
) -> Seq<Seq<Seq<char>>>
    decreases max - depth, 0int, next.len() - j,
{
    if j >= next.len() || depth >= max {
        Seq::empty()
    } else {
        children_paths(edges, max, path, depth, next, j + 1) + paths_from(edges, max, path.push(next[j as int]), depth + 1)
    }
}

pub open spec fn vpaths(v: Seq<Vec<String>>) -> Seq<Seq<Seq<char>>> {
    v.map_values(|p: Vec<String>| vstr(p@))
}

fn contains_text(v: &Vec<String>, s: &str) -> (b: bool)
    ensures
        b == vstr(v@).contains(s@),
{
    let mut i: usize = 0;
    while i < v.len()
        invariant
            i <= v.len(),
            forall|j: int| 0 <= j < i ==> (#[trigger] v@[j])@ != s@,
        decreases v.len() - i,
    {
        if str_eq(v[i].as_str(), s) {
            assert(vstr(v@)[i as int] == s@);
            return true;
        }
        i = i + 1;
    }
    proof {
        if vstr(v@).contains(s@) {
            let j = choose|j: int| 0 <= j < vstr(v@).len() && vstr(v@)[j] == s@;
            assert(v@[j]@ == s@);
        }
    }
    false
}

fn next_ids_exec(edges: &[CausalEdge], path: &Vec<String>) -> (r: Vec<String>)
    requires
        path@.len() > 0,
    ensures
        vstr(r@) == next_ids(vedges(edges@), vstr(path@)),
{
    let ghost s = vedges(edges@);
    let ghost p = vstr(path@);
    let last = &path[path.len() - 1];
    assert(last@ == p.last());
    let mut r: Vec<String> = Vec::new();
    let mut i: usize = 0;
    assert(s.take(0) =~= Seq::<EdgeView>::empty());
    assert(vstr(r@) =~= Seq::<Seq<char>>::empty());
    while i < edges.len()
        invariant
            i <= edges.len(),
            s == vedges(edges@),
            p == vstr(path@),
            last@ == p.last(),
            vstr(r@) == next_ids(s.take(i as int), p),
        decreases edges.len() - i,
    {
        let ghost t = s.take(i + 1);
        assert(t.drop_last() =~= s.take(i as int));
        assert(t.last() == edges@[i as int]@);
        if str_eq(edges[i].cause.as_str(), last.as_str()) && !contains_text(path, edges[i].effect.as_str()) {
            let c = edges[i].effect.clone();
            proof {
                lemma_vstr_push(r@, c);
            }
            r.push(c);
        }
        i = i + 1;
    }
    assert(s.take(edges.len() as int) =~= s);
    r
}

fn explore(edges: &[CausalEdge], max: usize, path: Vec<String>, depth: usize, out: &mut Vec<Vec<String>>)
    requires
        depth <= max,
        path@.len() > 0,
    ensures
        vpaths(final(out)@) == vpaths(old(out)@) + paths_from(vedges(edges@), max as nat, vstr(path@), depth as nat),
    decreases max - depth,
{
    let ghost e = vedges(edges@);
    let ghost p = vstr(path@);
    let next = if depth >= max {
        Vec::new()
    } else {
        next_ids_exec(edges, &path)
    };
    if depth >= max || next.len() == 0 {
        let ghost before = vpaths(out@);
        if path.len() > 1 {
            out.push(path);
            assert(vpaths(out@) =~= before + seq![p]);
        } else {
            assert(vpaths(out@) =~= before + Seq::<Seq<Seq<char>>>::empty());
        }
        return;
    }
    let ghost base = vpaths(out@);
    let ghost vn = vstr(next@);
    let mut j: usize = next.len();
    assert(base + children_paths(e, max as nat, p, depth as nat, vn, j as nat) =~= base);
    while j > 0
        invariant
            j <= next.len(),
            depth < max,
            e == vedges(edges@),
            p == vstr(path@),
            vn == vstr(next@),
            vn == next_ids(e, p),
            vpaths(out@) == base + children_paths(e, max as nat, p, depth as nat, vn, j as nat),
        decreases j,
    {
        j = j - 1;
        let mut np = clone_strings(&path);
        let c = next[j].clone();
        proof {
            lemma_vstr_push(np@, c);
        }
        np.push(c);
        let ghost mid = vpaths(out@);
        explore(edges, max, np, depth + 1, out);
        assert(vstr(np@) == p.push(vn[j as int]));
        assert(vpaths(out@) =~= base + children_paths(e, max as nat, p, depth as nat, vn, j as nat));
    }
}

/// The maximal causal paths from `start` of at most `max_depth` steps (see
/// `paths_from`).
pub fn find_paths_from(start: &str, edges: &[CausalEdge], max_depth: usize) -> (r: Vec<Vec<String>>)
    ensures
        vpaths(r@) == paths_from(vedges(edges@), max_depth as nat, seq![start@], 0),
{
    let mut out: Vec<Vec<String>> = Vec::new();
    let mut path: Vec<String> = Vec::new();
    path.push(String::from_str(start));
    assert(vstr(path@) =~= seq![start@]);
    assert(vpaths(out@) =~= Seq::<Seq<Seq<char>>>::empty());
    explore(edges, max_depth, path, 0, &mut out);
    assert(vpaths(out@) =~= paths_from(vedges(edges@), max_depth as nat, seq![start@], 0));
    out
}

// ---------------------------------------------------------------------------
// Chains
// ---------------------------------------------------------------------------

/// The rule name of the first diagnostic of `id`, or `id` itself.
pub open spec fn name_of(ds: Seq<DiagnosticView>, id: Seq<char>) -> Seq<char> {
    if ds.filter(rule_is(id)).len() > 0 {
        ds.filter(rule_is(id))[0].rule_name
    } else {
        id
    }
}

/// The names along a path, with `"→"` between consecutive ones.
pub open spec fn chain_of(ds: Seq<DiagnosticView>, path: Seq<Seq<char>>) -> Seq<Seq<char>>
    decreases path.len(),
{
    if path.len() == 0 {
        Seq::empty()
    } else if path.len() == 1 {
        seq![name_of(ds, path[0])]
    } else {
        chain_of(ds, path.drop_last()) + seq!["→"@, name_of(ds, path.last())]
    }
}

/// The description of the first edge from `a` to `b`.
pub open spec fn edge_desc(edges: Seq<EdgeView>, a: Seq<char>, b: Seq<char>) -> Option<Seq<char>>
    decreases edges.len(),
{
    if edges.len() == 0 {
        None
    } else if edges[0].cause == a && edges[0].effect == b {
        Some(edges[0].description)
    } else {
        edge_desc(edges.drop_first(), a, b)
    }
}

/// The descriptions of the edges along a path.
pub open spec fn explanations(edges: Seq<EdgeView>, path: Seq<Seq<char>>) -> Seq<Seq<char>>
    decreases path.len(),
{
    if path.len() < 2 {
        Seq::empty()
    } else {
        explanations(edges, path.drop_last()) + match edge_desc(edges, path[path.len() - 2], path.last()) {
            Some(d) => seq![d],
            None => Seq::empty(),
        }
    }
}

/// The parts joined with `sep` between consecutive ones.
pub open spec fn join(parts: Seq<Seq<char>>, sep: Seq<char>) -> Seq<char>
    decreases parts.len(),
{
    if parts.len() == 0 {
        Seq::empty()
    } else if parts.len() == 1 {
        parts[0]
    } else {
        join(parts.drop_last(), sep) + sep + parts.last()
    }
}

/// The causal chain along a path.
pub open spec fn chain_view(ds: Seq<DiagnosticView>, edges: Seq<EdgeView>, path: Seq<Seq<char>>) -> CausalChainView {
    let ex = explanations(edges, path);
    CausalChainView {
        chain: chain_of(ds, path),
        explanation: if ex.len() == 0 {
            path[0] + " 导致 "@ + path.last()
        } else {
            join(ex, "; "@)
        },
        confidence: 100,
    }
}

/// The chains along the paths that have at least two ids.
pub open spec fn chains_of_paths(ds: Seq<DiagnosticView>, edges: Seq<EdgeView>, paths: Seq<Seq<Seq<char>>>) -> Seq<
    CausalChainView,
>
    decreases paths.len(),
{
    if paths.len() == 0 {
        Seq::empty()
    } else {
        chains_of_paths(ds, edges, paths.drop_last()) + if paths.last().len() >= 2 {
            seq![chain_view(ds, edges, paths.last())]
        } else {
            Seq::empty()
        }
    }
}

/// Depth bound of the causal paths.
pub const MAX_CHAIN_DEPTH: usize = 3;

/// The chains from each of the ids.
pub open spec fn chains_of_ids(ds: Seq<DiagnosticView>, edges: Seq<EdgeView>, ids: Seq<Seq<char>>) -> Seq<
    CausalChainView,
>
    decreases ids.len(),
{
    if ids.len() == 0 {
        Seq::empty()
    } else {
        chains_of_ids(ds, edges, ids.drop_last()) + chains_of_paths(
            ds,
            edges,
            paths_from(edges, MAX_CHAIN_DEPTH as nat, seq![ids.last()], 0),
        )
    }
}

/// The causal chains of the root causes, root cause after root cause.
pub open spec fn spec_chains(ds: Seq<DiagnosticView>, edges: Seq<EdgeView>, rcs: Seq<RootCauseView>) -> Seq<
    CausalChainView,
>
    decreases rcs.len(),
{
    if rcs.len() == 0 {
        Seq::empty()
    } else {
        spec_chains(ds, edges, rcs.drop_last()) + chains_of_ids(ds, edges, rcs.last().diagnostic_ids)
    }
}

pub open spec fn vchains(v: Seq<CausalChain>) -> Seq<CausalChainView> {
    v.map_values(|c: CausalChain| c@)
}

fn name_of_exec(ds: &[Diagnostic], id: &String) -> (r: String)
    ensures
        r@ == name_of(vdiags(ds@), id@),
{
    let ghost s = vdiags(ds@);
    let mut i: usize = 0;
    proof {
        reveal(Seq::filter);
        assert(s.take(0) =~= Seq::<DiagnosticView>::empty());
    }
    while i < ds.len()
        invariant
            i <= ds.len(),
            s == vdiags(ds@),
            s.take(i as int).filter(rule_is(id@)).len() == 0,
        decreases ds.len() - i,
    {
        proof {
            assert(s.take(i + 1) =~= s.take(i as int).push(s[i as int]));
            s.take(i as int).lemma_filter_push(s[i as int], rule_is(id@));
            assert(s[i as int] == ds@[i as int]@);
        }
        if str_eq(ds[i].rule_id.as_str(), id.as_str()) {
            proof {
                let t = s.take(i + 1).filter(rule_is(id@));
                assert(t.len() == 1 && t[0] == s[i as int]);
                lemma_filter_prefix(s, rule_is(id@), i + 1);
            }
            return ds[i].rule_name.clone();
        }
        i = i + 1;
    }
    assert(s.take(ds.len() as int) =~= s);
    id.clone()
}

/// When the first `n` items already hold an item that passes `f`, the filter of the
/// whole sequence starts with the filter of those items.
proof fn lemma_filter_prefix<A>(s: Seq<A>, f: spec_fn(A) -> bool, n: int)
    requires
        0 <= n <= s.len(),
        s.take(n).filter(f).len() > 0,
    ensures
        s.filter(f).len() > 0,
        s.filter(f)[0] == s.take(n).filter(f)[0],
    decreases s.len() - n,
{
    if n < s.len() {
        assert(s.take(n + 1) =~= s.take(n).push(s[n]));
        s.take(n).lemma_filter_push(s[n], f);
        lemma_filter_prefix(s, f, n + 1);
    } else {
        assert(s.take(n) =~= s);
    }
}

fn edge_desc_exec(edges: &[CausalEdge], a: &String, b: &String) -> (r: Option<String>)
    ensures
        match r {
            Some(d) => edge_desc(vedges(edges@), a@, b@) == Some(d@),
            None => edge_desc(vedges(edges@), a@, b@) is None,
        },
{
    let ghost s = vedges(edges@);
    let mut i: usize = 0;
    assert(s.skip(0) =~= s);
    while i < edges.len()
        invariant
            i <= edges.len(),
            s == vedges(edges@),
            edge_desc(s, a@, b@) == edge_desc(s.skip(i as int), a@, b@),
        decreases edges.len() - i,
    {
        assert(s.skip(i as int)[0] == edges@[i as int]@);
        if str_eq(edges[i].cause.as_str(), a.as_str()) && str_eq(edges[i].effect.as_str(), b.as_str()) {
            return Some(edges[i].description.clone());
        }
        assert(s.skip(i as int).drop_first() =~= s.skip(i + 1));
        i = i + 1;
    }
    None
}

/// Writes `parts` joined with `sep`.
fn join_exec(parts: &Vec<String>, sep: &str) -> (r: String)
    ensures
        r@ == join(vstr(parts@), sep@),
{
    let ghost p = vstr(parts@);
    let mut r = String::new();
    let mut i: usize = 0;
    assert(p.take(0) =~= Seq::<Seq<char>>::empty());
    while i < parts.len()
        invariant
            i <= parts.len(),
            p == vstr(parts@),
            r@ == join(p.take(i as int), sep@),
        decreases parts.len() - i,
    {
        let ghost t = p.take(i + 1);
        assert(t.drop_last() =~= p.take(i as int));
        assert(t.last() == parts@[i as int]@);
        if i > 0 {
            push_str(&mut r, sep);
        } else {
            assert(r@ =~= Seq::<char>::empty());
        }
        push_str(&mut r, parts[i].as_str());
        if i == 0 {
            assert(r@ =~= t[0]);
        }
        i = i + 1;
    }
    assert(p.take(parts.len() as int) =~= p);
    r
}

fn chain_exec(ds: &[Diagnostic], edges: &[CausalEdge], path: &Vec<String>) -> (c: CausalChain)
    requires
        path@.len() >= 2,
    ensures
        c@ == chain_view(vdiags(ds@), vedges(edges@), vstr(path@)),
{
    let ghost s = vdiags(ds@);
    let ghost e = vedges(edges@);
    let ghost p = vstr(path@);
    let mut chain: Vec<String> = Vec::new();
    let mut ex: Vec<String> = Vec::new();
    let mut i: usize = 0;
    assert(p.take(0) =~= Seq::<Seq<char>>::empty());
    assert(vstr(chain@) =~= Seq::<Seq<char>>::empty());
    assert(vstr(ex@) =~= Seq::<Seq<char>>::empty());
    while i < path.len()
        invariant
            i <= path.len(),
            s == vdiags(ds@),
            e == vedges(edges@),
            p == vstr(path@),
            vstr(chain@) == chain_of(s, p.take(i as int)),
            vstr(ex@) == explanations(e, p.take(i as int)),
        decreases path.len() - i,
    {
        let ghost t = p.take(i + 1);
        assert(t.drop_last() =~= p.take(i as int));
        assert(t.last() == path@[i as int]@);
        let name = name_of_exec(ds, &path[i]);
        if i > 0 {
            let arrow = String::from_str("→");
            proof {
                lemma_vstr_push(chain@, arrow);
                lemma_vstr_push(chain@.push(arrow), name);
            }
            chain.push(arrow);
            chain.push(name);
            assert(vstr(chain@) =~= chain_of(s, t));
            assert(t[t.len() - 2] == path@[i - 1]@);
            match edge_desc_exec(edges, &path[i - 1], &path[i]) {
                Some(d) => {
                    proof {
                        lemma_vstr_push(ex@, d);
                    }
                    ex.push(d);
                    assert(vstr(ex@) =~= explanations(e, t));
                },
                None => {
                    assert(vstr(ex@) =~= explanations(e, t));
                },
            }
        } else {
            proof {
                lemma_vstr_push(chain@, name);
            }
            chain.push(name);
            assert(vstr(chain@) =~= chain_of(s, t));
        }
        i = i + 1;
    }
    assert(p.take(path.len() as int) =~= p);
    let explanation = if ex.len() == 0 {
        let mut x = path[0].clone();
        push_str(&mut x, " 导致 ");
        push_str(&mut x, path[path.len() - 1].as_str());
        x
    } else {
        join_exec(&ex, "; ")
    };
    CausalChain { chain, explanation, confidence: 100 }
}

/// The causal chains from the root causes along the causal edges: for each root
/// cause and each of its rule ids, one chain per maximal path of at most three steps.
pub fn build_causal_chains(root_causes: &[RootCause], edges: &[CausalEdge], diagnostics: &[Diagnostic]) -> (r: Vec<
    CausalChain,
>)
    ensures
        vchains(r@) == spec_chains(vdiags(diagnostics@), vedges(edges@), vroots(root_causes@)),
{
    let ghost s = vdiags(diagnostics@);
    let ghost e = vedges(edges@);
    let ghost rcs = vroots(root_causes@);
    let mut out: Vec<CausalChain> = Vec::new();
    let mut i: usize = 0;
    assert(rcs.take(0) =~= Seq::<RootCauseView>::empty());
    assert(vchains(out@) =~= Seq::<CausalChainView>::empty());
    while i < root_causes.len()
        invariant
            i <= root_causes.len(),
            s == vdiags(diagnostics@),
            e == vedges(edges@),
            rcs == vroots(root_causes@),
            vchains(out@) == spec_chains(s, e, rcs.take(i as int)),
        decreases root_causes.len() - i,
    {
        let ids = &root_causes[i].diagnostic_ids;
        let ghost vids = vstr(ids@);
        let ghost before = vchains(out@);
        let mut k: usize = 0;
        assert(vids.take(0) =~= Seq::<Seq<char>>::empty());
        assert(before + Seq::<CausalChainView>::empty() =~= before);
        while k < ids.len()
            invariant
                k <= ids.len(),
                s == vdiags(diagnostics@),
                e == vedges(edges@),
                vids == vstr(ids@),
                vchains(out@) == before + chains_of_ids(s, e, vids.take(k as int)),
            decreases ids.len() - k,
        {
            let paths = find_paths_from(ids[k].as_str(), edges, MAX_CHAIN_DEPTH);
            let ghost vp = vpaths(paths@);
            let ghost mid = vchains(out@);
            let mut q: usize = 0;
            assert(vp.take(0) =~= Seq::<Seq<Seq<char>>>::empty());
            assert(mid + Seq::<CausalChainView>::empty() =~= mid);
            while q < paths.len()
                invariant
                    q <= paths.len(),
                    s == vdiags(diagnostics@),
                    e == vedges(edges@),
                    vp == vpaths(paths@),
                    vchains(out@) == mid + chains_of_paths(s, e, vp.take(q as int)),
                decreases paths.len() - q,
            {
                let ghost t = vp.take(q + 1);
                assert(t.drop_last() =~= vp.take(q as int));
                assert(t.last() == vstr(paths@[q as int]@));
                if paths[q].len() >= 2 {
                    let c = chain_exec(diagnostics, edges, &paths[q]);
                    let ghost b2 = vchains(out@);
                    out.push(c);
                    assert(vchains(out@) =~= b2.push(c@));
                    assert(vchains(out@) =~= mid + chains_of_paths(s, e, t));
                } else {
                    assert(vchains(out@) =~= mid + chains_of_paths(s, e, t));
                }
                q = q + 1;
            }
            assert(vp.take(paths.len() as int) =~= vp);
            proof {
                let t = vids.take(k + 1);
                assert(t.drop_last() =~= vids.take(k as int));
                assert(t.last() == ids@[k as int]@);
                assert(vchains(out@) =~= before + chains_of_ids(s, e, t));
            }
            k = k + 1;
        }
        assert(vids.take(ids.len() as int) =~= vids);
        proof {
            let t = rcs.take(i + 1);
            assert(t.drop_last() =~= rcs.take(i as int));
            assert(t.last() == root_causes@[i as int]@);
        }
        i = i + 1;
    }
    assert(rcs.take(root_causes.len() as int) =~= rcs);
    out
}

// ---------------------------------------------------------------------------
// Summary and analysis
// ---------------------------------------------------------------------------

/// The first rule id of a root cause, or nothing.
pub open spec fn first_id(rc: RootCauseView) -> Seq<char> {
    if rc.diagnostic_ids.len() > 0 {
        rc.diagnostic_ids[0]
    } else {
        Seq::empty()
    }
}

/// The first ids of the root causes.
pub open spec fn first_ids(rcs: Seq<RootCauseView>) -> Seq<Seq<char>> {
    rcs.map_values(|rc: RootCauseView| first_id(rc))
}

/// One sentence on the root causes: none; the single one (with its number of
/// symptoms); or how many there are and the ids of the first three.
pub open spec fn spec_summary(rcs: Seq<RootCauseView>) -> Seq<char> {
    if rcs.len() == 0 {
        "未发现明显的性能问题根因"@
    } else if rcs.len() == 1 {
        if rcs[0].symptoms.len() == 0 {
            "发现 1 个根因: "@ + rcs[0].description
        } else {
            "发现 1 个根因: "@ + rcs[0].description + "，导致了 "@ + dec_str(rcs[0].symptoms.len()) + " 个下游问题"@
        }
    } else {
        "发现 "@ + dec_str(rcs.len()) + " 个独立根因，主要包括: "@ + join(
            first_ids(rcs.take(if rcs.len() < 3 { rcs.len() as int } else { 3 })),
            ", "@,
        ) + "。建议按优先级依次解决"@
    }
}

/// Writes the summary sentence of the root causes.
pub fn generate_summary(root_causes: &[RootCause]) -> (s: String)
    ensures
        s@ == spec_summary(vroots(root_causes@)),
{
    let ghost rcs = vroots(root_causes@);
    if root_causes.len() == 0 {
        return String::from_str("未发现明显的性能问题根因");
    }
    if root_causes.len() == 1 {
        let rc = &root_causes[0];
        assert(rcs[0] == rc@);
        let mut s = String::from_str("发现 1 个根因: ");
        push_str(&mut s, rc.description.as_str());
        if rc.symptoms.len() > 0 {
            push_str(&mut s, "，导致了 ");
            let n = u128_to_string(rc.symptoms.len() as u128);
            push_str(&mut s, n.as_str());
            push_str(&mut s, " 个下游问题");
        }
        return s;
    }
    let top = if root_causes.len() < 3 {
        root_causes.len()
    } else {
        3
    };
    let mut ids: Vec<String> = Vec::new();
    let mut i: usize = 0;
    assert(vstr(ids@) =~= first_ids(rcs.take(0)));
    while i < top
        invariant
            i <= top <= root_causes.len(),
            rcs == vroots(root_causes@),
            vstr(ids@) == first_ids(rcs.take(i as int)),
        decreases top - i,
    {
        let rc = &root_causes[i];
        assert(rcs[i as int] == rc@);
        let id = if rc.diagnostic_ids.len() > 0 {
            rc.diagnostic_ids[0].clone()
        } else {
            String::new()
        };
        proof {
            lemma_vstr_push(ids@, id);
        }
        ids.push(id);
        assert(vstr(ids@) =~= first_ids(rcs.take(i + 1)));
        i = i + 1;
    }
    let mut s = String::from_str("发现 ");
    let n = u128_to_string(root_causes.len() as u128);
    push_str(&mut s, n.as_str());
    push_str(&mut s, " 个独立根因，主要包括: ");
    let j = join_exec(&ids, ", ");
    push_str(&mut s, j.as_str());
    push_str(&mut s, "。建议按优先级依次解决");
    s
}

pub struct RootCauseAnalysisView {
    pub root_causes: Seq<RootCauseView>,
    pub causal_chains: Seq<CausalChainView>,
    pub summary: Seq<char>,
    pub total_diagnostics: usize,
}

impl View for RootCauseAnalysis {
    type V = RootCauseAnalysisView;

    open spec fn view(&self) -> RootCauseAnalysisView {
        RootCauseAnalysisView {
            root_causes: vroots(self.root_causes@),
            causal_chains: vchains(self.causal_chains@),
            summary: self.summary@,
            total_diagnostics: self.total_diagnostics,
        }
    }
}

/// The analysis of the diagnostics: the empty analysis for no diagnostics; else the
/// root causes under all causal edges, their chains, the summary and the count.
pub open spec fn spec_root_cause_analysis(ds: Seq<DiagnosticView>) -> RootCauseAnalysisView {
    if ds.len() == 0 {
        RootCauseAnalysisView {
            root_causes: Seq::empty(),
            causal_chains: Seq::empty(),
            summary: Seq::empty(),
            total_diagnostics: 0,
        }
    } else {
        let edges = spec_all_edges(ds);
        let rcs = spec_root_causes(ds, edges);
        RootCauseAnalysisView {
            root_causes: rcs,
            causal_chains: spec_chains(ds, edges, rcs),
            summary: spec_summary(rcs),
            total_diagnostics: ds.len() as usize,
        }
    }
}

impl Default for RootCauseAnalysis {
    fn default() -> (r: Self)
        ensures
            r@.root_causes.len() == 0,
            r@.causal_chains.len() == 0,
            r@.summary.len() == 0,
            r@.total_diagnostics == 0,
    {
        RootCauseAnalysis {
            root_causes: Vec::new(),
            causal_chains: Vec::new(),
            summary: String::new(),
            total_diagnostics: 0,
        }
    }
}

/// Root cause analysis over diagnostics.
pub struct RootCauseAnalyzer;

impl RootCauseAnalyzer {
    /// Analyze the diagnostics and identify their root causes.
    pub fn analyze(diagnostics: &[Diagnostic]) -> (r: RootCauseAnalysis)
        ensures
            r@ == spec_root_cause_analysis(vdiags(diagnostics@)),
    {
        if diagnostics.len() == 0 {
            let r = RootCauseAnalysis::default();
            assert(r@.root_causes =~= Seq::<RootCauseView>::empty());
            assert(r@.causal_chains =~= Seq::<CausalChainView>::empty());
            assert(r@.summary =~= Seq::<char>::empty());
            return r;
        }
        let mut edges = find_intra_node_causality(diagnostics);
        let inter = find_inter_node_propagation(diagnostics);
        let ghost intra_v = vedges(edges@);
        let mut k: usize = 0;
        assert(vedges(inter@).take(0) =~= Seq::<EdgeView>::empty());
        assert(intra_v + Seq::<EdgeView>::empty() =~= intra_v);
        while k < inter.len()
            invariant
                k <= inter.len(),
                vedges(edges@) == intra_v + vedges(inter@).take(k as int),
            decreases inter.len() - k,
        {
            let e = CausalEdge {
                cause: inter[k].cause.clone(),
                effect: inter[k].effect.clone(),
                description: inter[k].description.clone(),
            };
            let ghost before = vedges(edges@);
            edges.push(e);
            assert(vedges(edges@) =~= before.push(e@));
            assert(vedges(inter@).take(k + 1) =~= vedges(inter@).take(k as int).push(inter@[k as int]@));
            k = k + 1;
        }
        assert(vedges(inter@).take(inter.len() as int) =~= vedges(inter@));
        let root_causes = identify_root_causes(diagnostics, edges.as_slice());
        let causal_chains = build_causal_chains(root_causes.as_slice(), edges.as_slice(), diagnostics);
        let summary = generate_summary(root_causes.as_slice());
        RootCauseAnalysis { root_causes, causal_chains, summary, total_diagnostics: diagnostics.len() }
    }
}

} // verus!
