//! The topology as a graph: parent-child relations, leaves, and its validation
//! (the root exists, every child exists, and no cycle).
use vstd::prelude::*;
use crate::model::{int_str, i64_to_string};
use crate::metrics::push_str;
use crate::uniq::{dedup_by, seen, lemma_dedup_by_seen, lemma_dedup_by_items, lemma_dedup_by_distinct};
use crate::topology::{TopologyNode, TopologyGraph, TopologyParser, TopoView, ParseError, vnodes, has_id};

verus! {

// ---------------------------------------------------------------------------
// Relations and leaves
// ---------------------------------------------------------------------------

pub open spec fn same_i32() -> spec_fn(i32) -> i32 {
    |x: i32| x
}

pub open spec fn ids_of(ns: Seq<TopoView>) -> Seq<i32> {
    ns.map_values(|n: TopoView| n.id)
}

/// The children of the last node with id `id`.
pub open spec fn last_children(ns: Seq<TopoView>, id: i32) -> Seq<i32>
    decreases ns.len(),
{
    if ns.len() == 0 {
        Seq::empty()
    } else if ns.last().id == id {
        ns.last().children
    } else {
        last_children(ns.drop_last(), id)
    }
}

/// Parent-child relations: for each node id (in order of first appearance), the
/// children of the last node with that id.
pub open spec fn spec_relationships(ns: Seq<TopoView>) -> Seq<(i32, Seq<i32>)> {
    let ids = dedup_by(ids_of(ns), same_i32());
    Seq::new(ids.len(), |k: int| (ids[k], last_children(ns, ids[k])))
}

/// The ids of the nodes without children, in order.
pub open spec fn leaves(ns: Seq<TopoView>) -> Seq<i32>
    decreases ns.len(),
{
    if ns.len() == 0 {
        Seq::empty()
    } else if ns.last().children.len() == 0 {
        leaves(ns.drop_last()).push(ns.last().id)
    } else {
        leaves(ns.drop_last())
    }
}

fn distinct_ids(nodes: &Vec<TopologyNode>) -> (r: Vec<i32>)
    ensures
        r@ == dedup_by(ids_of(vnodes(nodes@)), same_i32()),
{
    let ghost s = ids_of(vnodes(nodes@));
    let mut r: Vec<i32> = Vec::new();
    let mut i: usize = 0;
    assert(s.take(0) =~= Seq::<i32>::empty());
    while i < nodes.len()
        invariant
            i <= nodes.len(),
            s == ids_of(vnodes(nodes@)),
            r@ == dedup_by(s.take(i as int), same_i32()),
        decreases nodes.len() - i,
    {
        let id = nodes[i].id;
        let mut found = false;
        let mut j: usize = 0;
        while j < r.len()
            invariant
                j <= r.len(),
                found == exists|q: int| 0 <= q < j && r@[q] == id,
            decreases r.len() - j,
        {
            if r[j] == id {
                found = true;
            }
            j = j + 1;
        }
        proof {
            let acc = s.take(i as int);
            lemma_dedup_by_seen(acc, same_i32());
            let nxt = s.take(i + 1);
            assert(nxt.drop_last() =~= acc);
            assert(nxt.last() == id);
            if found {
                let q = choose|q: int| 0 <= q < r@.len() && r@[q] == id;
                assert(same_i32()(r@[q]) == id);
                assert(seen(r@, same_i32(), id));
            }
            if seen(r@, same_i32(), id) {
                let q = choose|q: int| 0 <= q < r@.len() && same_i32()(r@[q]) == id;
                assert(r@[q] == id);
            }
        }
        if !found {
            r.push(id);
        }
        i = i + 1;
    }
    assert(s.take(nodes.len() as int) =~= s);
    r
}

fn last_children_exec(nodes: &Vec<TopologyNode>, id: i32) -> (r: Vec<i32>)
    ensures
        r@ == last_children(vnodes(nodes@), id),
{
    let ghost s = vnodes(nodes@);
    let mut i: usize = nodes.len();
    assert(s.take(nodes.len() as int) =~= s);
    while i > 0
        invariant
            i <= nodes.len(),
            s == vnodes(nodes@),
            last_children(s, id) == last_children(s.take(i as int), id),
        decreases i,
    {
        let ghost t = s.take(i as int);
        assert(t.drop_last() =~= s.take(i - 1));
        assert(t.last() == nodes@[i - 1]@);
        if nodes[i - 1].id == id {
            return nodes[i - 1].children.clone();
        }
        i = i - 1;
    }
    Vec::new()
}

impl TopologyParser {
    /// Parent-child relations of the topology: each node id once, with the children
    /// of the last node that has it.
    pub fn build_relationships(topology: &TopologyGraph) -> (r: Vec<(i32, Vec<i32>)>)
        ensures
            r@.map_values(|e: (i32, Vec<i32>)| (e.0, e.1@)) == spec_relationships(vnodes(topology.nodes@)),
    {
        let ghost ns = vnodes(topology.nodes@);
        let ids = distinct_ids(&topology.nodes);
        let mut r: Vec<(i32, Vec<i32>)> = Vec::new();
        let mut k: usize = 0;
        while k < ids.len()
            invariant
                k <= ids.len(),
                ns == vnodes(topology.nodes@),
                ids@ == dedup_by(ids_of(ns), same_i32()),
                r@.map_values(|e: (i32, Vec<i32>)| (e.0, e.1@)) =~= spec_relationships(ns).take(k as int),
            decreases ids.len() - k,
        {
            let c = last_children_exec(&topology.nodes, ids[k]);
            let ghost before = r@;
            r.push((ids[k], c));
            proof {
                let rel = spec_relationships(ns);
                assert(rel[k as int] == (ids@[k as int], c@));
                assert(rel.take(k + 1) =~= rel.take(k as int).push((ids@[k as int], c@)));
                assert(r@.map_values(|e: (i32, Vec<i32>)| (e.0, e.1@)) =~= before.map_values(
                    |e: (i32, Vec<i32>)| (e.0, e.1@),
                ).push((ids@[k as int], c@)));
            }
            k = k + 1;
        }
        assert(spec_relationships(ns).take(ids.len() as int) =~= spec_relationships(ns));
        r
    }

    /// Ids of the nodes without children.
    pub fn get_leaf_nodes(topology: &TopologyGraph) -> (r: Vec<i32>)
        ensures
            r@ == leaves(vnodes(topology.nodes@)),
    {
        let ghost ns = vnodes(topology.nodes@);
        let mut r: Vec<i32> = Vec::new();
        let mut i: usize = 0;
        assert(ns.take(0) =~= Seq::<TopoView>::empty());
        while i < topology.nodes.len()
            invariant
                i <= topology.nodes.len(),
                ns == vnodes(topology.nodes@),
                r@ == leaves(ns.take(i as int)),
            decreases topology.nodes.len() - i,
        {
            let ghost t = ns.take(i + 1);
            assert(t.drop_last() =~= ns.take(i as int));
            assert(t.last() == topology.nodes@[i as int]@);
            if topology.nodes[i].children.len() == 0 {
                r.push(topology.nodes[i].id);
            }
            i = i + 1;
        }
        assert(ns.take(topology.nodes.len() as int) =~= ns);
        r
    }
}

// ---------------------------------------------------------------------------
// Cycles
// ---------------------------------------------------------------------------

/// The children of the first node with id `id` (none if there is no such node).
pub open spec fn succ(ns: Seq<TopoView>, id: i32) -> Seq<i32>
    decreases ns.len(),
{
    if ns.len() == 0 {
        Seq::empty()
    } else if ns[0].id == id {
        ns[0].children
    } else {
        succ(ns.drop_first(), id)
    }
}

/// The id after position `i` of `p` is a child of the id at `i`.
pub open spec fn edge_at(ns: Seq<TopoView>, p: Seq<i32>, i: int) -> bool {
    succ(ns, p[i]).contains(p[i + 1])
}

/// `p` is a cycle: at least two ids, the last equal to the first, each a child of
/// the one before.
pub open spec fn is_cycle(ns: Seq<TopoView>, p: Seq<i32>) -> bool {
    &&& p.len() >= 2
    &&& p[0] == p.last()
    &&& forall|i: int| 0 <= i < p.len() - 1 ==> #[trigger] edge_at(ns, p, i)
}

pub open spec fn has_cycle(ns: Seq<TopoView>) -> bool {
    exists|p: Seq<i32>| is_cycle(ns, p)
}

/// The children of the nodes, node after node.
pub open spec fn all_children(ns: Seq<TopoView>) -> Seq<i32>
    decreases ns.len(),
{
    if ns.len() == 0 {
        Seq::empty()
    } else {
        all_children(ns.drop_last()) + ns.last().children
    }
}

/// The first of `cs` that is no node's id.
pub open spec fn first_missing(cs: Seq<i32>, ns: Seq<TopoView>) -> Option<i32>
    decreases cs.len(),
{
    if cs.len() == 0 {
        None
    } else if !has_id(ns, cs[0]) {
        Some(cs[0])
    } else {
        first_missing(cs.drop_first(), ns)
    }
}

/// The outcome of validation: the root must exist, then every child, then there
/// must be no cycle.
pub open spec fn spec_validate(root_id: i32, ns: Seq<TopoView>) -> Result<(), Seq<char>> {
    if !has_id(ns, root_id) {
        Err("Root node "@ + int_str(root_id as int) + " not found"@)
    } else {
        match first_missing(all_children(ns), ns) {
            Some(c) => Err("Child node "@ + int_str(c as int) + " referenced but not found"@),
            None => if has_cycle(ns) {
                Err("Cycle detected in topology graph"@)
            } else {
                Ok(())
            },
        }
    }
}

proof fn lemma_succ_has_node(ns: Seq<TopoView>, id: i32)
    ensures
        succ(ns, id).len() > 0 ==> has_id(ns, id),
        forall|c: i32| #[trigger] succ(ns, id).contains(c) ==> all_children(ns).contains(c),
    decreases ns.len(),
{
    if ns.len() > 0 {
        lemma_all_children_has(ns);
        if ns[0].id == id {
            assert forall|c: i32| #[trigger] succ(ns, id).contains(c) implies all_children(ns).contains(c) by {
                let q = choose|q: int| 0 <= q < ns[0].children.len() && ns[0].children[q] == c;
                assert(ns[0].children.contains(c));
            }
        } else {
            lemma_succ_has_node(ns.drop_first(), id);
            if succ(ns, id).len() > 0 {
                let k = choose|k: int| 0 <= k < ns.drop_first().len() && (#[trigger] ns.drop_first()[k]).id == id;
                assert(ns[k + 1].id == id);
            }
            assert forall|c: i32| #[trigger] succ(ns, id).contains(c) implies all_children(ns).contains(c) by {
                lemma_all_children_suffix(ns);
            }
        }
    }
}

/// Every child of a node occurs among all children.
proof fn lemma_all_children_has(ns: Seq<TopoView>)
    ensures
        forall|k: int, c: i32|
            0 <= k < ns.len() && (#[trigger] ns[k]).children.contains(c) ==> #[trigger] all_children(ns).contains(c),
    decreases ns.len(),
{
    if ns.len() > 0 {
        let t = ns.drop_last();
        lemma_all_children_has(t);
        assert forall|k: int, c: i32|
            0 <= k < ns.len() && (#[trigger] ns[k]).children.contains(c) implies #[trigger] all_children(ns).contains(c) by {
            let a = all_children(t);
            let b = ns.last().children;
            assert(all_children(ns) == a + b);
            if k < ns.len() - 1 {
                assert(t[k] == ns[k]);
                assert(a.contains(c));
                let q = choose|q: int| 0 <= q < a.len() && a[q] == c;
                assert((a + b)[q] == c);
            } else {
                let q = choose|q: int| 0 <= q < b.len() && b[q] == c;
                assert((a + b)[a.len() + q] == c);
            }
        }
    }
}

/// The children of the nodes after the first are among all children.
proof fn lemma_all_children_suffix(ns: Seq<TopoView>)
    requires
        ns.len() > 0,
    ensures
        forall|c: i32| #[trigger] all_children(ns.drop_first()).contains(c) ==> all_children(ns).contains(c),
{
    lemma_all_children_has(ns);
    lemma_all_children_of(ns.drop_first());
    assert forall|c: i32| #[trigger] all_children(ns.drop_first()).contains(c) implies all_children(ns).contains(c) by {
        let k = choose|k: int| 0 <= k < ns.drop_first().len() && (#[trigger] ns.drop_first()[k]).children.contains(c);
        assert(ns[k + 1] == ns.drop_first()[k]);
    }
}

/// Every one of all children is a child of some node.
proof fn lemma_all_children_of(ns: Seq<TopoView>)
    ensures
        forall|c: i32|
            #[trigger] all_children(ns).contains(c) ==> exists|k: int|
                0 <= k < ns.len() && (#[trigger] ns[k]).children.contains(c),
    decreases ns.len(),
{
    if ns.len() > 0 {
        let t = ns.drop_last();
        lemma_all_children_of(t);
        assert forall|c: i32| #[trigger] all_children(ns).contains(c) implies exists|k: int|
            0 <= k < ns.len() && (#[trigger] ns[k]).children.contains(c) by {
            let a = all_children(t);
            let b = ns.last().children;
            assert(all_children(ns) == a + b);
            let q = choose|q: int| 0 <= q < (a + b).len() && (a + b)[q] == c;
            if q < a.len() {
                assert(a.contains(c));
                let k = choose|k: int| 0 <= k < t.len() && (#[trigger] t[k]).children.contains(c);
                assert(ns[k] == t[k]);
            } else {
                assert(b[q - a.len()] == c);
                assert(ns[ns.len() - 1].children.contains(c));
            }
        }
    }
}

/// With `removed` listing the vertices in an order where each is removed after
/// every vertex that has it as a child, there is no cycle.
proof fn lemma_ranked_no_cycle(ns: Seq<TopoView>, removed: Seq<i32>, p: Seq<i32>)
    requires
        removed.no_duplicates(),
        forall|x: i32| has_id(ns, x) ==> #[trigger] removed.contains(x),
        forall|c: i32| #[trigger] all_children(ns).contains(c) ==> has_id(ns, c),
        forall|k: int, u: i32|
            0 <= k < removed.len() && has_id(ns, u) && #[trigger] succ(ns, u).contains(#[trigger] removed[k])
                ==> exists|j: int| 0 <= j < k && removed[j] == u,
    ensures
        !is_cycle(ns, p),
{
    if is_cycle(ns, p) {
        lemma_ranked_path(ns, removed, p);
    }
}

proof fn lemma_ranked_path(ns: Seq<TopoView>, removed: Seq<i32>, p: Seq<i32>)
    requires
        removed.no_duplicates(),
        forall|x: i32| has_id(ns, x) ==> #[trigger] removed.contains(x),
        forall|c: i32| #[trigger] all_children(ns).contains(c) ==> has_id(ns, c),
        forall|k: int, u: i32|
            0 <= k < removed.len() && has_id(ns, u) && #[trigger] succ(ns, u).contains(#[trigger] removed[k])
                ==> exists|j: int| 0 <= j < k && removed[j] == u,
        p.len() >= 2,
        forall|i: int| 0 <= i < p.len() - 1 ==> #[trigger] edge_at(ns, p, i),
    ensures
        p[0] != p.last(),
{
    assert forall|i: int| 0 <= i < p.len() implies has_id(ns, #[trigger] p[i]) by {
        if i == 0 {
            assert(edge_at(ns, p, 0));
            assert(succ(ns, p[0]).contains(p[1]));
            let q = choose|q: int| 0 <= q < succ(ns, p[0]).len() && succ(ns, p[0])[q] == p[1];
            lemma_succ_has_node(ns, p[0]);
        } else {
            assert(edge_at(ns, p, i - 1));
            assert(succ(ns, p[i - 1]).contains(p[i]));
            lemma_succ_has_node(ns, p[i - 1]);
            assert(all_children(ns).contains(p[i]));
        }
    }
    let rank = |x: i32| choose|j: int| 0 <= j < removed.len() && removed[j] == x;
    assert forall|i: int| 0 <= i < p.len() implies 0 <= #[trigger] rank(p[i]) < removed.len() && removed[rank(p[i])]
        == p[i] by {
        assert(removed.contains(p[i]));
    }
    assert forall|i: int| 0 <= i < p.len() - 1 implies #[trigger] rank(p[i]) < rank(p[i + 1]) by {
        let k = rank(p[i + 1]);
        assert(0 <= rank(p[i + 1]) < removed.len() && removed[rank(p[i + 1])] == p[i + 1]);
        assert(0 <= rank(p[i]) < removed.len() && removed[rank(p[i])] == p[i]);
        assert(edge_at(ns, p, i));
        assert(succ(ns, p[i]).contains(removed[k]));
        assert(has_id(ns, p[i]));
        assert(edge_at(ns, p, i));
        let j = choose|j: int| 0 <= j < k && removed[j] == p[i];
        assert(j == rank(p[i]));
    }
    assert forall|i: int| 1 <= i < p.len() implies rank(p[0]) < #[trigger] rank(p[i]) by {
        lemma_rank_grows(p, rank, i);
    }
    assert(rank(p[0]) < rank(p[p.len() - 1]));
    assert(p[p.len() - 1] == p.last());
}

proof fn lemma_rank_grows(p: Seq<i32>, rank: spec_fn(i32) -> int, i: int)
    requires
        1 <= i < p.len(),
        forall|k: int| 0 <= k < p.len() - 1 ==> #[trigger] rank(p[k]) < rank(p[k + 1]),
    ensures
        rank(p[0]) < rank(p[i]),
    decreases i,
{
    assert(rank(p[i - 1]) < rank(p[i]));
    if i > 1 {
        lemma_rank_grows(p, rank, i - 1);
    }
}

/// A vertex of `s` with `v` as a child.
pub open spec fn parent_in(ns: Seq<TopoView>, s: Seq<i32>, v: i32) -> i32 {
    choose|u: i32| s.contains(u) && succ(ns, u).contains(v)
}

/// The walk of `n` steps back from `v0` through parents in `s`.
pub open spec fn walk_back(ns: Seq<TopoView>, s: Seq<i32>, v0: i32, n: nat) -> Seq<i32>
    decreases n,
{
    if n == 0 {
        seq![v0]
    } else {
        let w = walk_back(ns, s, v0, (n - 1) as nat);
        w.push(parent_in(ns, s, w.last()))
    }
}

proof fn lemma_walk_back(ns: Seq<TopoView>, s: Seq<i32>, v0: i32, n: nat)
    requires
        s.contains(v0),
        forall|v: i32| #[trigger] s.contains(v) ==> exists|u: i32| s.contains(u) && succ(ns, u).contains(v),
    ensures
        walk_back(ns, s, v0, n).len() == n + 1,
        forall|k: int| 0 <= k < n + 1 ==> s.contains(#[trigger] walk_back(ns, s, v0, n)[k]),
        forall|k: int| 0 <= k < n ==> #[trigger] succ(ns, walk_back(ns, s, v0, n)[k + 1]).contains(walk_back(ns, s, v0, n)[k]),
    decreases n,
{
    if n > 0 {
        lemma_walk_back(ns, s, v0, (n - 1) as nat);
        let w = walk_back(ns, s, v0, (n - 1) as nat);
        let x = w.last();
        assert(s.contains(w[w.len() - 1]));
        assert(exists|u: i32| s.contains(u) && succ(ns, u).contains(x));
        let u = parent_in(ns, s, x);
        let w2 = w.push(u);
        assert(w2 == walk_back(ns, s, v0, n));
        assert forall|k: int| 0 <= k < n + 1 implies s.contains(#[trigger] w2[k]) by {
            if k < n {
                assert(w2[k] == w[k]);
            }
        }
        assert forall|k: int| 0 <= k < n implies #[trigger] succ(ns, w2[k + 1]).contains(w2[k]) by {
            if k < n - 1 {
                assert(w2[k + 1] == w[k + 1] && w2[k] == w[k]);
            } else {
                assert(w2[k] == x && w2[k + 1] == u);
            }
        }
    }
}

/// Pigeonhole: a sequence longer than `s` whose items all occur in `s` repeats an
/// item.
proof fn lemma_pigeonhole(w: Seq<i32>, s: Seq<i32>)
    requires
        w.len() > s.len(),
        forall|k: int| 0 <= k < w.len() ==> s.contains(#[trigger] w[k]),
    ensures
        !w.no_duplicates(),
{
    if w.no_duplicates() {
        w.unique_seq_to_set();
        s.lemma_cardinality_of_set();
        assert(w.to_set().subset_of(s.to_set())) by {
            assert forall|x: i32| w.to_set().contains(x) implies s.to_set().contains(x) by {
                let k = choose|k: int| 0 <= k < w.len() && w[k] == x;
                assert(s.contains(w[k]));
            }
        }
        vstd::set_lib::lemma_len_subset(w.to_set(), s.to_set());
    }
}

/// A backward walk that repeats a vertex closes a cycle.
proof fn lemma_cycle_from_walk(ns: Seq<TopoView>, w: Seq<i32>, a: int, b: int)
    requires
        0 <= a < b < w.len(),
        w[a] == w[b],
        forall|k: int| 0 <= k < w.len() - 1 ==> #[trigger] succ(ns, w[k + 1]).contains(w[k]),
    ensures
        has_cycle(ns),
{
    let p = Seq::new((b - a + 1) as nat, |t: int| w[b - t]);
    assert forall|t: int| 0 <= t < p.len() - 1 implies #[trigger] edge_at(ns, p, t) by {
        let k = b - t - 1;
        assert(p[t] == w[k + 1]);
        assert(p[t + 1] == w[k]);
        assert(succ(ns, w[k + 1]).contains(w[k]));
    }
    assert(p[0] == w[b]);
    assert(p.last() == w[a]);
    assert(is_cycle(ns, p));
}

/// When every vertex of a non-empty `s` has a parent in `s`, there is a cycle.
proof fn lemma_stuck_has_cycle(ns: Seq<TopoView>, s: Seq<i32>)
    requires
        s.len() > 0,
        forall|v: i32| #[trigger] s.contains(v) ==> exists|u: i32| s.contains(u) && succ(ns, u).contains(v),
    ensures
        has_cycle(ns),
{
    let v0 = s[0];
    assert(s.contains(v0));
    lemma_walk_back(ns, s, v0, s.len());
    let w = walk_back(ns, s, v0, s.len());
    lemma_pigeonhole(w, s);
    let (i, j) = choose|i: int, j: int| 0 <= i < w.len() && 0 <= j < w.len() && i != j && w[i] == w[j];
    if i < j {
        lemma_cycle_from_walk(ns, w, i, j);
    } else {
        lemma_cycle_from_walk(ns, w, j, i);
    }
}

/// Some vertex of `s` has `v` as a child.
pub open spec fn has_parent_in(ns: Seq<TopoView>, s: Seq<i32>, v: i32) -> bool {
    exists|q: int| 0 <= q < s.len() && succ(ns, s[q]).contains(v)
}

/// State of the peeling: `rem` and `removed` split the node ids between them, and
/// each removed id was removed after every node id that has it as a child.
pub open spec fn peel_inv(ns: Seq<TopoView>, rem: Seq<i32>, removed: Seq<i32>) -> bool {
    &&& rem.no_duplicates()
    &&& removed.no_duplicates()
    &&& forall|x: i32| #[trigger] rem.contains(x) ==> !removed.contains(x)
    &&& forall|x: i32| has_id(ns, x) ==> (#[trigger] rem.contains(x) || removed.contains(x))
    &&& forall|q: int| 0 <= q < rem.len() ==> has_id(ns, #[trigger] rem[q])
    &&& forall|k: int, u: i32|
        0 <= k < removed.len() && has_id(ns, u) && #[trigger] succ(ns, u).contains(#[trigger] removed[k])
            ==> exists|j: int| 0 <= j < k && removed[j] == u
}

/// Removing a vertex of `rem` that no vertex of `rem` has as a child keeps the
/// peeling state.
proof fn lemma_peel_step(ns: Seq<TopoView>, rem: Seq<i32>, removed: Seq<i32>, p: int)
    requires
        peel_inv(ns, rem, removed),
        0 <= p < rem.len(),
        !has_parent_in(ns, rem, rem[p]),
    ensures
        peel_inv(ns, rem.remove(p), removed.push(rem[p])),
{
    let v = rem[p];
    let r2 = rem.remove(p);
    let d2 = removed.push(v);
    assert forall|x: i32| #[trigger] r2.contains(x) implies !d2.contains(x) by {
        let q = choose|q: int| 0 <= q < r2.len() && r2[q] == x;
        let bq = if q < p { q } else { q + 1 };
        assert(rem[bq] == x);
        assert(rem.contains(x));
        if d2.contains(x) {
            let j = choose|j: int| 0 <= j < d2.len() && d2[j] == x;
            if j < removed.len() {
                assert(removed[j] == x);
            } else {
                assert(bq != p);
            }
        }
    }
    assert forall|x: i32| has_id(ns, x) implies (#[trigger] r2.contains(x) || d2.contains(x)) by {
        if rem.contains(x) {
            let q = choose|q: int| 0 <= q < rem.len() && rem[q] == x;
            if q < p {
                assert(r2[q] == x);
            } else if q > p {
                assert(r2[q - 1] == x);
            } else {
                assert(d2[d2.len() - 1] == x);
            }
        } else {
            let j = choose|j: int| 0 <= j < removed.len() && removed[j] == x;
            assert(d2[j] == x);
        }
    }
    assert forall|i: int, j: int| 0 <= i < d2.len() && 0 <= j < d2.len() && i != j implies d2[i] != d2[j] by {
        if i == d2.len() - 1 || j == d2.len() - 1 {
            let o = if i == d2.len() - 1 { j } else { i };
            assert(d2[o] == removed[o]);
            assert(rem.contains(v));
            assert(removed.contains(removed[o]));
        }
    }
    assert forall|i: int, j: int| 0 <= i < r2.len() && 0 <= j < r2.len() && i != j implies r2[i] != r2[j] by {
        let bi = if i < p { i } else { i + 1 };
        let bj = if j < p { j } else { j + 1 };
        assert(r2[i] == rem[bi] && r2[j] == rem[bj]);
    }
    assert forall|q: int| 0 <= q < r2.len() implies has_id(ns, #[trigger] r2[q]) by {
        let bq = if q < p { q } else { q + 1 };
        assert(r2[q] == rem[bq]);
    }
    assert forall|k: int, u: i32|
        0 <= k < d2.len() && has_id(ns, u) && #[trigger] succ(ns, u).contains(#[trigger] d2[k]) implies exists|j: int|
        0 <= j < k && d2[j] == u by {
        if k < removed.len() {
            assert(d2[k] == removed[k]);
            let j = choose|j: int| 0 <= j < k && removed[j] == u;
            assert(d2[j] == u);
        } else {
            assert(d2[k] == v);
            if rem.contains(u) {
                let q = choose|q: int| 0 <= q < rem.len() && rem[q] == u;
                assert(succ(ns, rem[q]).contains(v));
                assert(has_parent_in(ns, rem, rem[p]));
            }
            assert(removed.contains(u));
            let j = choose|j: int| 0 <= j < removed.len() && removed[j] == u;
            assert(d2[j] == u);
        }
    }
}

/// Whether the graph of the nodes has a cycle (every child being a node): peel off,
/// one at a time, a vertex that no remaining vertex has as a child; a cycle exists
/// exactly when the peeling gets stuck.
fn detect_cycle(nodes: &Vec<TopologyNode>) -> (b: bool)
    requires
        forall|c: i32| #[trigger] all_children(vnodes(nodes@)).contains(c) ==> has_id(vnodes(nodes@), c),
    ensures
        b == has_cycle(vnodes(nodes@)),
{
    let ghost ns = vnodes(nodes@);
    let mut remaining = distinct_ids(nodes);
    let mut removed: Vec<i32> = Vec::new();
    proof {
        lemma_dedup_by_seen(ids_of(ns), same_i32());
        lemma_dedup_by_distinct(ids_of(ns), same_i32());
        lemma_dedup_by_items(ids_of(ns), same_i32());
        assert forall|x: i32| has_id(ns, x) implies #[trigger] remaining@.contains(x) || removed@.contains(x) by {
            let k = choose|k: int| 0 <= k < ns.len() && (#[trigger] ns[k]).id == x;
            assert(ids_of(ns)[k] == x);
            assert(seen(ids_of(ns), same_i32(), x));
            let q = choose|q: int| 0 <= q < remaining@.len() && same_i32()(remaining@[q]) == x;
            assert(remaining@[q] == x);
        }
        assert forall|q: int| 0 <= q < remaining@.len() implies has_id(ns, #[trigger] remaining@[q]) by {
            let k = choose|k: int| 0 <= k < ids_of(ns).len() && ids_of(ns)[k] == remaining@[q];
            assert(ns[k].id == remaining@[q]);
        }
        assert forall|i: int, j: int| 0 <= i < remaining@.len() && 0 <= j < remaining@.len() && i != j implies remaining@[i]
            != remaining@[j] by {
            if i < j {
                assert(same_i32()(remaining@[i]) != same_i32()(remaining@[j]));
            } else {
                assert(same_i32()(remaining@[j]) != same_i32()(remaining@[i]));
            }
        }
        assert(peel_inv(ns, remaining@, removed@));
    }
    while remaining.len() > 0
        invariant
            ns == vnodes(nodes@),
            forall|c: i32| #[trigger] all_children(ns).contains(c) ==> has_id(ns, c),
            peel_inv(ns, remaining@, removed@),
        decreases remaining@.len(),
    {
        // the first remaining vertex that no remaining vertex has as a child
        let mut chosen: Option<usize> = None;
        let mut p: usize = 0;
        while p < remaining.len()
            invariant
                ns == vnodes(nodes@),
                p <= remaining.len(),
                chosen matches Some(f) ==> f < remaining.len() && !has_parent_in(ns, remaining@, remaining@[f as int]),
                chosen is None ==> forall|t: int| 0 <= t < p ==> #[trigger] has_parent_in(ns, remaining@, remaining@[t]),
            decreases remaining.len() - p,
        {
            if chosen.is_none() {
                let v = remaining[p];
                let mut has_parent = false;
                let mut q: usize = 0;
                while q < remaining.len()
                    invariant
                        ns == vnodes(nodes@),
                        q <= remaining.len(),
                        p < remaining.len(),
                        v == remaining@[p as int],
                        has_parent ==> has_parent_in(ns, remaining@, v),
                        !has_parent ==> forall|r: int| 0 <= r < q ==> !#[trigger] succ(ns, remaining@[r]).contains(v),
                    decreases remaining.len() - q,
                {
                    if child_of(nodes, remaining[q], v) {
                        has_parent = true;
                    }
                    q = q + 1;
                }
                if !has_parent {
                    chosen = Some(p);
                }
            }
            p = p + 1;
        }
        match chosen {
            None => {
                proof {
                    assert forall|v: i32| #[trigger] remaining@.contains(v) implies exists|u: i32|
                        remaining@.contains(u) && succ(ns, u).contains(v) by {
                        let t = choose|t: int| 0 <= t < remaining@.len() && remaining@[t] == v;
                        assert(has_parent_in(ns, remaining@, remaining@[t]));
                        let q = choose|q: int| 0 <= q < remaining@.len() && succ(ns, remaining@[q]).contains(v);
                        assert(remaining@.contains(remaining@[q]));
                    }
                    lemma_stuck_has_cycle(ns, remaining@);
                }
                return true;
            },
            Some(p) => {
                proof {
                    lemma_peel_step(ns, remaining@, removed@, p as int);
                }
                let ghost before = remaining@;
                let v = remaining.remove(p);
                removed.push(v);
                assert(remaining@ == before.remove(p as int));
            },
        }
    }
    proof {
        if has_cycle(ns) {
            let p = choose|p: Seq<i32>| is_cycle(ns, p);
            assert forall|x: i32| has_id(ns, x) implies #[trigger] removed@.contains(x) by {
                assert(!remaining@.contains(x));
            }
            lemma_ranked_no_cycle(ns, removed@, p);
        }
    }
    false
}

/// Whether `c` is a child of the first node with id `u`.
fn child_of(nodes: &Vec<TopologyNode>, u: i32, c: i32) -> (b: bool)
    ensures
        b == succ(vnodes(nodes@), u).contains(c),
{
    let ghost ns = vnodes(nodes@);
    let mut i: usize = 0;
    assert(ns.skip(0) =~= ns);
    while i < nodes.len()
        invariant
            i <= nodes.len(),
            ns == vnodes(nodes@),
            succ(ns, u) == succ(ns.skip(i as int), u),
        decreases nodes.len() - i,
    {
        assert(ns.skip(i as int)[0] == nodes@[i as int]@);
        if nodes[i].id == u {
            let ch = &nodes[i].children;
            assert(succ(ns, u) == ch@);
            let mut j: usize = 0;
            while j < ch.len()
                invariant
                    j <= ch.len(),
                    ns == vnodes(nodes@),
                    succ(ns, u) == ch@,
                    forall|q: int| 0 <= q < j ==> ch@[q] != c,
                decreases ch.len() - j,
            {
                if ch[j] == c {
                    assert(ch@.contains(c));
                    return true;
                }
                j = j + 1;
            }
            return false;
        }
        assert(ns.skip(i as int).drop_first() =~= ns.skip(i + 1));
        i = i + 1;
    }
    assert(ns.skip(nodes.len() as int).len() == 0);
    false
}

impl TopologyParser {
    /// Validate the topology: the root must exist, every child must exist, and the
    /// graph must have no cycle.
    pub fn validate(topology: &TopologyGraph) -> (r: Result<(), ParseError>)
        ensures
            match r {
                Ok(()) => spec_validate(topology.root_id, vnodes(topology.nodes@)) == Ok::<(), Seq<char>>(()),
                Err(e) => spec_validate(topology.root_id, vnodes(topology.nodes@)) == Err::<(), Seq<char>>(e.msg()),
            },
    {
        let ghost ns = vnodes(topology.nodes@);
        let nodes = &topology.nodes;
        if !crate::topology::has_id_exec(nodes, topology.root_id) {
            let mut m = String::from_str("Root node ");
            let t = i64_to_string(topology.root_id as i64);
            push_str(&mut m, t.as_str());
            push_str(&mut m, " not found");
            return Err(ParseError::TopologyError(m));
        }
        // every child exists
        let mut i: usize = 0;
        assert(ns.take(0) =~= Seq::<TopoView>::empty());
        while i < nodes.len()
            invariant
                i <= nodes.len(),
                ns == vnodes(nodes@),
                has_id(ns, topology.root_id),
                nodes == &topology.nodes,
                first_missing(all_children(ns.take(i as int)), ns) is None,
            decreases nodes.len() - i,
        {
            let ch = &nodes[i].children;
            let ghost base = all_children(ns.take(i as int));
            let mut j: usize = 0;
            assert(base + ch@.take(0) =~= base);
            while j < ch.len()
                invariant
                    j <= ch.len(),
                    i < nodes.len(),
                    ns == vnodes(nodes@),
                    has_id(ns, topology.root_id),
                    nodes == &topology.nodes,
                    base == all_children(ns.take(i as int)),
                    ch@ == ns[i as int].children,
                    first_missing(base + ch@.take(j as int), ns) is None,
                decreases ch.len() - j,
            {
                let c = ch[j];
                proof {
                    lemma_first_missing_push(base + ch@.take(j as int), c, ns);
                    assert(base + ch@.take(j + 1) =~= (base + ch@.take(j as int)).push(c));
                }
                if !crate::topology::has_id_exec(nodes, c) {
                    proof {
                        let pre = base + ch@.take(j + 1);
                        lemma_all_children_concat(ns.take(i as int), ns.skip(i as int));
                        assert(ns.take(i as int) + ns.skip(i as int) =~= ns);
                        let rest = ns.skip(i + 1);
                        lemma_all_children_concat(seq![ns[i as int]], rest);
                        assert(seq![ns[i as int]] + rest =~= ns.skip(i as int));
                        assert(seq![ns[i as int]].drop_last() =~= Seq::<TopoView>::empty());
                        assert(seq![ns[i as int]].last() == ns[i as int]);
                        assert(all_children(Seq::<TopoView>::empty()) =~= Seq::<i32>::empty());
                        assert(all_children(seq![ns[i as int]]) =~= ch@);
                        let all = all_children(ns);
                        assert(all == base + (ch@ + all_children(rest)));
                        assert(all.take(pre.len() as int) =~= pre);
                        lemma_first_missing_prefix(all, pre, ns, i as int, j + 1);
                    }
                    let mut m = String::from_str("Child node ");
                    let t = i64_to_string(c as i64);
                    push_str(&mut m, t.as_str());
                    push_str(&mut m, " referenced but not found");
                    return Err(ParseError::TopologyError(m));
                }
                j = j + 1;
            }
            proof {
                let t = ns.take(i + 1);
                assert(t.drop_last() =~= ns.take(i as int));
                assert(t.last() == nodes@[i as int]@);
                assert(ch@.take(ch.len() as int) =~= ch@);
            }
            i = i + 1;
        }
        assert(ns.take(nodes.len() as int) =~= ns);
        proof {
            lemma_no_missing(all_children(ns), ns);
        }
        if detect_cycle(nodes) {
            return Err(ParseError::TopologyError(String::from_str("Cycle detected in topology graph")));
        }
        Ok(())
    }
}

proof fn lemma_all_children_concat(a: Seq<TopoView>, b: Seq<TopoView>)
    ensures
        all_children(a + b) == all_children(a) + all_children(b),
    decreases b.len(),
{
    if b.len() == 0 {
        assert(a + b =~= a);
        assert(all_children(a) + Seq::<i32>::empty() =~= all_children(a));
    } else {
        assert((a + b).drop_last() =~= a + b.drop_last());
        assert((a + b).last() == b.last());
        lemma_all_children_concat(a, b.drop_last());
        assert(all_children(a) + all_children(b) =~= all_children(a) + all_children(b.drop_last()) + b.last().children);
    }
}

proof fn lemma_first_missing_push(cs: Seq<i32>, c: i32, ns: Seq<TopoView>)
    requires
        first_missing(cs, ns) is None,
    ensures
        first_missing(cs.push(c), ns) == (if has_id(ns, c) { None } else { Some(c) }),
    decreases cs.len(),
{
    if cs.len() == 0 {
        assert(cs.push(c).drop_first() =~= Seq::<i32>::empty());
    } else {
        assert(cs.push(c).drop_first() =~= cs.drop_first().push(c));
        lemma_first_missing_push(cs.drop_first(), c, ns);
    }
}

/// When a prefix of the children already holds a missing child, the first missing
/// child of all of them is the one of the prefix.
proof fn lemma_first_missing_prefix(all: Seq<i32>, pre: Seq<i32>, ns: Seq<TopoView>, i: int, j: int)
    requires
        first_missing(pre, ns) is Some,
        pre.len() <= all.len(),
        all.take(pre.len() as int) == pre,
    ensures
        first_missing(all, ns) == first_missing(pre, ns),
    decreases pre.len(),
{
    assert(all[0] == pre[0]);
    if has_id(ns, pre[0]) {
        assert(all.drop_first().take(pre.drop_first().len() as int) =~= pre.drop_first());
        lemma_first_missing_prefix(all.drop_first(), pre.drop_first(), ns, i, j);
    }
}

proof fn lemma_no_missing(cs: Seq<i32>, ns: Seq<TopoView>)
    requires
        first_missing(cs, ns) is None,
    ensures
        forall|c: i32| #[trigger] cs.contains(c) ==> has_id(ns, c),
    decreases cs.len(),
{
    if cs.len() > 0 {
        lemma_no_missing(cs.drop_first(), ns);
        assert(has_id(ns, cs[0]));
        assert forall|c: i32| #[trigger] cs.contains(c) implies has_id(ns, c) by {
            let q = choose|q: int| 0 <= q < cs.len() && cs[q] == c;
            if q > 0 {
                assert(cs.drop_first()[q - 1] == c);
                assert(cs.drop_first().contains(c));
            }
        }
    }
}

} // verus!
