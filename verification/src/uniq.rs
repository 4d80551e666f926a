//! Keeping the first item of each key: the specification shared by the
//! deduplicating passes of the analysis, and its laws.
use vstd::prelude::*;
use crate::model::{vstr, lemma_vstr_push};
use crate::text::str_eq;

verus! {

/// Whether some item of `s` has key `k`.
pub open spec fn seen<A, K>(s: Seq<A>, key: spec_fn(A) -> K, k: K) -> bool {
    exists|j: int| 0 <= j < s.len() && key(s[j]) == k
}

/// The items of `s` whose key did not occur earlier in `s`, in their order.
pub open spec fn dedup_by<A, K>(s: Seq<A>, key: spec_fn(A) -> K) -> Seq<A>
    decreases s.len(),
{
    if s.len() == 0 {
        s
    } else {
        let p = dedup_by(s.drop_last(), key);
        if seen(s.drop_last(), key, key(s.last())) {
            p
        } else {
            p.push(s.last())
        }
    }
}

/// One step of `dedup_by`: the prefix of length `i + 1` in terms of the prefix of
/// length `i`.
pub proof fn lemma_dedup_by_step<A, K>(s: Seq<A>, key: spec_fn(A) -> K, i: int)
    requires
        0 <= i < s.len(),
    ensures
        dedup_by(s.take(i + 1), key) == (if seen(s.take(i), key, key(s[i])) {
            dedup_by(s.take(i), key)
        } else {
            dedup_by(s.take(i), key).push(s[i])
        }),
{
    assert(s.take(i + 1).drop_last() =~= s.take(i));
    assert(s.take(i + 1).last() == s[i]);
}

/// A key occurs in `s` exactly when it occurs in `dedup_by(s, key)`.
pub proof fn lemma_dedup_by_seen<A, K>(s: Seq<A>, key: spec_fn(A) -> K)
    ensures
        forall|k: K| #[trigger] seen(s, key, k) == seen(dedup_by(s, key), key, k),
    decreases s.len(),
{
    if s.len() > 0 {
        let t = s.drop_last();
        lemma_dedup_by_seen(t, key);
        let p = dedup_by(t, key);
        assert forall|k: K| #[trigger] seen(s, key, k) == seen(dedup_by(s, key), key, k) by {
            if seen(s, key, k) {
                let j = choose|j: int| 0 <= j < s.len() && key(s[j]) == k;
                if j < s.len() - 1 {
                    assert(t[j] == s[j]);
                    assert(seen(t, key, k));
                    assert(seen(p, key, k));
                    let q = choose|q: int| 0 <= q < p.len() && key(p[q]) == k;
                    if !seen(t, key, key(s.last())) {
                        assert(p.push(s.last())[q] == p[q]);
                    }
                } else {
                    if seen(t, key, key(s.last())) {
                        assert(seen(p, key, k));
                    } else {
                        assert(p.push(s.last())[p.len() as int] == s.last());
                    }
                }
            }
            if seen(dedup_by(s, key), key, k) {
                let r = dedup_by(s, key);
                let q = choose|q: int| 0 <= q < r.len() && key(r[q]) == k;
                if seen(t, key, key(s.last())) {
                    assert(seen(p, key, k));
                    assert(seen(t, key, k));
                    let j = choose|j: int| 0 <= j < t.len() && key(t[j]) == k;
                    assert(s[j] == t[j]);
                } else if q < p.len() {
                    assert(r[q] == p[q]);
                    assert(seen(p, key, k));
                    assert(seen(t, key, k));
                    let j = choose|j: int| 0 <= j < t.len() && key(t[j]) == k;
                    assert(s[j] == t[j]);
                } else {
                    assert(r[q] == s.last());
                    assert(key(s[s.len() - 1]) == k);
                }
            }
        }
    }
}

/// No two items of `dedup_by(s, key)` share a key.
pub proof fn lemma_dedup_by_distinct<A, K>(s: Seq<A>, key: spec_fn(A) -> K)
    ensures
        forall|i: int, j: int|
            0 <= i < j < dedup_by(s, key).len() ==> key(#[trigger] dedup_by(s, key)[i]) != key(
                #[trigger] dedup_by(s, key)[j],
            ),
    decreases s.len(),
{
    if s.len() > 0 {
        let t = s.drop_last();
        lemma_dedup_by_distinct(t, key);
        lemma_dedup_by_seen(t, key);
        let p = dedup_by(t, key);
        let r = dedup_by(s, key);
        if !seen(t, key, key(s.last())) {
            assert forall|i: int, j: int| 0 <= i < j < r.len() implies key(#[trigger] r[i]) != key(
                #[trigger] r[j],
            ) by {
                assert(r[i] == p[i]);
                if j < p.len() {
                    assert(r[j] == p[j]);
                } else {
                    assert(r[j] == s.last());
                    if key(p[i]) == key(s.last()) {
                        assert(seen(p, key, key(s.last())));
                    }
                }
            }
        }
    }
}

/// Every item of `dedup_by(s, key)` is an item of `s`.
pub proof fn lemma_dedup_by_items<A, K>(s: Seq<A>, key: spec_fn(A) -> K)
    ensures
        dedup_by(s, key).len() <= s.len(),
        forall|i: int|
            0 <= i < dedup_by(s, key).len() ==> exists|j: int|
                0 <= j < s.len() && s[j] == #[trigger] dedup_by(s, key)[i],
    decreases s.len(),
{
    if s.len() > 0 {
        let t = s.drop_last();
        lemma_dedup_by_items(t, key);
        let p = dedup_by(t, key);
        let r = dedup_by(s, key);
        assert forall|i: int| 0 <= i < r.len() implies exists|j: int|
            0 <= j < s.len() && s[j] == #[trigger] r[i] by {
            if i < p.len() {
                assert(r[i] == p[i]);
                let j = choose|j: int| 0 <= j < t.len() && t[j] == p[i];
                assert(s[j] == t[j]);
            } else {
                assert(r[i] == s[s.len() - 1]);
            }
        }
    }
}

/// `dedup_by` keeps the order of `s`: if `s` is ordered by decreasing `rank`, so is
/// the result.
pub proof fn lemma_dedup_by_sorted<A, K>(s: Seq<A>, key: spec_fn(A) -> K, rank: spec_fn(A) -> int)
    requires
        forall|i: int, j: int| 0 <= i < j < s.len() ==> rank(#[trigger] s[i]) >= rank(#[trigger] s[j]),
    ensures
        forall|i: int, j: int|
            0 <= i < j < dedup_by(s, key).len() ==> rank(#[trigger] dedup_by(s, key)[i]) >= rank(
                #[trigger] dedup_by(s, key)[j],
            ),
    decreases s.len(),
{
    if s.len() > 0 {
        let t = s.drop_last();
        assert forall|i: int, j: int| 0 <= i < j < t.len() implies rank(#[trigger] t[i]) >= rank(
            #[trigger] t[j],
        ) by {
            assert(t[i] == s[i] && t[j] == s[j]);
        }
        lemma_dedup_by_sorted(t, key, rank);
        lemma_dedup_by_items(t, key);
        let p = dedup_by(t, key);
        let r = dedup_by(s, key);
        if !seen(t, key, key(s.last())) {
            assert forall|i: int, j: int| 0 <= i < j < r.len() implies rank(#[trigger] r[i]) >= rank(
                #[trigger] r[j],
            ) by {
                assert(r[i] == p[i]);
                if j < p.len() {
                    assert(r[j] == p[j]);
                } else {
                    assert(r[j] == s[s.len() - 1]);
                    let q = choose|q: int| 0 <= q < t.len() && t[q] == #[trigger] p[i];
                    assert(s[q] == t[q]);
                }
            }
        }
    }
}

/// Texts compared as themselves.
pub open spec fn same_text() -> spec_fn(Seq<char>) -> Seq<char> {
    |s: Seq<char>| s
}

/// Appends a copy of `s` to `out` unless `out` already holds an equal text: one step
/// of keeping the first occurrence of each text of `acc.push(s)`.
pub(crate) fn push_new_text(out: &mut Vec<String>, s: &String, Ghost(acc): Ghost<Seq<Seq<char>>>)
    requires
        vstr(old(out)@) == dedup_by(acc, same_text()),
    ensures
        vstr(final(out)@) == dedup_by(acc.push(s@), same_text()),
{
    let mut found = false;
    let mut j: usize = 0;
    while j < out.len()
        invariant
            j <= out.len(),
            found == exists|q: int| 0 <= q < j && (#[trigger] out@[q])@ == s@,
        decreases out.len() - j,
    {
        if str_eq(out[j].as_str(), s.as_str()) {
            found = true;
        }
        j = j + 1;
    }
    proof {
        lemma_dedup_by_seen(acc, same_text());
        let nxt = acc.push(s@);
        assert(nxt.drop_last() =~= acc);
        let d = dedup_by(acc, same_text());
        if found {
            let q = choose|q: int| 0 <= q < out@.len() && (#[trigger] out@[q])@ == s@;
            assert(d[q] == out@[q]@);
            assert(seen(d, same_text(), s@));
        }
        if seen(d, same_text(), s@) {
            let q = choose|q: int| 0 <= q < d.len() && same_text()(d[q]) == s@;
            assert(d[q] == out@[q]@);
        }
    }
    if !found {
        let c = s.clone();
        proof {
            lemma_vstr_push(out@, c);
        }
        out.push(c);
    }
}

/// Appends the texts of `v` that `out` does not hold yet, in order: the first
/// occurrences of `acc` followed by `v`.
pub(crate) fn push_new_texts(out: &mut Vec<String>, v: &Vec<String>, Ghost(acc): Ghost<Seq<Seq<char>>>)
    requires
        vstr(old(out)@) == dedup_by(acc, same_text()),
    ensures
        vstr(final(out)@) == dedup_by(acc + vstr(v@), same_text()),
{
    let mut j: usize = 0;
    let ghost mut cur = acc;
    assert(acc + vstr(v@).take(0) =~= acc);
    while j < v.len()
        invariant
            j <= v.len(),
            cur == acc + vstr(v@).take(j as int),
            vstr(out@) == dedup_by(cur, same_text()),
        decreases v.len() - j,
    {
        push_new_text(out, &v[j], Ghost(cur));
        proof {
            assert(vstr(v@).take(j + 1) =~= vstr(v@).take(j as int).push(v@[j as int]@));
            cur = cur.push(v@[j as int]@);
            assert(cur =~= acc + vstr(v@).take(j + 1));
        }
        j = j + 1;
    }
    assert(vstr(v@).take(v.len() as int) =~= vstr(v@));
}

} // verus!
