//! Query profiles as the cluster lists and serves them: the profile list without
//! aborted queries, the statement that fetches one profile and how its result is
//! read, and the session variables fetched to tailor recommendations.
use vstd::prelude::*;
use vstd::string::*;
use crate::text::trim_seq;
use crate::model::vstr;
use crate::metrics::push_str;
use crate::error::ApiError;
use crate::rules::{eq_ignore_ascii_case, eq_ignore_case};

verus! {

/// One query of the profile list.
pub struct ProfileListItem {
    pub query_id: String,
    pub start_time: String,
    pub time: String,
    pub state: String,
    pub statement: String,
}

/// The value of a list entry: query id, start time, time, state, statement.
pub open spec fn item_view(i: ProfileListItem) -> Seq<Seq<char>> {
    seq![i.query_id@, i.start_time@, i.time@, i.state@, i.statement@]
}

/// Cell `k` of a result row, empty when the row is shorter.
pub open spec fn cell_at(row: Seq<Seq<char>>, k: int) -> Seq<char> {
    if 0 <= k < row.len() {
        row[k]
    } else {
        Seq::empty()
    }
}

/// A row of `SHOW PROFILELIST` (query id, start time, time, state, statement) is kept
/// unless its state reads `aborted` in any case.
pub open spec fn listed(row: Seq<Seq<char>>) -> bool {
    !eq_ignore_ascii_case(cell_at(row, 3), "aborted"@)
}

/// The entries of the listed rows, in row order.
pub open spec fn spec_profile_list(rows: Seq<Seq<Seq<char>>>) -> Seq<Seq<Seq<char>>>
    decreases rows.len(),
{
    if rows.len() == 0 {
        Seq::empty()
    } else {
        let row = rows.last();
        let rest = spec_profile_list(rows.drop_last());
        if listed(row) {
            rest.push(seq![cell_at(row, 0), cell_at(row, 1), cell_at(row, 2), cell_at(row, 3), cell_at(row, 4)])
        } else {
            rest
        }
    }
}

fn cell_exec(row: &Vec<String>, k: usize) -> (r: String)
    ensures
        r@ == cell_at(vstr(row@), k as int),
{
    if k < row.len() {
        assert(vstr(row@)[k as int] == row@[k as int]@);
        row[k].clone()
    } else {
        String::new()
    }
}

/// The profile list of a `SHOW PROFILELIST` result, without aborted queries.
pub fn profile_list_items(rows: &Vec<Vec<String>>) -> (r: Vec<ProfileListItem>)
    ensures
        r@.map_values(|i: ProfileListItem| item_view(i)) == spec_profile_list(rows@.map_values(
            |row: Vec<String>| vstr(row@),
        )),
{
    let ghost rs = rows@.map_values(|row: Vec<String>| vstr(row@));
    let mut out: Vec<ProfileListItem> = Vec::new();
    let mut i: usize = 0;
    while i < rows.len()
        invariant
            i <= rows.len(),
            rs == rows@.map_values(|row: Vec<String>| vstr(row@)),
            out@.map_values(|it: ProfileListItem| item_view(it)) == spec_profile_list(rs.take(i as int)),
        decreases rows.len() - i,
    {
        let row = &rows[i];
        proof {
            assert(rs.take(i + 1).drop_last() =~= rs.take(i as int));
            assert(rs.take(i + 1).last() == vstr(row@));
        }
        let state = cell_exec(row, 3);
        if !eq_ignore_case(state.as_str(), "aborted") {
            let item = ProfileListItem {
                query_id: cell_exec(row, 0),
                start_time: cell_exec(row, 1),
                time: cell_exec(row, 2),
                state,
                statement: cell_exec(row, 4),
            };
            proof {
                assert(out@.push(item).map_values(|it: ProfileListItem| item_view(it)) =~= out@.map_values(
                    |it: ProfileListItem| item_view(it),
                ).push(item_view(item)));
            }
            out.push(item);
        }
        i = i + 1;
    }
    assert(rs.take(rs.len() as int) =~= rs);
    out
}

/// The statement that fetches a query's profile.
pub fn profile_query_sql(query_id: &str) -> (s: String)
    ensures
        s@ == "SELECT get_query_profile('"@ + query_id@ + "')"@,
{
    let mut s = String::from_str("SELECT get_query_profile('");
    push_str(&mut s, query_id);
    push_str(&mut s, "')");
    s
}

/// The profile text of a `get_query_profile` result: the first cell of the first row;
/// blank or missing text means the cluster has no profile for the query.
pub open spec fn spec_profile_content(rows: Seq<Seq<Seq<char>>>) -> Option<Seq<char>> {
    let c = if rows.len() > 0 && rows[0].len() > 0 {
        rows[0][0]
    } else {
        Seq::empty()
    };
    if trim_seq(c).len() == 0 {
        None
    } else {
        Some(c)
    }
}

/// The profile text of a `get_query_profile` result, or the not-found error.
pub fn profile_content_of(rows: &Vec<Vec<String>>, query_id: &str) -> (r: Result<String, ApiError>)
    ensures
        match spec_profile_content(rows@.map_values(|row: Vec<String>| vstr(row@))) {
            Some(c) => r matches Ok(t) && t@ == c,
            None => r matches Err(ApiError::ResourceNotFound(m)) && m@ == "Profile not found for query: "@
                + query_id@,
        },
{
    let ghost rs = rows@.map_values(|row: Vec<String>| vstr(row@));
    let content = if rows.len() > 0 && rows[0].len() > 0 {
        assert(rs[0] == vstr(rows@[0]@));
        assert(rs[0][0] == rows@[0]@[0]@);
        rows[0][0].clone()
    } else {
        String::new()
    };
    let t = crate::text::str_trim(content.as_str());
    if t.unicode_len() == 0 {
        let mut m = String::from_str("Profile not found for query: ");
        push_str(&mut m, query_id);
        return Err(ApiError::not_found(m));
    }
    Ok(content)
}

/// The session variables fetched for recommendations.
pub open spec fn cluster_variable_names() -> Seq<Seq<char>> {
    seq![
        "query_mem_limit"@,
        "query_timeout"@,
        "enable_spill"@,
        "pipeline_dop"@,
        "parallel_fragment_exec_instance_num"@,
        "io_tasks_per_scan_operator"@,
        "enable_global_runtime_filter"@,
        "runtime_join_filter_push_down_limit"@,
        "enable_scan_datacache"@,
        "enable_populate_datacache"@,
        "enable_query_cache"@,
        "pipeline_profile_level"@,
    ]
}

/// The quoted, comma-separated names.
pub open spec fn quoted_list(names: Seq<Seq<char>>) -> Seq<char>
    decreases names.len(),
{
    if names.len() == 0 {
        Seq::empty()
    } else if names.len() == 1 {
        "'"@ + names[0] + "'"@
    } else {
        quoted_list(names.drop_last()) + ","@ + "'"@ + names.last() + "'"@
    }
}

/// `SHOW VARIABLES` restricted to some names.
pub fn show_variables_sql(names: &[&str]) -> (s: String)
    ensures
        s@ == "SHOW VARIABLES WHERE Variable_name IN \u{28}"@ + quoted_list(names@.map_values(|n: &str| n@))
            + "\u{29}"@,
{
    let ghost ns = names@.map_values(|n: &str| n@);
    let mut s = String::from_str("SHOW VARIABLES WHERE Variable_name IN \u{28}");
    let ghost head = s@;
    let mut i: usize = 0;
    while i < names.len()
        invariant
            i <= names.len(),
            ns == names@.map_values(|n: &str| n@),
            s@ == head + quoted_list(ns.take(i as int)),
        decreases names.len() - i,
    {
        proof {
            assert(ns.take(i + 1).drop_last() =~= ns.take(i as int));
            assert(ns.take(i + 1).last() == names@[i as int]@);
        }
        if i > 0 {
            push_str(&mut s, ",");
        }
        push_str(&mut s, "'");
        push_str(&mut s, names[i]);
        push_str(&mut s, "'");
        proof {
            if i == 0 {
                assert(ns.take(0) =~= Seq::<Seq<char>>::empty());
                assert(quoted_list(ns.take(1)) == "'"@ + ns.take(1)[0] + "'"@);
                assert(s@ =~= head + quoted_list(ns.take(1)));
            } else {
                assert(s@ =~= head + quoted_list(ns.take(i + 1)));
            }
        }
        i = i + 1;
    }
    assert(ns.take(ns.len() as int) =~= ns);
    push_str(&mut s, "\u{29}");
    s
}

/// The statement that fetches the recommendation variables.
pub fn cluster_variables_sql() -> (s: String)
    ensures
        s@ == "SHOW VARIABLES WHERE Variable_name IN \u{28}"@ + quoted_list(cluster_variable_names()) + "\u{29}"@,
{
    let names: [&str; 12] = [
        "query_mem_limit",
        "query_timeout",
        "enable_spill",
        "pipeline_dop",
        "parallel_fragment_exec_instance_num",
        "io_tasks_per_scan_operator",
        "enable_global_runtime_filter",
        "runtime_join_filter_push_down_limit",
        "enable_scan_datacache",
        "enable_populate_datacache",
        "enable_query_cache",
        "pipeline_profile_level",
    ];
    let s = show_variables_sql(&names);
    assert(names@.map_values(|n: &str| n@) =~= cluster_variable_names());
    s
}

/// The variables of a `SHOW VARIABLES` result: name and value of each row with at
/// least two cells; a later row for a name replaces an earlier one.
pub open spec fn spec_variables(rows: Seq<Seq<Seq<char>>>) -> Map<Seq<char>, Seq<char>>
    decreases rows.len(),
{
    if rows.len() == 0 {
        Map::empty()
    } else {
        let row = rows.last();
        let rest = spec_variables(rows.drop_last());
        if row.len() >= 2 {
            rest.insert(row[0], row[1])
        } else {
            rest
        }
    }
}

/// The view of name/value pairs with distinct names as a map.
pub open spec fn pairs_map(v: Seq<(String, String)>) -> Map<Seq<char>, Seq<char>>
    decreases v.len(),
{
    if v.len() == 0 {
        Map::empty()
    } else {
        pairs_map(v.drop_last()).insert(v.last().0@, v.last().1@)
    }
}

/// The variables of a `SHOW VARIABLES` result as name/value pairs: each name once,
/// in the order names first appear, with its last value.
pub fn variables_from_rows(rows: &Vec<Vec<String>>) -> (r: Vec<(String, String)>)
    ensures
        pairs_map(r@) == spec_variables(rows@.map_values(|row: Vec<String>| vstr(row@))),
        forall|i: int, j: int| 0 <= i < j < r@.len() ==> r@[i].0@ != r@[j].0@,
{
    let ghost rs = rows@.map_values(|row: Vec<String>| vstr(row@));
    let mut out: Vec<(String, String)> = Vec::new();
    let mut i: usize = 0;
    while i < rows.len()
        invariant
            i <= rows.len(),
            rs == rows@.map_values(|row: Vec<String>| vstr(row@)),
            pairs_map(out@) == spec_variables(rs.take(i as int)),
            forall|a: int, b: int| 0 <= a < b < out@.len() ==> out@[a].0@ != out@[b].0@,
        decreases rows.len() - i,
    {
        let row = &rows[i];
        proof {
            assert(rs.take(i + 1).drop_last() =~= rs.take(i as int));
            assert(rs.take(i + 1).last() == vstr(row@));
        }
        if row.len() >= 2 {
            let name = row[0].clone();
            let value = row[1].clone();
            assert(vstr(row@)[0] == row@[0]@ && vstr(row@)[1] == row@[1]@);
            put_pair(&mut out, name, value);
        }
        i = i + 1;
    }
    assert(rs.take(rs.len() as int) =~= rs);
    out
}

proof fn lemma_pairs_map_set(v: Seq<(String, String)>, k: int, p: (String, String))
    requires
        0 <= k < v.len(),
        v[k].0@ == p.0@,
        forall|a: int, b: int| 0 <= a < b < v.len() ==> v[a].0@ != v[b].0@,
    ensures
        pairs_map(v.update(k, p)) == pairs_map(v).insert(p.0@, p.1@),
    decreases v.len(),
{
    let w = v.update(k, p);
    if k == v.len() - 1 {
        assert(w.drop_last() =~= v.drop_last());
        assert(pairs_map(w) =~= pairs_map(v).insert(p.0@, p.1@));
    } else {
        assert(w.drop_last() =~= v.drop_last().update(k, p));
        lemma_pairs_map_set(v.drop_last(), k, p);
        assert(v.last().0@ != p.0@);
        assert(pairs_map(w) =~= pairs_map(v).insert(p.0@, p.1@));
    }
}

/// Put a name/value pair, replacing the value of an equal name.
fn put_pair(out: &mut Vec<(String, String)>, name: String, value: String)
    requires
        forall|a: int, b: int| 0 <= a < b < old(out)@.len() ==> old(out)@[a].0@ != old(out)@[b].0@,
    ensures
        pairs_map(final(out)@) == pairs_map(old(out)@).insert(name@, value@),
        forall|a: int, b: int| 0 <= a < b < final(out)@.len() ==> final(out)@[a].0@ != final(out)@[b].0@,
{
    let mut k: usize = 0;
    while k < out.len()
        invariant
            k <= out.len(),
            out@ == old(out)@,
            forall|a: int, b: int| 0 <= a < b < out@.len() ==> out@[a].0@ != out@[b].0@,
            forall|j: int| 0 <= j < k ==> out@[j].0@ != name@,
        decreases out.len() - k,
    {
        if crate::text::str_eq(out[k].0.as_str(), name.as_str()) {
            let ghost before = out@;
            let p = (name, value);
            proof {
                lemma_pairs_map_set(before, k as int, p);
            }
            out.set(k, p);
            assert(out@ == before.update(k as int, p));
            assert forall|a: int, b: int| 0 <= a < b < out@.len() implies out@[a].0@ != out@[b].0@ by {
                if a == k {
                    assert(before[k as int].0@ == name@);
                } else if b == k {
                    assert(before[k as int].0@ == name@);
                }
            }
            return;
        }
        k = k + 1;
    }
    let ghost before = out@;
    let ghost nm = name@;
    let ghost vl = value@;
    out.push((name, value));
    assert(out@.drop_last() =~= before);
    assert(pairs_map(out@) == pairs_map(before).insert(nm, vl));
}

} // verus!
