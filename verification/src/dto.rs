//! Records exchanged with clients and with the LLM service.
use vstd::prelude::*;
use vstd::string::*;
use crate::metrics::push_str;
use crate::model::vstr;

verus! {

/// A query profile as served by the profile endpoint.
pub struct QueryProfile {
    pub query_id: String,
    pub sql: String,
    pub profile_content: String,
    pub execution_time_ms: i64,
    pub status: String,
    pub fragments: Vec<QueryFragment>,
}

/// One fragment instance of a query profile.
pub struct QueryFragment {
    pub fragment_id: String,
    pub instance_id: String,
    pub host: String,
    pub cpu_time_ns: i64,
    pub scan_rows: i64,
    pub scan_bytes: i64,
    pub memory_peak: i64,
}

impl QueryProfile {
    /// The profile answered when the cluster has none for the query: SQL `N/A`,
    /// status `Not Found`, no fragments, and a message naming the query.
    pub fn not_found(query_id: &str) -> (p: Self)
        ensures
            p.query_id@ == query_id@,
            p.sql@ == "N/A"@,
            p.profile_content@ == "Query profile for "@ + query_id@
                + " not found in StarRocks profile manager"@,
            p.execution_time_ms == 0,
            p.status@ == "Not Found"@,
            p.fragments@.len() == 0,
    {
        let mut content = String::from_str("Query profile for ");
        push_str(&mut content, query_id);
        push_str(&mut content, " not found in StarRocks profile manager");
        QueryProfile {
            query_id: String::from_str(query_id),
            sql: String::from_str("N/A"),
            profile_content: content,
            execution_time_ms: 0,
            status: String::from_str("Not Found"),
            fragments: Vec::new(),
        }
    }
}

/// Join operator details given to the LLM.
pub struct JoinDetailForLLM {
    pub plan_node_id: i32,
    /// `HASH_JOIN`, `CROSS_JOIN`, ...
    pub join_type: String,
    pub build_rows: u64,
    pub probe_rows: u64,
    pub output_rows: u64,
    pub hash_table_memory: Option<u64>,
    pub is_broadcast: bool,
    pub runtime_filter: Option<String>,
}

/// A rule-engine diagnostic given to the LLM.
pub struct DiagnosticForLLM {
    /// Rule id, e.g. `S001`.
    pub rule_id: String,
    /// `Error`, `Warning` or `Info`.
    pub severity: String,
    /// The affected operator.
    pub operator: String,
    pub plan_node_id: Option<i32>,
    pub message: String,
    /// Evidence that triggered the rule, as name and value pairs.
    pub evidence: Vec<(String, String)>,
}

/// Memory figures given to the LLM.
pub struct MemoryMetricsForLLM {
    pub peak_memory_bytes: u64,
    pub spill_bytes: u64,
    pub hash_table_memory: u64,
}

/// A causal chain explained by the LLM.
pub struct LLMCausalChain {
    /// The chain, e.g. causes separated by arrows.
    pub chain: Vec<String>,
    pub explanation: String,
}

/// A recommendation from the LLM.
pub struct LLMRecommendation {
    /// 1 is the highest priority.
    pub priority: u32,
    pub action: String,
    pub expected_improvement: String,
    pub sql_example: Option<String>,
}

/// An issue the LLM found that no rule reported.
pub struct LLMHiddenIssue {
    pub issue: String,
    pub suggestion: String,
}


/// The lines of the fields of a row: `name: value` for each.
pub open spec fn fields_text(row: Seq<(Seq<char>, Seq<char>)>) -> Seq<char>
    decreases row.len(),
{
    if row.len() == 0 {
        Seq::empty()
    } else {
        fields_text(row.drop_last()) + row.last().0 + ": "@ + row.last().1 + "\n"@
    }
}

/// The text of one row of a profile listing: its field lines, then an empty line.
pub open spec fn row_text(row: Seq<(Seq<char>, Seq<char>)>) -> Seq<char> {
    fields_text(row) + "\n"@
}

/// The text of the rows, one block per row.
pub open spec fn rows_text(rows: Seq<Seq<(Seq<char>, Seq<char>)>>) -> Seq<char>
    decreases rows.len(),
{
    if rows.len() == 0 {
        Seq::empty()
    } else {
        rows_text(rows.drop_last()) + row_text(rows.last())
    }
}

/// The view of a row of name/value fields.
pub open spec fn fields_view(row: Vec<(String, String)>) -> Seq<(Seq<char>, Seq<char>)> {
    row@.map_values(|p: (String, String)| (p.0@, p.1@))
}

/// The profile text of the rows served for a query: each field as `name: value` on a
/// line, and an empty line after each row.
pub fn profile_rows_text(rows: &Vec<Vec<(String, String)>>) -> (s: String)
    ensures
        s@ == rows_text(rows@.map_values(|r: Vec<(String, String)>| fields_view(r))),
{
    let ghost rs = rows@.map_values(|r: Vec<(String, String)>| fields_view(r));
    let mut s = String::new();
    let mut i: usize = 0;
    while i < rows.len()
        invariant
            i <= rows.len(),
            rs == rows@.map_values(|r: Vec<(String, String)>| fields_view(r)),
            s@ == rows_text(rs.take(i as int)),
        decreases rows.len() - i,
    {
        let row = &rows[i];
        let ghost fv = fields_view(*row);
        proof {
            assert(rs.take(i + 1).drop_last() =~= rs.take(i as int));
            assert(rs.take(i + 1).last() == fv);
        }
        let ghost base = s@;
        let mut j: usize = 0;
        assert(fv.take(0) =~= Seq::<(Seq<char>, Seq<char>)>::empty());
        while j < row.len()
            invariant
                j <= row.len(),
                fv == fields_view(*row),
                s@ == base + fields_text(fv.take(j as int)),
            decreases row.len() - j,
        {
            proof {
                assert(fv.take(j + 1).drop_last() =~= fv.take(j as int));
                assert(fv.take(j + 1).last() == (row@[j as int].0@, row@[j as int].1@));
            }
            push_str(&mut s, row[j].0.as_str());
            push_str(&mut s, ": ");
            push_str(&mut s, row[j].1.as_str());
            push_str(&mut s, "\n");
            assert(s@ =~= base + fields_text(fv.take(j + 1)));
            j = j + 1;
        }
        assert(fv.take(row.len() as int) =~= fv);
        push_str(&mut s, "\n");
        i = i + 1;
    }
    assert(rs.take(rows.len() as int) =~= rs);
    s
}

impl QueryProfile {
    /// The profile served for a query the cluster returned rows for: SQL `N/A`, status
    /// `Completed`, no fragments.
    pub fn completed(query_id: &str, profile_content: String) -> (p: Self)
        ensures
            p.query_id@ == query_id@,
            p.sql@ == "N/A"@,
            p.profile_content == profile_content,
            p.execution_time_ms == 0,
            p.status@ == "Completed"@,
            p.fragments@.len() == 0,
    {
        QueryProfile {
            query_id: String::from_str(query_id),
            sql: String::from_str("N/A"),
            profile_content,
            execution_time_ms: 0,
            status: String::from_str("Completed"),
            fragments: Vec::new(),
        }
    }
}

} // verus!
