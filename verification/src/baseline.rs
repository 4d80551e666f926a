//! Historical baselines: how a SQL statement is classified by complexity, and which
//! audit-log records feed the baseline of a complexity class or of a table.
//!
//! The statistics themselves (mean, percentiles, deviation) are floating point and
//! are computed from the sorted sample that this module selects.
use vstd::prelude::*;
use vstd::string::*;
use crate::config::{parse_i64_text, spec_parse_i64};
use crate::metrics::push_str;
use crate::num::{dec_str, u128_to_string};
use crate::model::vstr;
use crate::text::{chars_of, contains_chars, contains_seq, count_matches, count_matches_exec, spec_to_uppercase, str_eq, str_to_uppercase};

verus! {

/// Query complexity class, by the statement's complexity score (see
/// [`complexity_score`]).
#[derive(Clone, Copy, Debug, PartialEq, Eq, Hash, Structural)]
pub enum QueryComplexity {
    /// Score 0 or 1: no JOIN, window function, CTE, UNION, UDF or more than five parentheses; at most
    /// one subquery.
    Simple,
    /// Score 2 to 6: for example one to three JOINs, or a lone window function.
    Medium,
    /// Score 7 to 11: for example four or five JOINs, or JOINs with window functions
    /// and CTEs.
    Complex,
    /// Score 12 or more.
    VeryComplex,
}

/// The complexity score of an upper-cased statement: two points per `JOIN`, three for
/// a window function, two for a CTE, one for a subquery, two for a `UNION`, three for
/// a UDF or more than five opening parentheses.
pub open spec fn complexity_score(u: Seq<char>) -> nat {
    2 * count_matches(u, "JOIN"@)
        + (if contains_seq(u, "OVER("@) || contains_seq(u, "OVER ("@) { 3nat } else { 0nat })
        + (if contains_seq(u, "WITH"@) && contains_seq(u, "AS ("@) { 2nat } else { 0nat })
        + (if count_matches(u, "SELECT"@) > 1 { 1nat } else { 0nat })
        + (if contains_seq(u, "UNION"@) { 2nat } else { 0nat })
        + (if contains_seq(u, "UDF"@) || count_matches(u, "("@) > 5 { 3nat } else { 0nat })
}

/// The class of a score: up to 1 simple (no JOIN), up to 6 medium, up to 11 complex.
pub open spec fn complexity_of_score(s: nat) -> QueryComplexity {
    if s <= 1 {
        QueryComplexity::Simple
    } else if s <= 6 {
        QueryComplexity::Medium
    } else if s <= 11 {
        QueryComplexity::Complex
    } else {
        QueryComplexity::VeryComplex
    }
}

/// The complexity class of a statement (matched case-insensitively).
pub open spec fn spec_complexity(sql: Seq<char>) -> QueryComplexity {
    complexity_of_score(complexity_score(spec_to_uppercase(sql)))
}

fn count_of(u: &Vec<char>, pat: &str) -> (c: usize)
    requires
        pat@.len() > 0,
    ensures
        c == count_matches(u@, pat@),
{
    let p = chars_of(pat);
    count_matches_exec(u, &p)
}

fn has(u: &Vec<char>, pat: &str) -> (b: bool)
    ensures
        b == contains_seq(u@, pat@),
{
    let p = chars_of(pat);
    contains_chars(u, &p)
}

impl QueryComplexity {
    /// Classify a SQL statement by the indicators it contains.
    pub fn from_sql(sql: &str) -> (c: Self)
        ensures
            c == spec_complexity(sql@),
    {
        let upper = str_to_uppercase(sql);
        let u = chars_of(upper.as_str());
        proof {
            reveal_strlit("JOIN");
            reveal_strlit("SELECT");
            reveal_strlit("(");
        }
        let join_count = count_of(&u, "JOIN");
        let has_window = has(&u, "OVER(") || has(&u, "OVER (");
        let has_cte = has(&u, "WITH") && has(&u, "AS (");
        let has_subquery = count_of(&u, "SELECT") > 1;
        let has_union = has(&u, "UNION");
        let has_udf = has(&u, "UDF") || count_of(&u, "(") > 5;
        let mut score: u128 = 2 * (join_count as u128);
        if has_window {
            score = score + 3;
        }
        if has_cte {
            score = score + 2;
        }
        if has_subquery {
            score = score + 1;
        }
        if has_union {
            score = score + 2;
        }
        if has_udf {
            score = score + 3;
        }
        assert(score == complexity_score(u@));
        if score <= 1 {
            QueryComplexity::Simple
        } else if score <= 6 {
            QueryComplexity::Medium
        } else if score <= 11 {
            QueryComplexity::Complex
        } else {
            QueryComplexity::VeryComplex
        }
    }
}

/// A record of the StarRocks audit table.
pub struct AuditLogRecord {
    pub query_id: String,
    pub user: String,
    pub db: String,
    pub stmt: String,
    pub query_type: String,
    pub query_time_ms: i64,
    pub state: String,
    pub timestamp: String,
}

/// The value of an audit record.
pub struct AuditLogView {
    pub query_id: Seq<char>,
    pub user: Seq<char>,
    pub db: Seq<char>,
    pub stmt: Seq<char>,
    pub query_type: Seq<char>,
    pub query_time_ms: i64,
    pub state: Seq<char>,
    pub timestamp: Seq<char>,
}

impl View for AuditLogRecord {
    type V = AuditLogView;

    open spec fn view(&self) -> AuditLogView {
        AuditLogView {
            query_id: self.query_id@,
            user: self.user@,
            db: self.db@,
            stmt: self.stmt@,
            query_type: self.query_type@,
            query_time_ms: self.query_time_ms,
            state: self.state@,
            timestamp: self.timestamp@,
        }
    }
}

impl AuditLogRecord {
    /// A copy of this record.
    pub fn copy(&self) -> (r: AuditLogRecord)
        ensures
            r@ == self@,
    {
        AuditLogRecord {
            query_id: self.query_id.clone(),
            user: self.user.clone(),
            db: self.db.clone(),
            stmt: self.stmt.clone(),
            query_type: self.query_type.clone(),
            query_time_ms: self.query_time_ms,
            state: self.state.clone(),
            timestamp: self.timestamp.clone(),
        }
    }
}

/// The values of a list of records.
pub open spec fn vrecords(s: Seq<AuditLogRecord>) -> Seq<AuditLogView> {
    s.map_values(|r: AuditLogRecord| r@)
}

/// A query that finished successfully (`EOF` or `OK`).
pub open spec fn is_success(r: AuditLogView) -> bool {
    r.state == "EOF"@ || r.state == "OK"@
}

/// The query times of the successful records, in record order.
pub open spec fn success_times(rs: Seq<AuditLogView>) -> Seq<i64>
    decreases rs.len(),
{
    if rs.len() == 0 {
        Seq::empty()
    } else if is_success(rs.last()) {
        success_times(rs.drop_last()).push(rs.last().query_time_ms)
    } else {
        success_times(rs.drop_last())
    }
}

/// The records of one complexity class, in order.
pub open spec fn of_complexity(rs: Seq<AuditLogView>, c: QueryComplexity) -> Seq<AuditLogView>
    decreases rs.len(),
{
    if rs.len() == 0 {
        Seq::empty()
    } else if spec_complexity(rs.last().stmt) == c {
        of_complexity(rs.drop_last(), c).push(rs.last())
    } else {
        of_complexity(rs.drop_last(), c)
    }
}

/// Whether a statement mentions a table, both compared upper-cased.
pub open spec fn mentions_table(r: AuditLogView, table: Seq<char>) -> bool {
    contains_seq(spec_to_uppercase(r.stmt), spec_to_uppercase(table))
}

/// The records whose statement mentions a table, in order.
pub open spec fn of_table(rs: Seq<AuditLogView>, table: Seq<char>) -> Seq<AuditLogView>
    decreases rs.len(),
{
    if rs.len() == 0 {
        Seq::empty()
    } else if mentions_table(rs.last(), table) {
        of_table(rs.drop_last(), table).push(rs.last())
    } else {
        of_table(rs.drop_last(), table)
    }
}

/// Ascending order.
pub open spec fn sorted_times(s: Seq<i64>) -> bool {
    forall|i: int, j: int| 0 <= i <= j < s.len() ==> s[i] <= s[j]
}

proof fn lemma_insert_multiset(s: Seq<i64>, i: int, x: i64)
    requires
        0 <= i <= s.len(),
    ensures
        s.insert(i, x).to_multiset() =~= s.to_multiset().insert(x),
{
    broadcast use vstd::seq_lib::group_to_multiset_ensures;
    let t = s.insert(i, x);
    assert(t.remove(i) =~= s);
    assert(t[i] == x);
    vstd::seq_lib::to_multiset_remove(t, i);
    assert(t.contains(x));
    assert(t.to_multiset().count(x) > 0);
    assert forall|y: i64| t.to_multiset().count(y) == s.to_multiset().insert(x).count(y) by {
        assert(s.to_multiset() == t.to_multiset().remove(x));
    }
}

/// The times in ascending order.
pub fn sort_times(v: &Vec<i64>) -> (r: Vec<i64>)
    ensures
        sorted_times(r@),
        r@.to_multiset() =~= v@.to_multiset(),
{
    broadcast use vstd::seq_lib::group_to_multiset_ensures;
    let mut r: Vec<i64> = Vec::new();
    let mut i: usize = 0;
    while i < v.len()
        invariant
            i <= v.len(),
            sorted_times(r@),
            r@.to_multiset() =~= v@.take(i as int).to_multiset(),
        decreases v.len() - i,
    {
        let x = v[i];
        let mut p: usize = 0;
        while p < r.len() && r[p] <= x
            invariant
                p <= r.len(),
                forall|k: int| 0 <= k < p ==> r@[k] <= x,
            decreases r.len() - p,
        {
            p = p + 1;
        }
        let ghost old_r = r@;
        proof {
            lemma_insert_multiset(old_r, p as int, x);
            assert(v@.take(i + 1) =~= v@.take(i as int).push(x));
            vstd::seq_lib::to_multiset_build(v@.take(i as int), x);
        }
        r.insert(p, x);
        assert(r@ == old_r.insert(p as int, x));
        assert forall|a: int, b: int| 0 <= a <= b < r@.len() implies r@[a] <= r@[b] by {
            if a < p && b < p {
            } else if a < p && b == p {
            } else if a < p {
                assert(r@[b] == old_r[b - 1]);
            } else if a == p && b == p {
            } else if a == p {
                assert(r@[b] == old_r[b - 1]);
                assert(old_r[p as int] <= old_r[b - 1]);
            } else {
                assert(r@[a] == old_r[a - 1]);
                assert(r@[b] == old_r[b - 1]);
            }
        }
        assert(r@.to_multiset() =~= v@.take(i + 1).to_multiset());
        i = i + 1;
    }
    assert(v@.take(v@.len() as int) =~= v@);
    r
}

/// Computes which audit records make a baseline.
pub struct BaselineCalculator {
    /// The fewest successful queries a baseline is computed from.
    min_sample_size: usize,
}

impl BaselineCalculator {
    /// The minimum sample size.
    pub closed spec fn min_samples(self) -> nat {
        self.min_sample_size as nat
    }

    /// A calculator that asks for at least 30 successful queries.
    pub fn new() -> (c: Self)
        ensures
            c.min_samples() == 30,
    {
        BaselineCalculator { min_sample_size: 30 }
    }

    /// The minimum sample size.
    pub fn min_sample_size(&self) -> (n: usize)
        ensures
            n == self.min_samples(),
    {
        self.min_sample_size
    }

    /// The sample a baseline is computed from: the complexity of the first record's
    /// statement and the query times of the successful records, ascending. `None`
    /// when there are no records or fewer successful ones than the minimum.
    pub fn sample(&self, records: &[AuditLogRecord]) -> (r: Option<(QueryComplexity, Vec<i64>)>)
        ensures
            r is Some <==> (records@.len() > 0 && success_times(vrecords(records@)).len()
                >= self.min_samples()),
            r matches Some((c, times)) ==> {
                &&& c == spec_complexity(records@[0].stmt@)
                &&& sorted_times(times@)
                &&& times@.to_multiset() == success_times(vrecords(records@)).to_multiset()
            },
    {
        if records.len() == 0 {
            return None;
        }
        let complexity = QueryComplexity::from_sql(records[0].stmt.as_str());
        let ghost rs = vrecords(records@);
        let mut times: Vec<i64> = Vec::new();
        let mut i: usize = 0;
        while i < records.len()
            invariant
                i <= records.len(),
                rs == vrecords(records@),
                times@ == success_times(rs.take(i as int)),
            decreases records.len() - i,
        {
            let rec = &records[i];
            proof {
                assert(rs.take(i + 1).drop_last() =~= rs.take(i as int));
                assert(rs.take(i + 1).last() == rec@);
            }
            if str_eq(rec.state.as_str(), "EOF") || str_eq(rec.state.as_str(), "OK") {
                times.push(rec.query_time_ms);
            }
            i = i + 1;
        }
        assert(rs.take(rs.len() as int) =~= rs);
        if times.len() < self.min_sample_size {
            return None;
        }
        let sorted = sort_times(&times);
        Some((complexity, sorted))
    }
}

impl Default for BaselineCalculator {
    fn default() -> (c: Self)
        ensures
            c.min_samples() == 30,
    {
        BaselineCalculator::new()
    }
}

/// Copies of the records of one complexity class, in order.
pub fn records_of_complexity(records: &[AuditLogRecord], c: QueryComplexity) -> (r: Vec<
    AuditLogRecord,
>)
    ensures
        vrecords(r@) == of_complexity(vrecords(records@), c),
{
    let ghost rs = vrecords(records@);
    let mut out: Vec<AuditLogRecord> = Vec::new();
    let mut i: usize = 0;
    while i < records.len()
        invariant
            i <= records.len(),
            rs == vrecords(records@),
            vrecords(out@) == of_complexity(rs.take(i as int), c),
        decreases records.len() - i,
    {
        let rec = &records[i];
        proof {
            assert(rs.take(i + 1).drop_last() =~= rs.take(i as int));
            assert(rs.take(i + 1).last() == rec@);
        }
        if QueryComplexity::from_sql(rec.stmt.as_str()) == c {
            let cp = rec.copy();
            proof {
                assert(vrecords(out@.push(cp)) =~= vrecords(out@).push(cp@));
            }
            out.push(cp);
        }
        i = i + 1;
    }
    assert(rs.take(rs.len() as int) =~= rs);
    out
}

/// Copies of the records whose statement mentions a table, in order.
pub fn records_for_table(records: &[AuditLogRecord], table_name: &str) -> (r: Vec<AuditLogRecord>)
    ensures
        vrecords(r@) == of_table(vrecords(records@), table_name@),
{
    let ghost rs = vrecords(records@);
    let table_upper = str_to_uppercase(table_name);
    let tv = chars_of(table_upper.as_str());
    let mut out: Vec<AuditLogRecord> = Vec::new();
    let mut i: usize = 0;
    while i < records.len()
        invariant
            i <= records.len(),
            rs == vrecords(records@),
            tv@ == spec_to_uppercase(table_name@),
            vrecords(out@) == of_table(rs.take(i as int), table_name@),
        decreases records.len() - i,
    {
        let rec = &records[i];
        proof {
            assert(rs.take(i + 1).drop_last() =~= rs.take(i as int));
            assert(rs.take(i + 1).last() == rec@);
        }
        let su = str_to_uppercase(rec.stmt.as_str());
        let sv = chars_of(su.as_str());
        if contains_chars(&sv, &tv) {
            let cp = rec.copy();
            proof {
                assert(vrecords(out@.push(cp)) =~= vrecords(out@).push(cp@));
            }
            out.push(cp);
        }
        i = i + 1;
    }
    assert(rs.take(rs.len() as int) =~= rs);
    out
}

/// The service that computes baselines from the audit log.
pub struct BaselineService {
    calculator: BaselineCalculator,
}

impl BaselineService {
    /// The calculator the service uses.
    pub closed spec fn calc(self) -> BaselineCalculator {
        self.calculator
    }

    /// A service with a default calculator (minimum sample of 30).
    pub fn new() -> (s: Self)
        ensures
            s.calc().min_samples() == 30,
    {
        BaselineService { calculator: BaselineCalculator::new() }
    }

    /// The calculator the service uses.
    pub fn calculator(&self) -> (c: &BaselineCalculator)
        ensures
            *c == self.calc(),
    {
        &self.calculator
    }
}

impl Default for BaselineService {
    fn default() -> (s: Self)
        ensures
            s.calc().min_samples() == 30,
    {
        BaselineService::new()
    }
}


// ---------------------------------------------------------------------------
// Reading the audit table
// ---------------------------------------------------------------------------

/// The start of the audit-log query, up to the number of hours.
pub open spec fn audit_query_head() -> Seq<char> {
    "SELECT queryId, COALESCE(`user`, '') AS user, COALESCE(`db`, '') AS db, stmt, COALESCE(queryType, 'Query') AS queryType, queryTime AS query_time_ms, COALESCE(`state`, '') AS state, `timestamp` FROM starrocks_audit_db__.starrocks_audit_tbl__ WHERE isQuery = 1 AND `timestamp` >= DATE_SUB(NOW(), INTERVAL "@
}

/// The rest of the audit-log query after the number of hours.
pub open spec fn audit_query_tail() -> Seq<char> {
    " HOUR) AND `state` IN ('EOF', 'OK') AND queryTime > 0 ORDER BY `timestamp` DESC LIMIT 10000"@
}

/// The query that reads the successful queries of the last `hours_back` hours from
/// the audit table, newest first, at most 10000 of them.
pub fn audit_log_query(hours_back: u32) -> (r: String)
    ensures
        r@ == audit_query_head() + dec_str(hours_back as nat) + audit_query_tail(),
{
    let mut s = String::from_str(
        "SELECT queryId, COALESCE(`user`, '') AS user, COALESCE(`db`, '') AS db, stmt, COALESCE(queryType, 'Query') AS queryType, queryTime AS query_time_ms, COALESCE(`state`, '') AS state, `timestamp` FROM starrocks_audit_db__.starrocks_audit_tbl__ WHERE isQuery = 1 AND `timestamp` >= DATE_SUB(NOW(), INTERVAL ",
    );
    let h = u128_to_string(hours_back as u128);
    push_str(&mut s, h.as_str());
    push_str(
        &mut s,
        " HOUR) AND `state` IN ('EOF', 'OK') AND queryTime > 0 ORDER BY `timestamp` DESC LIMIT 10000",
    );
    s
}

/// The position of a column: the last column with that name.
pub open spec fn column_index(cols: Seq<Seq<char>>, name: Seq<char>) -> Option<int>
    decreases cols.len(),
{
    if cols.len() == 0 {
        None
    } else if cols.last() == name {
        Some(cols.len() - 1)
    } else {
        column_index(cols.drop_last(), name)
    }
}

/// The cell of a row in a column, if the column exists and the row reaches it.
pub open spec fn cell(cols: Seq<Seq<char>>, row: Seq<Seq<char>>, name: Seq<char>) -> Option<Seq<char>> {
    match column_index(cols, name) {
        Some(i) => if i < row.len() {
            Some(row[i])
        } else {
            None
        },
        None => None,
    }
}

/// A cell's text, or a default.
pub open spec fn cell_or(cols: Seq<Seq<char>>, row: Seq<Seq<char>>, name: Seq<char>, d: Seq<char>) -> Seq<char> {
    match cell(cols, row, name) {
        Some(t) => t,
        None => d,
    }
}

/// The audit record a result row describes: missing cells read as empty text, a
/// missing query type as `Query`, and a missing or non-numeric query time as 0.
pub open spec fn spec_record_of(cols: Seq<Seq<char>>, row: Seq<Seq<char>>) -> AuditLogView {
    AuditLogView {
        query_id: cell_or(cols, row, "queryId"@, Seq::empty()),
        user: cell_or(cols, row, "user"@, Seq::empty()),
        db: cell_or(cols, row, "db"@, Seq::empty()),
        stmt: cell_or(cols, row, "stmt"@, Seq::empty()),
        query_type: cell_or(cols, row, "queryType"@, "Query"@),
        query_time_ms: match cell(cols, row, "query_time_ms"@) {
            Some(t) => match spec_parse_i64(t) {
                Some(v) => v,
                None => 0,
            },
            None => 0,
        },
        state: cell_or(cols, row, "state"@, Seq::empty()),
        timestamp: cell_or(cols, row, "timestamp"@, Seq::empty()),
    }
}

fn find_column(cols: &Vec<String>, name: &str) -> (r: Option<usize>)
    ensures
        match (r, column_index(vstr(cols@), name@)) {
            (Some(i), Some(j)) => i == j,
            (None, None) => true,
            _ => false,
        },
{
    let ghost cs = vstr(cols@);
    let mut found: Option<usize> = None;
    let mut i: usize = 0;
    while i < cols.len()
        invariant
            i <= cols.len(),
            cs == vstr(cols@),
            match (found, column_index(cs.take(i as int), name@)) {
                (Some(a), Some(b)) => a == b,
                (None, None) => true,
                _ => false,
            },
        decreases cols.len() - i,
    {
        proof {
            assert(cs.take(i + 1).drop_last() =~= cs.take(i as int));
            assert(cs.take(i + 1).last() == cols@[i as int]@);
        }
        if str_eq(cols[i].as_str(), name) {
            found = Some(i);
        }
        i = i + 1;
    }
    assert(cs.take(cs.len() as int) =~= cs);
    found
}

fn cell_exec(cols: &Vec<String>, row: &Vec<String>, name: &str) -> (r: Option<String>)
    ensures
        match (r, cell(vstr(cols@), vstr(row@), name@)) {
            (Some(t), Some(u)) => t@ == u,
            (None, None) => true,
            _ => false,
        },
{
    match find_column(cols, name) {
        Some(i) => {
            if i < row.len() {
                assert(vstr(row@)[i as int] == row@[i as int]@);
                Some(row[i].clone())
            } else {
                None
            }
        },
        None => None,
    }
}

fn cell_or_exec(cols: &Vec<String>, row: &Vec<String>, name: &str, d: &str) -> (r: String)
    ensures
        r@ == cell_or(vstr(cols@), vstr(row@), name@, d@),
{
    match cell_exec(cols, row, name) {
        Some(t) => t,
        None => String::from_str(d),
    }
}

/// The audit record a result row describes.
pub fn record_of(cols: &Vec<String>, row: &Vec<String>) -> (r: AuditLogRecord)
    ensures
        r@ == spec_record_of(vstr(cols@), vstr(row@)),
{
    let ghost cs = vstr(cols@);
    let ghost rw = vstr(row@);
    let query_time_ms: i64 = match cell_exec(cols, row, "query_time_ms") {
        Some(t) => match parse_i64_text(t.as_str()) {
            Some(v) => v,
            None => 0,
        },
        None => 0,
    };
    assert(query_time_ms == spec_record_of(cs, rw).query_time_ms);
    let query_id = cell_or_exec(cols, row, "queryId", "");
    let user = cell_or_exec(cols, row, "user", "");
    let db = cell_or_exec(cols, row, "db", "");
    let stmt = cell_or_exec(cols, row, "stmt", "");
    let query_type = cell_or_exec(cols, row, "queryType", "Query");
    let state = cell_or_exec(cols, row, "state", "");
    let timestamp = cell_or_exec(cols, row, "timestamp", "");
    proof {
        assert(""@ =~= Seq::<char>::empty()) by {
            reveal_strlit("");
        }
    }
    AuditLogRecord { query_id, user, db, stmt, query_type, query_time_ms, state, timestamp }
}

/// The audit records of a query result, one per row, in row order.
pub fn records_from_rows(cols: &Vec<String>, rows: &Vec<Vec<String>>) -> (r: Vec<AuditLogRecord>)
    ensures
        r@.len() == rows@.len(),
        forall|i: int| 0 <= i < rows@.len() ==> (#[trigger] r@[i])@ == spec_record_of(vstr(cols@), vstr(rows@[i]@)),
{
    let mut out: Vec<AuditLogRecord> = Vec::new();
    let mut i: usize = 0;
    while i < rows.len()
        invariant
            i <= rows.len(),
            out@.len() == i,
            forall|k: int| 0 <= k < i ==> (#[trigger] out@[k])@ == spec_record_of(vstr(cols@), vstr(rows@[k]@)),
        decreases rows.len() - i,
    {
        let rec = record_of(cols, &rows[i]);
        out.push(rec);
        i = i + 1;
    }
    out
}

} // verus!
