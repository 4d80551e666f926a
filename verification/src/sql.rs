//! SQL text handling for the query console: splitting a script into statements,
//! capping result sizes, checking query ids and shortening SQL for prompts.
use vstd::prelude::*;
use vstd::string::*;
use vstd::utf8::{decode_utf8, is_char_boundary};
use crate::text::{chars_of, contains_chars, contains_seq, occurs_at_exec, spec_to_uppercase, starts_with_seq, str_to_uppercase, str_trim, string_of_range, string_push, trim_seq};
use crate::model::{i64_to_string, int_str, vstr};
use crate::metrics::push_str;
use crate::error::ApiError;
use crate::config::{parse_u32_text, parse_u64_text, spec_parse_u32, spec_parse_u64};

verus! {

/// The scanner state while a script is split: the statements found so far, the text
/// of the current one, and whether a single or double quote is open.
pub struct SplitState {
    pub stmts: Seq<Seq<char>>,
    pub cur: Seq<char>,
    pub in_single: bool,
    pub in_double: bool,
}

/// The statement list with `t` added when it is not empty.
pub open spec fn push_nonempty(stmts: Seq<Seq<char>>, t: Seq<char>) -> Seq<Seq<char>> {
    if t.len() > 0 {
        stmts.push(t)
    } else {
        stmts
    }
}

/// One character of the scan: quotes toggle (a quote inside the other kind of quote
/// is plain text), an unquoted `;` ends the statement, anything else is text.
pub open spec fn split_step(st: SplitState, c: char) -> SplitState {
    if c == '\'' && !st.in_double {
        SplitState { cur: st.cur.push(c), in_single: !st.in_single, ..st }
    } else if c == '"' && !st.in_single {
        SplitState { cur: st.cur.push(c), in_double: !st.in_double, ..st }
    } else if c == ';' && !st.in_single && !st.in_double {
        SplitState { stmts: push_nonempty(st.stmts, trim_seq(st.cur)), cur: Seq::empty(), ..st }
    } else {
        SplitState { cur: st.cur.push(c), ..st }
    }
}

/// The scan state after the characters of `s`.
pub open spec fn split_run(s: Seq<char>) -> SplitState
    decreases s.len(),
{
    if s.len() == 0 {
        SplitState { stmts: Seq::empty(), cur: Seq::empty(), in_single: false, in_double: false }
    } else {
        split_step(split_run(s.drop_last()), s.last())
    }
}

/// The statements of a script: the trimmed, non-empty texts between unquoted
/// semicolons, in order.
pub open spec fn spec_statements(sql: Seq<char>) -> Seq<Seq<char>> {
    let st = split_run(sql);
    push_nonempty(st.stmts, trim_seq(st.cur))
}

fn push_trimmed(stmts: &mut Vec<String>, cur: &String)
    ensures
        vstr(final(stmts)@) == push_nonempty(vstr(old(stmts)@), trim_seq(cur@)),
{
    let t = str_trim(cur.as_str());
    if t.unicode_len() > 0 {
        let s = String::from_str(t);
        proof {
            assert(vstr(stmts@.push(s)) =~= vstr(stmts@).push(s@));
        }
        stmts.push(s);
    }
}

/// Split a script into statements at semicolons outside single and double quotes.
pub fn parse_sql_statements(sql: &str) -> (r: Vec<String>)
    ensures
        vstr(r@) == spec_statements(sql@),
{
    let v = chars_of(sql);
    let mut statements: Vec<String> = Vec::new();
    let mut current = String::new();
    let mut in_single = false;
    let mut in_double = false;
    let mut i: usize = 0;
    while i < v.len()
        invariant
            i <= v.len(),
            v@ == sql@,
            ({
                let st = split_run(v@.take(i as int));
                &&& vstr(statements@) == st.stmts
                &&& current@ == st.cur
                &&& in_single == st.in_single
                &&& in_double == st.in_double
            }),
        decreases v.len() - i,
    {
        let ch = v[i];
        proof {
            assert(v@.take(i + 1).drop_last() =~= v@.take(i as int));
            assert(v@.take(i + 1).last() == ch);
        }
        if ch == '\'' && !in_double {
            in_single = !in_single;
            string_push(&mut current, ch);
        } else if ch == '"' && !in_single {
            in_double = !in_double;
            string_push(&mut current, ch);
        } else if ch == ';' && !in_single && !in_double {
            push_trimmed(&mut statements, &current);
            current = String::new();
        } else {
            string_push(&mut current, ch);
        }
        i = i + 1;
    }
    assert(v@.take(v@.len() as int) =~= v@);
    push_trimmed(&mut statements, &current);
    statements
}

/// The text without its trailing semicolons.
pub open spec fn strip_semicolons(s: Seq<char>) -> Seq<char>
    decreases s.len(),
{
    if s.len() > 0 && s.last() == ';' {
        strip_semicolons(s.drop_last())
    } else {
        s
    }
}

/// The SQL to run for a console query: trimmed; a `SELECT` without `LIMIT` that is not
/// a profile or `EXPLAIN` query gets ` LIMIT <limit>` (after its trailing semicolons
/// are removed); anything else is left as it is. Keywords match case-insensitively.
pub open spec fn spec_apply_query_limit(sql: Seq<char>, limit: i32) -> Seq<char> {
    let t = trim_seq(sql);
    let u = spec_to_uppercase(t);
    if contains_seq(u, "LIMIT"@) {
        t
    } else if starts_with_seq(u, "SELECT"@) {
        if contains_seq(u, "GET_QUERY_PROFILE"@) || contains_seq(u, "SHOW_PROFILE"@)
            || contains_seq(u, "EXPLAIN"@) {
            t
        } else {
            strip_semicolons(t) + " LIMIT "@ + int_str(limit as int)
        }
    } else {
        t
    }
}

fn has_word(u: &Vec<char>, w: &str) -> (b: bool)
    ensures
        b == contains_seq(u@, w@),
{
    let p = chars_of(w);
    contains_chars(u, &p)
}

/// Cap the result size of a console query with a `LIMIT` where one is missing.
pub fn apply_query_limit(sql: &str, limit: i32) -> (r: String)
    ensures
        r@ == spec_apply_query_limit(sql@, limit),
{
    let trimmed = str_trim(sql);
    let upper = str_to_uppercase(trimmed);
    let u = chars_of(upper.as_str());
    if has_word(&u, "LIMIT") {
        return String::from_str(trimmed);
    }
    let sel = chars_of("SELECT");
    if occurs_at_exec(&u, &sel, 0) {
        if has_word(&u, "GET_QUERY_PROFILE") || has_word(&u, "SHOW_PROFILE") || has_word(
            &u,
            "EXPLAIN",
        ) {
            return String::from_str(trimmed);
        }
        let t = chars_of(trimmed);
        let mut end = t.len();
        assert(t@.take(end as int) =~= t@);
        while end > 0 && t[end - 1] == ';'
            invariant
                end <= t.len(),
                strip_semicolons(t@.take(end as int)) == strip_semicolons(t@),
            decreases end,
        {
            proof {
                assert(t@.take(end as int).drop_last() =~= t@.take(end - 1));
            }
            end = end - 1;
        }
        let mut s = string_of_range(&t, 0, end);
        assert(s@ =~= t@.take(end as int));
        push_str(&mut s, " LIMIT ");
        let l = i64_to_string(limit as i64);
        push_str(&mut s, l.as_str());
        s
    } else {
        String::from_str(trimmed)
    }
}

/// A character allowed in a query id.
pub open spec fn id_char(c: char) -> bool {
    ('0' <= c <= '9') || ('a' <= c <= 'z') || ('A' <= c <= 'Z') || c == '-' || c == '_'
}

/// A well-formed query id: after trimming, one to 64 characters, each an ASCII letter
/// or digit, `-` or `_`.
pub open spec fn valid_query_id(s: Seq<char>) -> bool {
    let t = trim_seq(s);
    t.len() > 0 && t.len() <= 64 && forall|i: int| 0 <= i < t.len() ==> id_char(#[trigger] t[i])
}

/// The trimmed query id, or an invalid-input error when it is not well formed.
pub fn sanitize_query_id(query_id: &str) -> (r: Result<String, ApiError>)
    ensures
        valid_query_id(query_id@) ==> (r matches Ok(s) && s@ == trim_seq(query_id@)),
        !valid_query_id(query_id@) ==> (r matches Err(ApiError::InvalidInput(m)) && m@
            == "Invalid query_id format"@),
{
    let id = str_trim(query_id);
    let v = chars_of(id);
    let mut ok = v.len() > 0;
    let mut i: usize = 0;
    while i < v.len()
        invariant
            i <= v.len(),
            ok == (v.len() > 0 && forall|k: int| 0 <= k < i ==> id_char(#[trigger] v@[k])),
        decreases v.len() - i,
    {
        let c = v[i];
        let allowed = ('0' <= c && c <= '9') || ('a' <= c && c <= 'z') || ('A' <= c && c <= 'Z')
            || c == '-' || c == '_';
        ok = ok && allowed;
        i = i + 1;
    }
    if !ok || v.len() > 64 {
        return Err(ApiError::invalid_data(String::from_str("Invalid query_id format")));
    }
    Ok(String::from_str(id))
}

/// SQL shortened for a prompt: the text itself when it has at most `max_len` bytes,
/// else its first `max_len` bytes followed by `... (truncated)`.
pub fn truncate_sql(sql: &str, max_len: usize) -> (r: String)
    requires
        sql.spec_bytes().len() <= usize::MAX,
        sql.spec_bytes().len() > max_len ==> is_char_boundary(sql.spec_bytes(), max_len as int),
    ensures
        sql.spec_bytes().len() <= max_len ==> r@ == sql@,
        sql.spec_bytes().len() > max_len ==> r@ == decode_utf8(
            sql.spec_bytes().subrange(0, max_len as int),
        ) + "... (truncated)"@,
{
    if sql.len() <= max_len {
        String::from_str(sql)
    } else {
        let (head, _) = sql.split_at(max_len);
        proof {
            vstd::utf8::encode_utf8_decode_utf8(head@);
            assert(head.spec_bytes() == vstd::utf8::encode_utf8(head@));
            assert(decode_utf8(sql.spec_bytes().subrange(0, max_len as int)) == head@);
        }
        let mut s = String::from_str(head);
        push_str(&mut s, "... (truncated)");
        s
    }
}


// ---------------------------------------------------------------------------
// Table names and DDL facts, read with regular expressions
// ---------------------------------------------------------------------------

/// The capture groups of every successive non-overlapping match of `pattern` in
/// `text`, each group as the matched text or `None` when it did not take part;
/// `None` when the pattern does not compile.
pub uninterp spec fn regex_captures(pattern: Seq<char>, text: Seq<char>) -> Option<
    Seq<Seq<Option<Seq<char>>>>,
>;

/// The views of the capture lists.
pub open spec fn caps_view(r: Option<Vec<Vec<Option<String>>>>) -> Option<Seq<Seq<Option<Seq<char>>>>> {
    match r {
        Some(v) => Some(groups_view(v@)),
        None => None,
    }
}

/// `regex::Regex::new(pattern)` and then `Regex::captures_iter(text)`: the groups of
/// each match, in order. The contract names the result; what the regular expression
/// engine matches is left to the crate.
#[verifier::external_body]
fn all_captures(pattern: &str, text: &str) -> (r: Option<Vec<Vec<Option<String>>>>)
    ensures
        caps_view(r) == regex_captures(pattern@, text@),
{
    regex::Regex::new(pattern).ok().map(|re| {
        re.captures_iter(text).map(|c| {
            (0..c.len()).map(|i| c.get(i).map(|m| m.as_str().to_string())).collect()
        }).collect()
    })
}

/// Group `i` of a match, `None` when absent or beyond the groups.
pub open spec fn group(c: Seq<Option<Seq<char>>>, i: int) -> Option<Seq<char>> {
    if 0 <= i < c.len() {
        c[i]
    } else {
        None
    }
}

fn group_exec(c: &Vec<Option<String>>, i: usize) -> (r: Option<String>)
    ensures
        r matches Some(s) ==> group(c@.map_values(|g: Option<String>| match g {
            Some(s) => Some(s@),
            None => None,
        }), i as int) == Some(s@),
        r is None ==> group(c@.map_values(|g: Option<String>| match g {
            Some(s) => Some(s@),
            None => None,
        }), i as int) is None,
{
    if i < c.len() {
        match &c[i] {
            Some(s) => Some(s.clone()),
            None => None,
        }
    } else {
        None
    }
}

/// The pattern that finds table references after `FROM`, `JOIN` and `INTO`, with up
/// to three dotted, optionally back-quoted parts.
pub open spec fn table_pattern() -> Seq<char> {
    "(?i)\\b\u{28}?:FROM|JOIN|INTO\u{29}\\s+`?\u{28}\\w+\u{29}`?\u{28}?:\\.`?\u{28}\\w+\u{29}`?\u{28}?:\\.`?\u{28}\\w+\u{29}`?\u{29}?\u{29}?"@
}

/// The table a reference names: its last part.
pub open spec fn table_of(c: Seq<Option<Seq<char>>>) -> Option<Seq<char>> {
    if group(c, 3) is Some {
        group(c, 3)
    } else if group(c, 2) is Some {
        group(c, 2)
    } else {
        group(c, 1)
    }
}

/// The tables of a list of matches, in order.
pub open spec fn tables_of(cs: Seq<Seq<Option<Seq<char>>>>) -> Seq<Seq<char>>
    decreases cs.len(),
{
    if cs.len() == 0 {
        Seq::empty()
    } else {
        match table_of(cs.last()) {
            Some(t) => tables_of(cs.drop_last()).push(t),
            None => tables_of(cs.drop_last()),
        }
    }
}

/// The tables a statement refers to, in order of appearance.
pub open spec fn spec_extract_tables(sql: Seq<char>) -> Seq<Seq<char>> {
    match regex_captures(table_pattern(), sql) {
        Some(cs) => tables_of(cs),
        None => Seq::empty(),
    }
}

/// The views of a list of matches' groups.
pub open spec fn groups_view(cs: Seq<Vec<Option<String>>>) -> Seq<Seq<Option<Seq<char>>>> {
    cs.map_values(|c: Vec<Option<String>>| c@.map_values(|g: Option<String>| match g {
        Some(s) => Some(s@),
        None => None,
    }))
}

/// The tables named by a list of matches of the table pattern: for each match, its
/// last present dotted part (group 3, else 2, else 1), in order.
pub fn tables_of_captures(cs: &Vec<Vec<Option<String>>>) -> (r: Vec<String>)
    ensures
        vstr(r@) == tables_of(groups_view(cs@)),
{
    let ghost gs = groups_view(cs@);
    let mut out: Vec<String> = Vec::new();
    let mut i: usize = 0;
    while i < cs.len()
        invariant
            i <= cs.len(),
            gs == groups_view(cs@),
            vstr(out@) == tables_of(gs.take(i as int)),
        decreases cs.len() - i,
    {
        let c = &cs[i];
        proof {
            assert(gs.take(i + 1).drop_last() =~= gs.take(i as int));
            assert(gs.take(i + 1).last() == gs[i as int]);
        }
        let g3 = group_exec(c, 3);
        let g2 = group_exec(c, 2);
        let g1 = group_exec(c, 1);
        let t = match g3 {
            Some(s) => Some(s),
            None => match g2 {
                Some(s) => Some(s),
                None => g1,
            },
        };
        if let Some(s) = t {
            proof {
                assert(vstr(out@.push(s)) =~= vstr(out@).push(s@));
            }
            out.push(s);
        }
        i = i + 1;
    }
    assert(gs.take(gs.len() as int) =~= gs);
    out
}

/// The tables a statement refers to (the last dotted part of each reference).
pub fn extract_tables(sql: &str) -> (r: Vec<String>)
    ensures
        vstr(r@) == spec_extract_tables(sql@),
{
    let caps = all_captures(
        "(?i)\\b\u{28}?:FROM|JOIN|INTO\u{29}\\s+`?\u{28}\\w+\u{29}`?\u{28}?:\\.`?\u{28}\\w+\u{29}`?\u{28}?:\\.`?\u{28}\\w+\u{29}`?\u{29}?\u{29}?",
        sql,
    );
    match caps {
        None => Vec::new(),
        Some(cs) => tables_of_captures(&cs),
    }
}

/// Facts read from a `SHOW CREATE TABLE` statement.
pub struct DdlInfo {
    /// Partition method and key, when the DDL has a `PARTITION BY`.
    pub partition: Option<(Option<String>, Option<String>)>,
    /// Distribution key and bucket count, when the DDL has `DISTRIBUTED BY HASH`.
    pub dist: Option<(Option<String>, Option<u32>)>,
    /// The row count recorded in the properties.
    pub rows: Option<u64>,
}

/// The groups of the first match of a list of matches, if any.
pub open spec fn first_of(o: Option<Seq<Seq<Option<Seq<char>>>>>) -> Option<Seq<Option<Seq<char>>>> {
    match o {
        Some(cs) => if cs.len() > 0 {
            Some(cs[0])
        } else {
            None
        },
        None => None,
    }
}

pub open spec fn partition_pattern() -> Seq<char> {
    "(?i)PARTITION BY\\s+\u{28}\\w+\u{29}\\s*\\\u{28}\u{28}[^\u{29}]+\u{29}\\\u{29}"@
}

pub open spec fn dist_pattern() -> Seq<char> {
    "(?i)DISTRIBUTED BY\\s+HASH\\s*\\\u{28}\u{28}[^\u{29}]+\u{29}\\\u{29}\\s*BUCKETS\\s*\u{28}\\d+\u{29}"@
}

pub open spec fn rows_pattern() -> Seq<char> {
    "(?i)\"row_count\"\\s*:\\s*\"?\u{28}\\d+\u{29}\"?"@
}

/// A captured number, read as `str::parse` reads it.
pub open spec fn opt_u32(s: Option<Seq<char>>) -> Option<u32> {
    match s {
        Some(t) => spec_parse_u32(t),
        None => None,
    }
}

/// A captured number, read as `str::parse` reads it.
pub open spec fn opt_u64(s: Option<Seq<char>>) -> Option<u64> {
    match s {
        Some(t) => spec_parse_u64(t),
        None => None,
    }
}

/// The facts read from the matches of the partition, distribution and row-count
/// patterns: partition method and key, distribution key and buckets, and the
/// recorded row count; each present only when its pattern matched (and, for the row
/// count, when the digits fit 64 bits). Only the first match of each counts.
pub open spec fn ddl_from_caps(
    partition: Option<Seq<Seq<Option<Seq<char>>>>>,
    dist: Option<Seq<Seq<Option<Seq<char>>>>>,
    rows: Option<Seq<Seq<Option<Seq<char>>>>>,
) -> (Option<(Option<Seq<char>>, Option<Seq<char>>)>, Option<(Option<Seq<char>>, Option<u32>)>, Option<u64>) {
    (
        match first_of(partition) {
            Some(c) => Some((group(c, 1), group(c, 2))),
            None => None,
        },
        match first_of(dist) {
            Some(c) => Some((group(c, 1), opt_u32(group(c, 2)))),
            None => None,
        },
        match first_of(rows) {
            Some(c) => opt_u64(group(c, 1)),
            None => None,
        },
    )
}

/// The facts of a DDL, read with the partition, distribution and row-count patterns.
pub open spec fn spec_parse_ddl(ddl: Seq<char>) -> (
    Option<(Option<Seq<char>>, Option<Seq<char>>)>,
    Option<(Option<Seq<char>>, Option<u32>)>,
    Option<u64>,
) {
    ddl_from_caps(
        regex_captures(partition_pattern(), ddl),
        regex_captures(dist_pattern(), ddl),
        regex_captures(rows_pattern(), ddl),
    )
}

/// The view of the facts.
pub open spec fn ddl_view(d: DdlInfo) -> (
    Option<(Option<Seq<char>>, Option<Seq<char>>)>,
    Option<(Option<Seq<char>>, Option<u32>)>,
    Option<u64>,
) {
    (
        match d.partition {
            Some((a, b)) => Some((opt_text(a), opt_text(b))),
            None => None,
        },
        match d.dist {
            Some((a, b)) => Some((opt_text(a), b)),
            None => None,
        },
        d.rows,
    )
}

pub open spec fn opt_text(o: Option<String>) -> Option<Seq<char>> {
    match o {
        Some(s) => Some(s@),
        None => None,
    }
}

fn first_caps(o: Option<Vec<Vec<Option<String>>>>) -> (r: Option<Vec<Option<String>>>)
    ensures
        match (r, first_of(caps_view(o))) {
            (Some(c), Some(g)) => c@.map_values(|x: Option<String>| match x {
                Some(s) => Some(s@),
                None => None,
            }) == g,
            (None, None) => true,
            _ => false,
        },
{
    match o {
        Some(mut cs) => {
            if cs.len() > 0 {
                let c = cs.swap_remove(0);
                Some(c)
            } else {
                None
            }
        },
        None => None,
    }
}

/// The facts of a DDL from the matches of the partition, distribution and row-count
/// patterns (`None` where a pattern did not compile).
pub fn ddl_of_captures(
    partition: Option<Vec<Vec<Option<String>>>>,
    dist: Option<Vec<Vec<Option<String>>>>,
    rows: Option<Vec<Vec<Option<String>>>>,
) -> (r: DdlInfo)
    ensures
        ddl_view(r) == ddl_from_caps(caps_view(partition), caps_view(dist), caps_view(rows)),
{
    let partition = match first_caps(partition) {
        Some(c) => Some((group_exec(&c, 1), group_exec(&c, 2))),
        None => None,
    };
    let dist = match first_caps(dist) {
        Some(c) => {
            let key = group_exec(&c, 1);
            let b = group_exec(&c, 2);
            let buckets = match &b {
                Some(t) => parse_u32_text(t.as_str()),
                None => None,
            };
            Some((key, buckets))
        },
        None => None,
    };
    let rows = match first_caps(rows) {
        Some(c) => {
            let g = group_exec(&c, 1);
            match &g {
                Some(t) => parse_u64_text(t.as_str()),
                None => None,
            }
        },
        None => None,
    };
    DdlInfo { partition, dist, rows }
}

/// Read the partition, distribution and row-count facts from a DDL statement.
pub fn parse_ddl(ddl: &str) -> (r: DdlInfo)
    ensures
        ddl_view(r) == spec_parse_ddl(ddl@),
{
    let partition = all_captures("(?i)PARTITION BY\\s+\u{28}\\w+\u{29}\\s*\\\u{28}\u{28}[^\u{29}]+\u{29}\\\u{29}", ddl);
    let dist = all_captures(
        "(?i)DISTRIBUTED BY\\s+HASH\\s*\\\u{28}\u{28}[^\u{29}]+\u{29}\\\u{29}\\s*BUCKETS\\s*\u{28}\\d+\u{29}",
        ddl,
    );
    let rows = all_captures("(?i)\"row_count\"\\s*:\\s*\"?\u{28}\\d+\u{29}\"?", ddl);
    ddl_of_captures(partition, dist, rows)
}

/// A SQL diagnosis request.
pub struct DiagReq {
    pub sql: String,
    pub database: Option<String>,
    pub catalog: Option<String>,
}

/// A SQL diagnosis answer; `data` holds the diagnosis document.
pub struct DiagResp {
    pub ok: bool,
    pub data: Option<String>,
    pub err: Option<String>,
    pub cached: bool,
    pub ms: u64,
}

impl DiagResp {
    /// A successful answer.
    pub fn ok(data: String, cached: bool, ms: u64) -> (r: Self)
        ensures
            r.ok,
            r.data == Some(data),
            r.err is None,
            r.cached == cached,
            r.ms == ms,
    {
        DiagResp { ok: true, data: Some(data), err: None, cached, ms }
    }

    /// A failed answer.
    pub fn fail(err: String, ms: u64) -> (r: Self)
        ensures
            !r.ok,
            r.data is None,
            r.err == Some(err),
            !r.cached,
            r.ms == ms,
    {
        DiagResp { ok: false, data: None, err: Some(err), cached: false, ms }
    }
}


// ---------------------------------------------------------------------------
// Console execution plan and `SHOW PROC` statements
// ---------------------------------------------------------------------------

/// Most statements the console runs from one script.
pub const MAX_STATEMENTS: usize = 5;

/// The statements the console runs for a script, each with the SQL actually sent:
/// the first five statements, each capped with `LIMIT` (1000 rows unless another
/// limit is asked for).
pub open spec fn spec_statements_to_run(sql: Seq<char>, limit: Option<i32>) -> Seq<(Seq<char>, Seq<char>)> {
    let stmts = spec_statements(sql);
    let n = if stmts.len() < 5 { stmts.len() } else { 5 };
    let lim = match limit {
        Some(l) => l,
        None => 1000i32,
    };
    Seq::new(n, |i: int| (stmts[i], spec_apply_query_limit(stmts[i], lim)))
}

/// The statements of a console script to run, with the SQL sent for each.
pub fn statements_to_run(sql: &str, limit: Option<i32>) -> (r: Vec<(String, String)>)
    ensures
        r@.len() == spec_statements_to_run(sql@, limit).len(),
        forall|i: int| 0 <= i < r@.len() ==> (#[trigger] r@[i]).0@ == spec_statements_to_run(sql@, limit)[i].0
            && r@[i].1@ == spec_statements_to_run(sql@, limit)[i].1,
{
    let stmts = parse_sql_statements(sql);
    let lim: i32 = match limit {
        Some(l) => l,
        None => 1000,
    };
    let n = if stmts.len() < MAX_STATEMENTS {
        stmts.len()
    } else {
        MAX_STATEMENTS
    };
    let ghost want = spec_statements_to_run(sql@, limit);
    let mut out: Vec<(String, String)> = Vec::new();
    let mut i: usize = 0;
    while i < n
        invariant
            i <= n,
            n <= stmts@.len(),
            n == want.len(),
            vstr(stmts@) == spec_statements(sql@),
            want == spec_statements_to_run(sql@, limit),
            lim == (match limit {
                Some(l) => l,
                None => 1000i32,
            }),
            out@.len() == i,
            forall|k: int| 0 <= k < i ==> (#[trigger] out@[k]).0@ == want[k].0 && out@[k].1@ == want[k].1,
        decreases n - i,
    {
        let s = stmts[i].clone();
        assert(vstr(stmts@)[i as int] == stmts@[i as int]@);
        let run = apply_query_limit(s.as_str(), lim);
        out.push((s, run));
        i = i + 1;
    }
    out
}

/// A `SHOW PROC` path: `/` when empty, otherwise with a leading `/`.
pub open spec fn spec_normalize_proc_path(path: Seq<char>) -> Seq<char> {
    if path.len() == 0 {
        "/"@
    } else if path[0] == '/' {
        path
    } else {
        "/"@ + path
    }
}

/// The path with backslashes doubled and double quotes escaped.
pub open spec fn spec_escape_proc_path(path: Seq<char>) -> Seq<char>
    decreases path.len(),
{
    if path.len() == 0 {
        Seq::empty()
    } else {
        let c = path.last();
        spec_escape_proc_path(path.drop_last()) + (if c == '\\' {
            seq!['\\', '\\']
        } else if c == '"' {
            seq!['\\', '"']
        } else {
            seq![c]
        })
    }
}

/// A `SHOW PROC` path with a leading `/`.
pub fn normalize_proc_path(path: &str) -> (r: String)
    ensures
        r@ == spec_normalize_proc_path(path@),
{
    let n = path.unicode_len();
    if n == 0 {
        String::from_str("/")
    } else if path.get_char(0) == '/' {
        String::from_str(path)
    } else {
        let mut s = String::from_str("/");
        push_str(&mut s, path);
        s
    }
}

/// The path escaped for a double-quoted SQL string.
pub fn escape_proc_path(path: &str) -> (r: String)
    ensures
        r@ == spec_escape_proc_path(path@),
{
    let v = chars_of(path);
    let mut s = String::new();
    let mut i: usize = 0;
    while i < v.len()
        invariant
            i <= v.len(),
            v@ == path@,
            s@ == spec_escape_proc_path(v@.take(i as int)),
        decreases v.len() - i,
    {
        let c = v[i];
        proof {
            assert(v@.take(i + 1).drop_last() =~= v@.take(i as int));
            assert(v@.take(i + 1).last() == c);
        }
        let ghost before = s@;
        if c == '\\' {
            string_push(&mut s, '\\');
            string_push(&mut s, '\\');
            assert(s@ =~= before + seq!['\\', '\\']);
        } else if c == '"' {
            string_push(&mut s, '\\');
            string_push(&mut s, '"');
            assert(s@ =~= before + seq!['\\', '"']);
        } else {
            string_push(&mut s, c);
            assert(s@ =~= before + seq![c]);
        }
        i = i + 1;
    }
    assert(v@.take(v@.len() as int) =~= v@);
    s
}

/// The `SHOW PROC "<path>"` statement for a path.
pub fn build_show_proc_sql(path: &str) -> (r: String)
    ensures
        r@ == "SHOW PROC \""@ + spec_escape_proc_path(spec_normalize_proc_path(path@)) + "\""@,
{
    let normalized = normalize_proc_path(path);
    let escaped = escape_proc_path(normalized.as_str());
    let mut s = String::from_str("SHOW PROC \"");
    push_str(&mut s, escaped.as_str());
    push_str(&mut s, "\"");
    s
}


proof fn lemma_split_run_nonempty(s: Seq<char>)
    ensures
        forall|i: int| 0 <= i < split_run(s).stmts.len() ==> (#[trigger] split_run(s).stmts[i]).len() > 0,
    decreases s.len(),
{
    if s.len() > 0 {
        lemma_split_run_nonempty(s.drop_last());
        let st = split_run(s.drop_last());
        let c = s.last();
        let t = trim_seq(st.cur);
        assert forall|i: int| 0 <= i < split_run(s).stmts.len() implies (#[trigger] split_run(s).stmts[i]).len() > 0 by {
            if c == ';' && !st.in_single && !st.in_double && t.len() > 0 && i == st.stmts.len() {
                assert(split_run(s).stmts[i] == t);
            } else {
                assert(split_run(s).stmts[i] == st.stmts[i]);
            }
        }
    }
}

/// Law of the statement splitter: no statement it returns is empty.
pub proof fn lemma_statements_nonempty(sql: Seq<char>)
    ensures
        forall|i: int| 0 <= i < spec_statements(sql).len() ==> (#[trigger] spec_statements(sql)[i]).len() > 0,
{
    lemma_split_run_nonempty(sql);
    let st = split_run(sql);
    let t = trim_seq(st.cur);
    assert forall|i: int| 0 <= i < spec_statements(sql).len() implies (#[trigger] spec_statements(sql)[i]).len() > 0 by {
        if t.len() > 0 && i == st.stmts.len() {
            assert(spec_statements(sql)[i] == t);
        } else {
            assert(spec_statements(sql)[i] == st.stmts[i]);
        }
    }
}


// ---------------------------------------------------------------------------
// Catalog, database and table listings
// ---------------------------------------------------------------------------

/// A database that listings leave out: `information_schema` and `_statistics_`.
pub open spec fn is_system_database(name: Seq<char>) -> bool {
    name == "information_schema"@ || name == "_statistics_"@
}

/// The trimmed first cells of the rows that are not blank, in row order; with
/// `skip_system`, system databases are left out too.
pub open spec fn spec_listed_names(rows: Seq<Seq<Seq<char>>>, skip_system: bool) -> Seq<Seq<char>>
    decreases rows.len(),
{
    if rows.len() == 0 {
        Seq::empty()
    } else {
        let rest = spec_listed_names(rows.drop_last(), skip_system);
        let row = rows.last();
        if row.len() > 0 && trim_seq(row[0]).len() > 0 && !(skip_system && is_system_database(trim_seq(row[0]))) {
            rest.push(trim_seq(row[0]))
        } else {
            rest
        }
    }
}

/// The names of a `SHOW CATALOGS`, `SHOW DATABASES` or `SHOW TABLES` result.
pub fn listed_names(rows: &Vec<Vec<String>>, skip_system: bool) -> (r: Vec<String>)
    ensures
        vstr(r@) == spec_listed_names(rows@.map_values(|row: Vec<String>| vstr(row@)), skip_system),
{
    let ghost rs = rows@.map_values(|row: Vec<String>| vstr(row@));
    let mut out: Vec<String> = Vec::new();
    let mut i: usize = 0;
    while i < rows.len()
        invariant
            i <= rows.len(),
            rs == rows@.map_values(|row: Vec<String>| vstr(row@)),
            vstr(out@) == spec_listed_names(rs.take(i as int), skip_system),
        decreases rows.len() - i,
    {
        let row = &rows[i];
        proof {
            assert(rs.take(i + 1).drop_last() =~= rs.take(i as int));
            assert(rs.take(i + 1).last() == vstr(row@));
        }
        if row.len() > 0 {
            assert(vstr(row@)[0] == row@[0]@);
            let t = str_trim(row[0].as_str());
            let keep = t.unicode_len() > 0 && !(skip_system && (crate::text::str_eq(t, "information_schema")
                || crate::text::str_eq(t, "_statistics_")));
            if keep {
                let name = String::from_str(t);
                proof {
                    assert(vstr(out@.push(name)) =~= vstr(out@).push(name@));
                }
                out.push(name);
            }
        }
        i = i + 1;
    }
    assert(rs.take(rs.len() as int) =~= rs);
    out
}

/// The statement that switches the session's catalog.
pub fn use_catalog_sql(catalog: &str) -> (s: String)
    ensures
        s@ == "USE CATALOG "@ + catalog@,
{
    let mut s = String::from_str("USE CATALOG ");
    push_str(&mut s, catalog);
    s
}

/// The statement that kills a running query.
pub fn kill_query_sql(query_id: &str) -> (s: String)
    ensures
        s@ == "KILL QUERY '"@ + query_id@ + "'"@,
{
    let mut s = String::from_str("KILL QUERY '");
    push_str(&mut s, query_id);
    push_str(&mut s, "'");
    s
}

/// The database whose tables are listed: the trimmed parameter, when it is not blank.
pub fn table_listing_database(param: Option<&str>) -> (r: Option<String>)
    ensures
        match param {
            Some(p) => if trim_seq(p@).len() > 0 {
                r matches Some(d) && d@ == trim_seq(p@)
            } else {
                r is None
            },
            None => r is None,
        },
{
    match param {
        Some(p) => {
            let t = str_trim(p);
            if t.unicode_len() > 0 {
                Some(String::from_str(t))
            } else {
                None
            }
        },
        None => None,
    }
}


// ---------------------------------------------------------------------------
// SQL diagnosis context
// ---------------------------------------------------------------------------

/// The `EXPLAIN VERBOSE` statement of a query: trimmed, trailing semicolons removed.
pub fn explain_sql(sql: &str) -> (s: String)
    ensures
        s@ == "EXPLAIN VERBOSE "@ + strip_semicolons(trim_seq(sql@)),
{
    let t = chars_of(str_trim(sql));
    let mut end = t.len();
    assert(t@.take(end as int) =~= t@);
    while end > 0 && t[end - 1] == ';'
        invariant
            end <= t.len(),
            strip_semicolons(t@.take(end as int)) == strip_semicolons(t@),
        decreases end,
    {
        proof {
            assert(t@.take(end as int).drop_last() =~= t@.take(end - 1));
        }
        end = end - 1;
    }
    let body = string_of_range(&t, 0, end);
    assert(body@ =~= t@.take(end as int));
    let mut s = String::from_str("EXPLAIN VERBOSE ");
    push_str(&mut s, body.as_str());
    s
}

/// The cells of the rows, row after row.
pub open spec fn flat_cells(rows: Seq<Seq<Seq<char>>>) -> Seq<Seq<char>>
    decreases rows.len(),
{
    if rows.len() == 0 {
        Seq::empty()
    } else {
        flat_cells(rows.drop_last()) + rows.last()
    }
}

/// Lines joined with a newline between each two.
pub open spec fn join_lines(lines: Seq<Seq<char>>) -> Seq<char>
    decreases lines.len(),
{
    if lines.len() == 0 {
        Seq::empty()
    } else if lines.len() == 1 {
        lines[0]
    } else {
        join_lines(lines.drop_last()) + "\n"@ + lines.last()
    }
}

/// Most lines of a plan given to the LLM.
pub const MAX_PLAN_LINES: usize = 200;

/// The plan text of an `EXPLAIN` result: its first 200 cells, one per line.
pub fn explain_text(rows: &Vec<Vec<String>>) -> (s: String)
    ensures
        ({
            let cells = flat_cells(rows@.map_values(|row: Vec<String>| vstr(row@)));
            s@ == join_lines(if cells.len() <= 200 { cells } else { cells.take(200) })
        }),
{
    let ghost rs = rows@.map_values(|row: Vec<String>| vstr(row@));
    let mut s = String::new();
    let mut n: usize = 0;
    let mut i: usize = 0;
    let ghost taken: Seq<Seq<char>> = Seq::empty();
    while i < rows.len() && n < MAX_PLAN_LINES
        invariant
            i <= rows.len(),
            n <= MAX_PLAN_LINES,
            rs == rows@.map_values(|row: Vec<String>| vstr(row@)),
            taken.len() == n,
            s@ == join_lines(taken),
            ({
                let f = flat_cells(rs.take(i as int));
                (f.len() <= n && taken == f) || (n == MAX_PLAN_LINES && f.len() >= n && taken == f.take(n as int))
            }),
            n < MAX_PLAN_LINES ==> taken == flat_cells(rs.take(i as int)),
        decreases rows.len() - i,
    {
        let row = &rows[i];
        proof {
            assert(rs.take(i + 1).drop_last() =~= rs.take(i as int));
            assert(rs.take(i + 1).last() == vstr(row@));
        }
        let ghost f0 = flat_cells(rs.take(i as int));
        let mut j: usize = 0;
        while j < row.len() && n < MAX_PLAN_LINES
            invariant
                j <= row.len(),
                n <= MAX_PLAN_LINES,
                taken.len() == n,
                s@ == join_lines(taken),
                f0 == flat_cells(rs.take(i as int)),
                taken == f0 + vstr(row@).take(j as int),
            decreases row.len() - j,
        {
            proof {
                assert(vstr(row@)[j as int] == row@[j as int]@);
                assert(vstr(row@).take(j + 1) =~= vstr(row@).take(j as int).push(row@[j as int]@));
            }
            let ghost before = taken;
            if n > 0 {
                push_str(&mut s, "\n");
            }
            push_str(&mut s, row[j].as_str());
            proof {
                taken = taken.push(row@[j as int]@);
                assert(taken.drop_last() =~= before);
                if n == 0 {
                    assert(before.len() == 0);
                    assert(join_lines(taken) == taken[0]);
                    assert(s@ =~= join_lines(taken));
                } else {
                    assert(s@ =~= join_lines(taken));
                }
            }
            n = n + 1;
            j = j + 1;
        }
        proof {
            let f1 = flat_cells(rs.take(i + 1));
            assert(f1 == f0 + vstr(row@));
            if j == row.len() {
                assert(vstr(row@).take(j as int) =~= vstr(row@));
                assert(taken == f1);
            } else {
                assert(n == MAX_PLAN_LINES);
                assert(f1.take(n as int) =~= f0 + vstr(row@).take(j as int));
            }
        }
        i = i + 1;
    }
    proof {
        let f = flat_cells(rs.take(i as int));
        let cells = flat_cells(rs);
        lemma_flat_prefix(rs, i as int, n as int);
        if n < MAX_PLAN_LINES {
            assert(rs.take(rows.len() as int) =~= rs);
            assert(taken == cells);
        } else {
            assert(taken =~= f.take(n as int));
            if cells.len() <= 200 {
                assert(cells.take(200) =~= cells);
            }
        }
    }
    s
}

proof fn lemma_flat_prefix(rs: Seq<Seq<Seq<char>>>, i: int, n: int)
    requires
        0 <= i <= rs.len(),
        0 <= n <= flat_cells(rs.take(i)).len(),
    ensures
        flat_cells(rs).take(n) == flat_cells(rs.take(i)).take(n),
        flat_cells(rs).len() >= flat_cells(rs.take(i)).len(),
    decreases rs.len() - i,
{
    if i < rs.len() {
        assert(rs.take(i + 1).drop_last() =~= rs.take(i));
        let a = flat_cells(rs.take(i));
        let b = flat_cells(rs.take(i + 1));
        assert(b == a + rs[i]);
        lemma_flat_prefix(rs, i + 1, n);
        assert(b.take(n) =~= a.take(n));
    } else {
        assert(rs.take(i) =~= rs);
    }
}

/// Whether a diagnosis switches catalog first: only for a named catalog other than
/// `default_catalog`.
pub open spec fn switches_catalog(cat: Seq<char>) -> bool {
    cat.len() > 0 && cat != "default_catalog"@
}

/// The back-quoted database, qualified by its catalog unless that is the default.
pub open spec fn spec_table_prefix(cat: Seq<char>, db: Seq<char>) -> Seq<char> {
    if switches_catalog(cat) {
        "`"@ + cat + "`.`"@ + db + "`"@
    } else {
        "`"@ + db + "`"@
    }
}

/// Whether a diagnosis switches catalog first.
pub fn needs_catalog_switch(cat: &str) -> (b: bool)
    ensures
        b == switches_catalog(cat@),
{
    cat.unicode_len() > 0 && !crate::text::str_eq(cat, "default_catalog")
}

/// The `SHOW CREATE TABLE` statement of a table of the diagnosed database.
pub fn show_create_table_sql(cat: &str, db: &str, table: &str) -> (s: String)
    ensures
        s@ == "SHOW CREATE TABLE "@ + spec_table_prefix(cat@, db@) + ".`"@ + table@ + "`"@,
{
    let mut s = String::from_str("SHOW CREATE TABLE `");
    if needs_catalog_switch(cat) {
        push_str(&mut s, cat);
        push_str(&mut s, "`.`");
    }
    push_str(&mut s, db);
    push_str(&mut s, "`.`");
    push_str(&mut s, table);
    push_str(&mut s, "`");
    proof {
        reveal_strlit("SHOW CREATE TABLE `");
        reveal_strlit("SHOW CREATE TABLE ");
        reveal_strlit("`");
        reveal_strlit("`.`");
        reveal_strlit(".`");
    }
    s
}

} // verus!
