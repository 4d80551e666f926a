//! Catalog listings read from the cluster: the tables of a database (from
//! `SHOW TABLES`, or from the `/dbs/<id>` proc listing when that fails) and the
//! synchronous materialized views reported by `SHOW ALTER MATERIALIZED VIEW`.
//!
//! Result rows come in as plain values: a JSON object as its (key, value) entries,
//! each value as its text when it is a JSON string and `None` otherwise; a JSON array
//! as its cells, in the same way.
use vstd::prelude::*;
use vstd::string::*;
use crate::error::ApiError;
use crate::metrics::push_str;
use crate::text::str_eq;

verus! {

/// A table of a database.
pub struct Table {
    pub table_name: String,
    pub table_type: String,
    pub engine: Option<String>,
}

/// The view of a table: its name, its type and its engine.
pub struct TableView {
    pub table_name: Seq<char>,
    pub table_type: Seq<char>,
    pub engine: Option<Seq<char>>,
}

impl View for Table {
    type V = TableView;

    open spec fn view(&self) -> TableView {
        TableView {
            table_name: self.table_name@,
            table_type: self.table_type@,
            engine: match self.engine {
                Some(e) => Some(e@),
                None => None,
            },
        }
    }
}

/// The views of a list of tables.
pub open spec fn vtables(v: Seq<Table>) -> Seq<TableView> {
    v.map_values(|t: Table| t@)
}

/// The text of an optional JSON string cell.
pub open spec fn opt_text(o: Option<String>) -> Option<Seq<char>> {
    match o {
        Some(s) => Some(s@),
        None => None,
    }
}

/// The type given to a table whose listing names none.
pub open spec fn base_table() -> Seq<char> {
    "BASE TABLE"@
}

/// A table with the default type and no engine.
pub open spec fn plain_table(name: Seq<char>) -> TableView {
    TableView { table_name: name, table_type: base_table(), engine: None }
}

/// The statement that lists a database's tables.
pub fn show_tables_sql(database: &str) -> (s: String)
    ensures
        s@ == "SHOW TABLES FROM `"@ + database@ + "`"@,
{
    let mut s = String::from_str("SHOW TABLES FROM `");
    push_str(&mut s, database);
    push_str(&mut s, "`");
    s
}

/// The tables of a `SHOW TABLES` result, given the first value of each row (`None`
/// for a row that is not an object, or whose first value is not a string): each
/// non-empty name gives a table of type `BASE TABLE`, in row order.
pub open spec fn spec_tables_from_show(firsts: Seq<Option<Seq<char>>>) -> Seq<TableView>
    decreases firsts.len(),
{
    if firsts.len() == 0 {
        Seq::empty()
    } else {
        let rest = spec_tables_from_show(firsts.drop_last());
        match firsts.last() {
            Some(n) => if n.len() > 0 {
                rest.push(plain_table(n))
            } else {
                rest
            },
            None => rest,
        }
    }
}

/// The tables of a `SHOW TABLES` result.
pub fn tables_from_show_rows(firsts: &Vec<Option<String>>) -> (r: Vec<Table>)
    ensures
        vtables(r@) == spec_tables_from_show(firsts@.map_values(|o: Option<String>| opt_text(o))),
{
    let ghost fs = firsts@.map_values(|o: Option<String>| opt_text(o));
    let mut out: Vec<Table> = Vec::new();
    let mut i: usize = 0;
    while i < firsts.len()
        invariant
            i <= firsts.len(),
            fs == firsts@.map_values(|o: Option<String>| opt_text(o)),
            vtables(out@) == spec_tables_from_show(fs.take(i as int)),
        decreases firsts.len() - i,
    {
        proof {
            assert(fs.take(i + 1).drop_last() =~= fs.take(i as int));
            assert(fs.take(i + 1).last() == fs[i as int]);
        }
        match &firsts[i] {
            Some(n) => {
                if n.unicode_len() > 0 {
                    let t = Table { table_name: n.clone(), table_type: String::from_str("BASE TABLE"), engine: None };
                    proof {
                        assert(vtables(out@.push(t)) =~= vtables(out@).push(t@));
                    }
                    out.push(t);
                }
            },
            None => {},
        }
        i = i + 1;
    }
    assert(fs.take(fs.len() as int) =~= fs);
    out
}

/// The id of the first database named `database` in the `/dbs` listing (name and
/// optional id of each); an error when there is none, or when that entry has no id.
pub open spec fn spec_find_db_id(dbs: Seq<(Seq<char>, Option<Seq<char>>)>, database: Seq<char>) -> Result<
    Seq<char>,
    Seq<char>,
>
    decreases dbs.len(),
{
    if dbs.len() == 0 {
        Err("Database '"@ + database + "' not found"@)
    } else if dbs[0].0 == database {
        match dbs[0].1 {
            Some(id) => Ok(id),
            None => Err("Database '"@ + database + "' not found"@),
        }
    } else {
        spec_find_db_id(dbs.drop_first(), database)
    }
}

/// The view of the `/dbs` listing.
pub open spec fn vdbs(dbs: Seq<(String, Option<String>)>) -> Seq<(Seq<char>, Option<Seq<char>>)> {
    dbs.map_values(|d: (String, Option<String>)| (d.0@, opt_text(d.1)))
}

fn not_found_db(database: &str) -> (e: ApiError)
    ensures
        e matches ApiError::ResourceNotFound(m) && m@ == "Database '"@ + database@ + "' not found"@,
{
    let mut m = String::from_str("Database '");
    push_str(&mut m, database);
    push_str(&mut m, "' not found");
    ApiError::not_found(m)
}

/// Find the id of a database in the `/dbs` listing.
pub fn find_db_id(dbs: &Vec<(String, Option<String>)>, database: &str) -> (r: Result<String, ApiError>)
    ensures
        match spec_find_db_id(vdbs(dbs@), database@) {
            Ok(id) => r matches Ok(s) && s@ == id,
            Err(m) => r matches Err(ApiError::ResourceNotFound(e)) && e@ == m,
        },
{
    let ghost ds = vdbs(dbs@);
    assert(ds.subrange(0, ds.len() as int) =~= ds);
    let mut i: usize = 0;
    while i < dbs.len()
        invariant
            i <= dbs.len(),
            ds == vdbs(dbs@),
            spec_find_db_id(ds, database@) == spec_find_db_id(ds.subrange(i as int, ds.len() as int), database@),
        decreases dbs.len() - i,
    {
        let ghost tail = ds.subrange(i as int, ds.len() as int);
        assert(tail[0] == ds[i as int]);
        assert(tail.drop_first() =~= ds.subrange(i + 1, ds.len() as int));
        if str_eq(dbs[i].0.as_str(), database) {
            match &dbs[i].1 {
                Some(id) => {
                    return Ok(id.clone());
                },
                None => {
                    return Err(not_found_db(database));
                },
            }
        }
        i = i + 1;
    }
    Err(not_found_db(database))
}

/// The proc path that lists a database's tables.
pub fn db_tables_proc_path(db_id: &str) -> (s: String)
    ensures
        s@ == "/dbs/"@ + db_id@,
{
    let mut s = String::from_str("/dbs/");
    push_str(&mut s, db_id);
    s
}

/// The value of the first entry with key `k` of a JSON object, if any.
pub open spec fn lookup(row: Seq<(Seq<char>, Option<Seq<char>>)>, k: Seq<char>) -> Option<Option<Seq<char>>>
    decreases row.len(),
{
    if row.len() == 0 {
        None
    } else if row[0].0 == k {
        Some(row[0].1)
    } else {
        lookup(row.drop_first(), k)
    }
}

/// The string under key `a`, or (when `a` is absent) under key `b`; `None` when the
/// key found holds no string, or neither is present.
pub open spec fn either_key(row: Seq<(Seq<char>, Option<Seq<char>>)>, a: Seq<char>, b: Seq<char>) -> Option<
    Seq<char>,
> {
    match lookup(row, a) {
        Some(v) => v,
        None => match lookup(row, b) {
            Some(v) => v,
            None => None,
        },
    }
}

/// The view of a JSON object row.
pub open spec fn vrow(row: Seq<(String, Option<String>)>) -> Seq<(Seq<char>, Option<Seq<char>>)> {
    row.map_values(|e: (String, Option<String>)| (e.0@, opt_text(e.1)))
}

/// The table of one `/dbs/<id>` row: named by `TableName` (else `table_name`), typed
/// by `Type` (else `type`, else `BASE TABLE`); none when the name is missing or empty.
pub open spec fn spec_proc_table(row: Seq<(Seq<char>, Option<Seq<char>>)>) -> Option<TableView> {
    match either_key(row, "TableName"@, "table_name"@) {
        Some(n) => if n.len() > 0 {
            Some(
                TableView {
                    table_name: n,
                    table_type: match either_key(row, "Type"@, "type"@) {
                        Some(t) => t,
                        None => base_table(),
                    },
                    engine: None,
                },
            )
        } else {
            None
        },
        None => None,
    }
}

/// The tables of a `/dbs/<id>` listing, in row order (`None` for a row that is not
/// an object).
pub open spec fn spec_tables_from_proc(rows: Seq<Option<Seq<(Seq<char>, Option<Seq<char>>)>>>) -> Seq<TableView>
    decreases rows.len(),
{
    if rows.len() == 0 {
        Seq::empty()
    } else {
        let rest = spec_tables_from_proc(rows.drop_last());
        match rows.last() {
            Some(row) => match spec_proc_table(row) {
                Some(t) => rest.push(t),
                None => rest,
            },
            None => rest,
        }
    }
}

/// The views of the rows of a listing.
pub open spec fn vrows(rows: Seq<Option<Vec<(String, Option<String>)>>>) -> Seq<
    Option<Seq<(Seq<char>, Option<Seq<char>>)>>,
> {
    rows.map_values(|r: Option<Vec<(String, Option<String>)>>| match r {
        Some(v) => Some(vrow(v@)),
        None => None,
    })
}

fn lookup_exec(row: &Vec<(String, Option<String>)>, k: &str) -> (r: Option<Option<String>>)
    ensures
        match (r, lookup(vrow(row@), k@)) {
            (Some(v), Some(w)) => opt_text(v) == w,
            (None, None) => true,
            _ => false,
        },
{
    let ghost rv = vrow(row@);
    assert(rv.subrange(0, rv.len() as int) =~= rv);
    let mut i: usize = 0;
    while i < row.len()
        invariant
            i <= row.len(),
            rv == vrow(row@),
            lookup(rv, k@) == lookup(rv.subrange(i as int, rv.len() as int), k@),
        decreases row.len() - i,
    {
        let ghost tail = rv.subrange(i as int, rv.len() as int);
        assert(tail[0] == rv[i as int]);
        assert(tail.drop_first() =~= rv.subrange(i + 1, rv.len() as int));
        if str_eq(row[i].0.as_str(), k) {
            return Some(row[i].1.clone());
        }
        i = i + 1;
    }
    None
}

fn either_key_exec(row: &Vec<(String, Option<String>)>, a: &str, b: &str) -> (r: Option<String>)
    ensures
        opt_text(r) == either_key(vrow(row@), a@, b@),
{
    match lookup_exec(row, a) {
        Some(v) => v,
        None => match lookup_exec(row, b) {
            Some(v) => v,
            None => None,
        },
    }
}

/// The tables of a `/dbs/<id>` proc listing.
pub fn tables_from_proc_rows(rows: &Vec<Option<Vec<(String, Option<String>)>>>) -> (r: Vec<Table>)
    ensures
        vtables(r@) == spec_tables_from_proc(vrows(rows@)),
{
    let ghost rs = vrows(rows@);
    let mut out: Vec<Table> = Vec::new();
    let mut i: usize = 0;
    while i < rows.len()
        invariant
            i <= rows.len(),
            rs == vrows(rows@),
            vtables(out@) == spec_tables_from_proc(rs.take(i as int)),
        decreases rows.len() - i,
    {
        proof {
            assert(rs.take(i + 1).drop_last() =~= rs.take(i as int));
            assert(rs.take(i + 1).last() == rs[i as int]);
        }
        match &rows[i] {
            Some(row) => {
                match either_key_exec(row, "TableName", "table_name") {
                    Some(n) => {
                        if n.unicode_len() > 0 {
                            let ty = match either_key_exec(row, "Type", "type") {
                                Some(t) => t,
                                None => String::from_str("BASE TABLE"),
                            };
                            let t = Table { table_name: n, table_type: ty, engine: None };
                            proof {
                                assert(vtables(out@.push(t)) =~= vtables(out@).push(t@));
                            }
                            out.push(t);
                        }
                    },
                    None => {},
                }
            },
            None => {},
        }
        i = i + 1;
    }
    assert(rs.take(rs.len() as int) =~= rs);
    out
}

// ---------------------------------------------------------------------------
// Synchronous materialized views
// ---------------------------------------------------------------------------

/// A materialized view as the console lists it. Synchronous views fill only some
/// fields; the others stay empty.
pub struct MaterializedView {
    pub id: String,
    pub name: String,
    pub database_name: String,
    pub refresh_type: String,
    pub is_active: bool,
    pub partition_type: Option<String>,
    pub task_id: Option<String>,
    pub task_name: Option<String>,
    pub last_refresh_start_time: Option<String>,
    pub last_refresh_finished_time: Option<String>,
    pub last_refresh_duration: Option<String>,
    pub last_refresh_state: Option<String>,
    pub rows: Option<i64>,
    pub text: String,
}

/// The view of a materialized view, field by field.
pub struct MaterializedViewView {
    pub id: Seq<char>,
    pub name: Seq<char>,
    pub database_name: Seq<char>,
    pub refresh_type: Seq<char>,
    pub is_active: bool,
    pub partition_type: Option<Seq<char>>,
    pub task_id: Option<Seq<char>>,
    pub task_name: Option<Seq<char>>,
    pub last_refresh_start_time: Option<Seq<char>>,
    pub last_refresh_finished_time: Option<Seq<char>>,
    pub last_refresh_duration: Option<Seq<char>>,
    pub last_refresh_state: Option<Seq<char>>,
    pub rows: Option<i64>,
    pub text: Seq<char>,
}

impl View for MaterializedView {
    type V = MaterializedViewView;

    open spec fn view(&self) -> MaterializedViewView {
        MaterializedViewView {
            id: self.id@,
            name: self.name@,
            database_name: self.database_name@,
            refresh_type: self.refresh_type@,
            is_active: self.is_active,
            partition_type: opt_text(self.partition_type),
            task_id: opt_text(self.task_id),
            task_name: opt_text(self.task_name),
            last_refresh_start_time: opt_text(self.last_refresh_start_time),
            last_refresh_finished_time: opt_text(self.last_refresh_finished_time),
            last_refresh_duration: opt_text(self.last_refresh_duration),
            last_refresh_state: opt_text(self.last_refresh_state),
            rows: self.rows,
            text: self.text@,
        }
    }
}

/// The views of a list of materialized views.
pub open spec fn vmvs(v: Seq<MaterializedView>) -> Seq<MaterializedViewView> {
    v.map_values(|m: MaterializedView| m@)
}

/// The last position of the column named `name` (columns that are not strings are
/// `None`).
pub open spec fn col_index(cols: Seq<Option<Seq<char>>>, name: Seq<char>) -> Option<int>
    decreases cols.len(),
{
    if cols.len() == 0 {
        None
    } else if cols.last() == Some(name) {
        Some(cols.len() - 1)
    } else {
        col_index(cols.drop_last(), name)
    }
}

/// The string in the cell at the column, if there is such a column, the row has the
/// cell and it is a string.
pub open spec fn cell_at(row: Seq<Option<Seq<char>>>, idx: Option<int>) -> Option<Seq<char>> {
    match idx {
        Some(i) => if 0 <= i < row.len() {
            row[i]
        } else {
            None
        },
        None => None,
    }
}

/// The text of an optional string, empty when absent.
pub open spec fn or_empty(o: Option<Seq<char>>) -> Seq<char> {
    match o {
        Some(s) => s,
        None => Seq::empty(),
    }
}

/// A row is skipped when its state is a string other than `FINISHED`.
pub open spec fn mv_row_skipped(cols: Seq<Option<Seq<char>>>, row: Seq<Option<Seq<char>>>) -> bool {
    match cell_at(row, col_index(cols, "State"@)) {
        Some(st) => st != "FINISHED"@,
        None => false,
    }
}

/// The synchronous view of one kept row: named by `RollupIndexName` with id
/// `sync_<name>`, in `database` (empty when none), of refresh type `ROLLUP`, active,
/// with the create and finish times as the last refresh's start and finish, state
/// `SUCCESS`, and a text naming its base table (`TableName`).
pub open spec fn spec_sync_mv(cols: Seq<Option<Seq<char>>>, row: Seq<Option<Seq<char>>>, database: Seq<char>) -> MaterializedViewView {
    let name = or_empty(cell_at(row, col_index(cols, "RollupIndexName"@)));
    let table = or_empty(cell_at(row, col_index(cols, "TableName"@)));
    MaterializedViewView {
        id: "sync_"@ + name,
        name: name,
        database_name: database,
        refresh_type: "ROLLUP"@,
        is_active: true,
        partition_type: None,
        task_id: None,
        task_name: None,
        last_refresh_start_time: cell_at(row, col_index(cols, "CreateTime"@)),
        last_refresh_finished_time: cell_at(row, col_index(cols, "FinishedTime"@)),
        last_refresh_duration: None,
        last_refresh_state: Some("SUCCESS"@),
        rows: None,
        text: "-- Sync materialized view on table: "@ + table,
    }
}

/// The synchronous views of a `SHOW ALTER MATERIALIZED VIEW` result (rows that are
/// not arrays are `None`), in row order, without the rows still in progress.
pub open spec fn spec_sync_mvs(cols: Seq<Option<Seq<char>>>, rows: Seq<Option<Seq<Option<Seq<char>>>>>, database: Seq<char>) -> Seq<
    MaterializedViewView,
>
    decreases rows.len(),
{
    if rows.len() == 0 {
        Seq::empty()
    } else {
        let rest = spec_sync_mvs(cols, rows.drop_last(), database);
        match rows.last() {
            Some(row) => if mv_row_skipped(cols, row) {
                rest
            } else {
                rest.push(spec_sync_mv(cols, row, database))
            },
            None => rest,
        }
    }
}

/// The view of a list of string cells.
pub open spec fn vcells(v: Seq<Option<String>>) -> Seq<Option<Seq<char>>> {
    v.map_values(|o: Option<String>| opt_text(o))
}

/// The views of the array rows.
pub open spec fn varrays(rows: Seq<Option<Vec<Option<String>>>>) -> Seq<Option<Seq<Option<Seq<char>>>>> {
    rows.map_values(|r: Option<Vec<Option<String>>>| match r {
        Some(v) => Some(vcells(v@)),
        None => None,
    })
}

fn col_index_exec(cols: &Vec<Option<String>>, name: &str) -> (r: Option<usize>)
    ensures
        match r {
            Some(i) => col_index(vcells(cols@), name@) == Some(i as int),
            None => col_index(vcells(cols@), name@) is None,
        },
{
    let ghost cv = vcells(cols@);
    let mut found: Option<usize> = None;
    let mut i: usize = 0;
    while i < cols.len()
        invariant
            i <= cols.len(),
            cv == vcells(cols@),
            match found {
                Some(j) => col_index(cv.take(i as int), name@) == Some(j as int),
                None => col_index(cv.take(i as int), name@) is None,
            },
        decreases cols.len() - i,
    {
        proof {
            assert(cv.take(i + 1).drop_last() =~= cv.take(i as int));
            assert(cv.take(i + 1).last() == cv[i as int]);
        }
        match &cols[i] {
            Some(c) => {
                if str_eq(c.as_str(), name) {
                    found = Some(i);
                }
            },
            None => {},
        }
        i = i + 1;
    }
    assert(cv.take(cv.len() as int) =~= cv);
    found
}

fn cell_exec(row: &Vec<Option<String>>, idx: Option<usize>) -> (r: Option<String>)
    ensures
        opt_text(r) == cell_at(vcells(row@), match idx {
            Some(i) => Some(i as int),
            None => None,
        }),
{
    match idx {
        Some(i) => {
            if i < row.len() {
                row[i].clone()
            } else {
                None
            }
        },
        None => None,
    }
}

/// The synchronous materialized views of a `SHOW ALTER MATERIALIZED VIEW` result,
/// given its column names and rows.
pub fn sync_mvs_from_rows(
    cols: &Vec<Option<String>>,
    rows: &Vec<Option<Vec<Option<String>>>>,
    database: Option<&str>,
) -> (r: Vec<MaterializedView>)
    ensures
        vmvs(r@) == spec_sync_mvs(
            vcells(cols@),
            varrays(rows@),
            match database {
                Some(d) => d@,
                None => Seq::empty(),
            },
        ),
{
    let ghost cv = vcells(cols@);
    let ghost rs = varrays(rows@);
    let ghost db = match database {
        Some(d) => d@,
        None => Seq::<char>::empty(),
    };
    let table_idx = col_index_exec(cols, "TableName");
    let rollup_idx = col_index_exec(cols, "RollupIndexName");
    let state_idx = col_index_exec(cols, "State");
    let create_idx = col_index_exec(cols, "CreateTime");
    let finished_idx = col_index_exec(cols, "FinishedTime");
    let mut out: Vec<MaterializedView> = Vec::new();
    let mut i: usize = 0;
    while i < rows.len()
        invariant
            i <= rows.len(),
            cv == vcells(cols@),
            rs == varrays(rows@),
            db == (match database {
                Some(d) => d@,
                None => Seq::<char>::empty(),
            }),
            match table_idx {
                Some(j) => col_index(cv, "TableName"@) == Some(j as int),
                None => col_index(cv, "TableName"@) is None,
            },
            match rollup_idx {
                Some(j) => col_index(cv, "RollupIndexName"@) == Some(j as int),
                None => col_index(cv, "RollupIndexName"@) is None,
            },
            match state_idx {
                Some(j) => col_index(cv, "State"@) == Some(j as int),
                None => col_index(cv, "State"@) is None,
            },
            match create_idx {
                Some(j) => col_index(cv, "CreateTime"@) == Some(j as int),
                None => col_index(cv, "CreateTime"@) is None,
            },
            match finished_idx {
                Some(j) => col_index(cv, "FinishedTime"@) == Some(j as int),
                None => col_index(cv, "FinishedTime"@) is None,
            },
            vmvs(out@) == spec_sync_mvs(cv, rs.take(i as int), db),
        decreases rows.len() - i,
    {
        proof {
            assert(rs.take(i + 1).drop_last() =~= rs.take(i as int));
            assert(rs.take(i + 1).last() == rs[i as int]);
        }
        match &rows[i] {
            Some(row) => {
                let state = cell_exec(row, state_idx);
                let skip = match &state {
                    Some(st) => !str_eq(st.as_str(), "FINISHED"),
                    None => false,
                };
                if !skip {
                    let name = match cell_exec(row, rollup_idx) {
                        Some(n) => n,
                        None => String::new(),
                    };
                    let table = match cell_exec(row, table_idx) {
                        Some(t) => t,
                        None => String::new(),
                    };
                    let mut id = String::from_str("sync_");
                    push_str(&mut id, name.as_str());
                    let mut text = String::from_str("-- Sync materialized view on table: ");
                    push_str(&mut text, table.as_str());
                    let dbname = match database {
                        Some(d) => String::from_str(d),
                        None => String::new(),
                    };
                    let mv = MaterializedView {
                        id,
                        name,
                        database_name: dbname,
                        refresh_type: String::from_str("ROLLUP"),
                        is_active: true,
                        partition_type: None,
                        task_id: None,
                        task_name: None,
                        last_refresh_start_time: cell_exec(row, create_idx),
                        last_refresh_finished_time: cell_exec(row, finished_idx),
                        last_refresh_duration: None,
                        last_refresh_state: Some(String::from_str("SUCCESS")),
                        rows: None,
                        text,
                    };
                    proof {
                        assert(vmvs(out@.push(mv)) =~= vmvs(out@).push(mv@));
                    }
                    out.push(mv);
                }
            },
            None => {},
        }
        i = i + 1;
    }
    assert(rs.take(rs.len() as int) =~= rs);
    out
}

} // verus!
