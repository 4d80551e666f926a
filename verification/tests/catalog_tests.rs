use starrocks_admin_backend::catalog::{
    db_tables_proc_path, find_db_id, show_tables_sql, sync_mvs_from_rows, tables_from_proc_rows,
    tables_from_show_rows,
};
use starrocks_admin_backend::error::{ApiError, LocalizedText};
use starrocks_admin_backend::metrics::{format_bytes, parse_bytes};
use starrocks_admin_backend::permissions::check_role_code_available;
use starrocks_admin_backend::sql::{ddl_of_captures, tables_of_captures};

fn s(t: &str) -> String {
    t.to_string()
}

fn cell(t: &str) -> Option<String> {
    Some(t.to_string())
}

#[test]
fn show_tables_rows_give_base_tables() {
    assert_eq!(show_tables_sql("sales"), "SHOW TABLES FROM `sales`");
    let rows = vec![cell("orders"), None, cell(""), cell("items")];
    let t = tables_from_show_rows(&rows);
    assert_eq!(t.len(), 2);
    assert_eq!(t[0].table_name, "orders");
    assert_eq!(t[0].table_type, "BASE TABLE");
    assert!(t[0].engine.is_none());
    assert_eq!(t[1].table_name, "items");
}

#[test]
fn database_id_is_looked_up_by_name() {
    let dbs = vec![(s("a"), cell("10")), (s("b"), None), (s("c"), cell("12")), (s("c"), cell("13"))];
    assert_eq!(find_db_id(&dbs, "a").ok(), Some(s("10")));
    assert_eq!(find_db_id(&dbs, "c").ok(), Some(s("12")));
    match find_db_id(&dbs, "b") {
        Err(ApiError::ResourceNotFound(m)) => assert_eq!(m, "Database 'b' not found"),
        _ => panic!("expected not found"),
    }
    match find_db_id(&dbs, "zz") {
        Err(ApiError::ResourceNotFound(m)) => assert_eq!(m, "Database 'zz' not found"),
        _ => panic!("expected not found"),
    }
    assert_eq!(db_tables_proc_path("12"), "/dbs/12");
}

#[test]
fn proc_rows_give_named_tables() {
    let rows = vec![
        Some(vec![(s("TableId"), cell("1")), (s("TableName"), cell("t1")), (s("Type"), cell("OLAP"))]),
        Some(vec![(s("table_name"), cell("t2"))]),
        Some(vec![(s("TableName"), cell(""))]),
        Some(vec![(s("TableName"), None), (s("table_name"), cell("ignored"))]),
        None,
        Some(vec![(s("TableName"), cell("t3")), (s("Type"), None), (s("type"), cell("VIEW"))]),
    ];
    let t = tables_from_proc_rows(&rows);
    assert_eq!(t.len(), 3);
    assert_eq!((t[0].table_name.as_str(), t[0].table_type.as_str()), ("t1", "OLAP"));
    assert_eq!((t[1].table_name.as_str(), t[1].table_type.as_str()), ("t2", "BASE TABLE"));
    assert_eq!((t[2].table_name.as_str(), t[2].table_type.as_str()), ("t3", "BASE TABLE"));
}

#[test]
fn sync_views_keep_finished_rows() {
    let cols = vec![cell("JobId"), cell("TableName"), cell("CreateTime"), cell("FinishedTime"),
        cell("RollupIndexName"), cell("State")];
    let rows = vec![
        Some(vec![cell("1"), cell("orders"), cell("2024-01-01"), cell("2024-01-02"), cell("mv1"), cell("FINISHED")]),
        Some(vec![cell("2"), cell("orders"), cell("2024-01-03"), None, cell("mv2"), cell("RUNNING")]),
        None,
        Some(vec![cell("3"), cell("items")]),
    ];
    let v = sync_mvs_from_rows(&cols, &rows, Some("shop"));
    assert_eq!(v.len(), 2);
    assert_eq!(v[0].id, "sync_mv1");
    assert_eq!(v[0].name, "mv1");
    assert_eq!(v[0].database_name, "shop");
    assert_eq!(v[0].refresh_type, "ROLLUP");
    assert!(v[0].is_active);
    assert_eq!(v[0].last_refresh_start_time.as_deref(), Some("2024-01-01"));
    assert_eq!(v[0].last_refresh_finished_time.as_deref(), Some("2024-01-02"));
    assert_eq!(v[0].last_refresh_state.as_deref(), Some("SUCCESS"));
    assert_eq!(v[0].text, "-- Sync materialized view on table: orders");
    // A short row: no name, no times.
    assert_eq!(v[1].id, "sync_");
    assert_eq!(v[1].text, "-- Sync materialized view on table: items");
    assert!(v[1].last_refresh_start_time.is_none());
    let none = sync_mvs_from_rows(&cols, &rows, None);
    assert_eq!(none[0].database_name, "");
}

#[test]
fn role_code_must_be_free() {
    assert!(check_role_code_available(None).is_ok());
    match check_role_code_available(Some(4)) {
        Err(ApiError::ValidationError(m)) => assert_eq!(m, "Role code already exists"),
        _ => panic!("expected a validation error"),
    }
}

#[test]
fn error_messages_pick_their_keys() {
    match ApiError::Unauthorized(s("Missing authorization header")).message_key() {
        LocalizedText::Translated { key, args } => {
            assert_eq!(key, "auth.missing_header");
            assert!(args.is_empty());
        },
        _ => panic!("expected a key"),
    }
    match ApiError::Unauthorized(s("JWT verification failed: bad sig")).message_key() {
        LocalizedText::Translated { key, .. } => assert_eq!(key, "auth.jwt_failed"),
        _ => panic!("expected a key"),
    }
    match ApiError::Unauthorized(s("Permission denied: users:list")).message_key() {
        LocalizedText::Verbatim(t) => assert_eq!(t, "Permission denied: users:list"),
        _ => panic!("expected the text itself"),
    }
    match (ApiError::ClusterNotFound { cluster_id: -7 }).message_key() {
        LocalizedText::Translated { key, args } => {
            assert_eq!(key, "cluster.not_found");
            assert_eq!(args, vec![(s("id"), s("-7"))]);
        },
        _ => panic!("expected a key"),
    }
    match ApiError::ValidationError(s("bad port")).message_key() {
        LocalizedText::Translated { key, args } => {
            assert_eq!(key, "validation.failed");
            assert_eq!(args, vec![(s("details"), s("bad port"))]);
        },
        _ => panic!("expected a key"),
    }
    match ApiError::InvalidInput(s("x")).message_key() {
        LocalizedText::Verbatim(t) => assert_eq!(t, "x"),
        _ => panic!("expected the text itself"),
    }
}

#[test]
fn formatted_sizes_read_back() {
    for j in 0..5u32 {
        for k in [0u64, 1, 7, 512, 1023] {
            let n = k * 1024u64.pow(j);
            assert_eq!(parse_bytes(&format_bytes(n)), Some(n), "{} bytes", n);
        }
    }
    assert_eq!(format_bytes(3 * 1024 * 1024), "3.00 MB");
    assert_eq!(parse_bytes("1e3 KB"), Some(1_024_000));
    assert_eq!(parse_bytes("inf KB"), Some(u64::MAX));
}

#[test]
fn captures_give_tables_and_ddl_facts() {
    let cs = vec![
        vec![cell("FROM a.b.c"), cell("a"), cell("b"), cell("c")],
        vec![cell("JOIN x.y"), cell("x"), cell("y"), None],
        vec![cell("INTO t"), cell("t"), None, None],
        vec![cell("FROM"), None],
    ];
    assert_eq!(tables_of_captures(&cs), vec![s("c"), s("y"), s("t")]);
    let d = ddl_of_captures(
        Some(vec![vec![cell("PARTITION BY RANGE(dt)"), cell("RANGE"), cell("dt")]]),
        Some(vec![vec![cell("DISTRIBUTED BY HASH(id) BUCKETS 8"), cell("id"), cell("8")]]),
        Some(vec![vec![cell("\"row_count\": \"99\""), cell("99")], vec![cell("x"), cell("5")]]),
    );
    assert_eq!(d.partition, Some((cell("RANGE"), cell("dt"))));
    assert_eq!(d.dist, Some((cell("id"), Some(8))));
    assert_eq!(d.rows, Some(99));
    let e = ddl_of_captures(None, Some(vec![]), Some(vec![vec![cell("x"), cell("99999999999999999999")]]));
    assert!(e.partition.is_none());
    assert!(e.dist.is_none());
    assert!(e.rows.is_none());
}
