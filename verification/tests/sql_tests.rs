use starrocks_admin_backend::error::{status_for_code, ApiError};
use starrocks_admin_backend::sql::{
    explain_sql, explain_text, needs_catalog_switch, show_create_table_sql,
    kill_query_sql, listed_names, table_listing_database, use_catalog_sql,
    build_show_proc_sql, escape_proc_path, normalize_proc_path, statements_to_run,
    apply_query_limit, extract_tables, parse_ddl, parse_sql_statements,
    sanitize_query_id, truncate_sql, DiagResp,
};

#[test]
fn statements_split_outside_quotes() {
    assert_eq!(
        parse_sql_statements("SELECT 1; SELECT 'a;b'; ;  SELECT \"x;y\" "),
        vec!["SELECT 1", "SELECT 'a;b'", "SELECT \"x;y\""]
    );
    assert_eq!(parse_sql_statements("select 'it\"s'; select 2"), vec!["select 'it\"s'", "select 2"]);
    assert!(parse_sql_statements(" ; ;").is_empty());
    assert_eq!(parse_sql_statements("SELECT 'open;"), vec!["SELECT 'open;"]);
}

#[test]
fn limit_added_only_to_plain_selects() {
    assert_eq!(apply_query_limit("  select * from t;; ", 100), "select * from t LIMIT 100");
    assert_eq!(apply_query_limit("SELECT * FROM t LIMIT 5", 100), "SELECT * FROM t LIMIT 5");
    assert_eq!(apply_query_limit("SHOW TABLES", 100), "SHOW TABLES");
    assert_eq!(apply_query_limit("select get_query_profile('x')", 10), "select get_query_profile('x')");
    assert_eq!(apply_query_limit("SELECT 1", -1), "SELECT 1 LIMIT -1");
    assert_eq!(apply_query_limit("SELECT 1", i32::MIN), "SELECT 1 LIMIT -2147483648");
    assert_eq!(apply_query_limit("SELECT 1", 0), "SELECT 1 LIMIT 0");
}

#[test]
fn query_ids_are_checked() {
    assert_eq!(
        sanitize_query_id(" 12345678-1234-1234-1234-123456789abc ").ok(),
        Some("12345678-1234-1234-1234-123456789abc".to_string())
    );
    assert!(sanitize_query_id("a_b-C9").is_ok());
    for bad in ["", "   ", "abc;drop", "ab c", "é", &"x".repeat(65)] {
        match sanitize_query_id(bad) {
            Err(ApiError::InvalidInput(m)) => assert_eq!(m, "Invalid query_id format"),
            _ => panic!("{:?} must be refused", bad),
        }
    }
    assert!(sanitize_query_id(&"x".repeat(64)).is_ok());
}

#[test]
fn truncation_keeps_short_sql() {
    assert_eq!(truncate_sql("SELECT 1", 100), "SELECT 1");
    assert_eq!(truncate_sql("SELECT 123", 6), "SELECT... (truncated)");
    assert_eq!(truncate_sql("中文abc", 3), "中... (truncated)");
}

#[test]
fn tables_are_extracted() {
    assert_eq!(
        extract_tables("SELECT * FROM db.orders o JOIN `items` i ON o.id = i.oid"),
        vec!["orders", "items"]
    );
    assert_eq!(extract_tables("insert into cat.db.t select 1"), vec!["t"]);
    assert!(extract_tables("SELECT 1").is_empty());
}

#[test]
fn ddl_facts_are_read() {
    let ddl = "CREATE TABLE t (k INT) PARTITION BY RANGE(dt) (...) DISTRIBUTED BY HASH(k) BUCKETS 16 PROPERTIES (\"row_count\" : \"1234\")";
    let info = parse_ddl(ddl);
    assert_eq!(info.partition, Some((Some("RANGE".to_string()), Some("dt".to_string()))));
    assert_eq!(info.dist, Some((Some("k".to_string()), Some(16))));
    assert_eq!(info.rows, Some(1234));
    let none = parse_ddl("CREATE TABLE t (k INT)");
    assert!(none.partition.is_none() && none.dist.is_none() && none.rows.is_none());
}

#[test]
fn error_codes_and_statuses() {
    let cases: Vec<(ApiError, i32, u16)> = vec![
        (ApiError::unauthorized("x".to_string()), 1001, 401),
        (ApiError::TokenExpired, 1002, 401),
        (ApiError::cluster_not_found(3), 2001, 400),
        (ApiError::not_found("t".to_string()), 3000, 404),
        (ApiError::QueryKillFailed("k".to_string()), 3002, 404),
        (ApiError::validation_error("v".to_string()), 4001, 400),
        (ApiError::invalid_data("v".to_string()), 4002, 400),
        (ApiError::internal_error("i".to_string()), 5001, 500),
        (ApiError::CategoryCannotDelete, 6006, 500),
    ];
    for (e, code, status) in cases {
        assert_eq!(e.error_code(), code);
        assert_eq!(status_for_code(code), status);
    }
}

#[test]
fn diag_responses() {
    let ok = DiagResp::ok("{}".to_string(), true, 12);
    assert!(ok.ok && ok.cached && ok.err.is_none() && ok.ms == 12);
    let fail = DiagResp::fail("LLM service unavailable".to_string(), 3);
    assert!(!fail.ok && !fail.cached && fail.data.is_none());
    assert_eq!(fail.err.as_deref(), Some("LLM service unavailable"));
}

#[test]
fn console_runs_at_most_five_statements_with_limits() {
    let plan = statements_to_run("select 1; show tables; select 2; select 3; select 4; select 5", None);
    assert_eq!(plan.len(), 5);
    assert_eq!(plan[0], ("select 1".to_string(), "select 1 LIMIT 1000".to_string()));
    assert_eq!(plan[1], ("show tables".to_string(), "show tables".to_string()));
    let custom = statements_to_run("SELECT a FROM t", Some(10));
    assert_eq!(custom, vec![("SELECT a FROM t".to_string(), "SELECT a FROM t LIMIT 10".to_string())]);
    assert!(statements_to_run("  ;  ", Some(1)).is_empty());
}

#[test]
fn show_proc_statements_are_escaped() {
    assert_eq!(normalize_proc_path(""), "/");
    assert_eq!(normalize_proc_path("backends"), "/backends");
    assert_eq!(normalize_proc_path("/frontends"), "/frontends");
    assert_eq!(escape_proc_path(r#"a\b"c"#), r#"a\\b\"c"#);
    assert_eq!(build_show_proc_sql("backends"), "SHOW PROC \"/backends\"");
    assert_eq!(build_show_proc_sql(r#"x"y"#), r#"SHOW PROC "/x\"y""#);
}

#[test]
fn listings_keep_named_rows() {
    let rows: Vec<Vec<String>> = vec![
        vec![" default_catalog ".to_string()],
        vec![],
        vec!["   ".to_string()],
        vec!["information_schema".to_string()],
        vec!["_statistics_".to_string(), "x".to_string()],
        vec!["sales".to_string(), "ignored".to_string()],
    ];
    assert_eq!(
        listed_names(&rows, false),
        vec!["default_catalog", "information_schema", "_statistics_", "sales"]
    );
    assert_eq!(listed_names(&rows, true), vec!["default_catalog", "sales"]);
    assert_eq!(use_catalog_sql("hive"), "USE CATALOG hive");
    assert_eq!(kill_query_sql("abc"), "KILL QUERY 'abc'");
    assert_eq!(table_listing_database(Some("  db1 ")), Some("db1".to_string()));
    assert_eq!(table_listing_database(Some("  ")), None);
    assert_eq!(table_listing_database(None), None);
}

#[test]
fn diagnosis_statements() {
    assert_eq!(explain_sql("  select 1 ;; "), "EXPLAIN VERBOSE select 1 ");
    assert_eq!(explain_sql("select 2;"), "EXPLAIN VERBOSE select 2");
    assert!(!needs_catalog_switch(""));
    assert!(!needs_catalog_switch("default_catalog"));
    assert!(needs_catalog_switch("hive"));
    assert_eq!(show_create_table_sql("default_catalog", "db", "t"), "SHOW CREATE TABLE `db`.`t`");
    assert_eq!(show_create_table_sql("", "db", "t"), "SHOW CREATE TABLE `db`.`t`");
    assert_eq!(show_create_table_sql("hive", "db", "t"), "SHOW CREATE TABLE `hive`.`db`.`t`");
}

#[test]
fn plans_are_cut_at_two_hundred_lines() {
    let rows: Vec<Vec<String>> = vec![
        vec!["a".to_string(), "b".to_string()],
        vec![],
        vec!["c".to_string()],
    ];
    assert_eq!(explain_text(&rows), "a\nb\nc");
    assert_eq!(explain_text(&vec![]), "");
    let long: Vec<Vec<String>> = (0..150).map(|i| vec![format!("x{}", i), format!("y{}", i)]).collect();
    let text = explain_text(&long);
    let lines: Vec<&str> = text.split('\n').collect();
    assert_eq!(lines.len(), 200);
    assert_eq!(lines[0], "x0");
    assert_eq!(lines[199], "y99");
}
