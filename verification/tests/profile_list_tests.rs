use starrocks_admin_backend::error::ApiError;
use starrocks_admin_backend::profiles::{
    cluster_variables_sql, profile_content_of, profile_list_items, profile_query_sql,
    show_variables_sql, variables_from_rows,
};

fn row(cells: &[&str]) -> Vec<String> {
    cells.iter().map(|s| s.to_string()).collect()
}

#[test]
fn aborted_queries_are_not_listed() {
    let rows = vec![
        row(&["q1", "2025-01-01", "1s", "Finished", "select 1"]),
        row(&["q2", "2025-01-01", "2s", "ABORTED", "select 2"]),
        row(&["q3", "2025-01-02"]),
        row(&["q4", "t", "3s", "aborted", "select 4"]),
    ];
    let items = profile_list_items(&rows);
    assert_eq!(items.len(), 2);
    assert_eq!(items[0].query_id, "q1");
    assert_eq!(items[0].statement, "select 1");
    assert_eq!(items[1].query_id, "q3");
    assert_eq!(items[1].state, "");
    assert_eq!(items[1].statement, "");
}

#[test]
fn profile_content_comes_from_the_first_cell() {
    assert_eq!(profile_query_sql("abc-1"), "SELECT get_query_profile('abc-1')");
    let rows = vec![row(&["Query:\n  Summary:"]), row(&["other"])];
    assert_eq!(profile_content_of(&rows, "q").ok(), Some("Query:\n  Summary:".to_string()));
    for empty in [vec![], vec![row(&[])], vec![row(&["   \n"])]] {
        match profile_content_of(&empty, "q9") {
            Err(ApiError::ResourceNotFound(m)) => assert_eq!(m, "Profile not found for query: q9"),
            _ => panic!("blank content must be not found"),
        }
    }
}

#[test]
fn variables_are_queried_and_read() {
    assert_eq!(show_variables_sql(&["a", "b"]), "SHOW VARIABLES WHERE Variable_name IN ('a','b')");
    assert_eq!(show_variables_sql(&[]), "SHOW VARIABLES WHERE Variable_name IN ()");
    let sql = cluster_variables_sql();
    assert!(sql.starts_with("SHOW VARIABLES WHERE Variable_name IN ('query_mem_limit','query_timeout'"));
    assert!(sql.ends_with("'pipeline_profile_level')"));
    let rows = vec![
        row(&["enable_spill", "false"]),
        row(&["short"]),
        row(&["pipeline_dop", "0"]),
        row(&["enable_spill", "true", "extra"]),
    ];
    let vars = variables_from_rows(&rows);
    assert_eq!(vars, vec![
        ("enable_spill".to_string(), "true".to_string()),
        ("pipeline_dop".to_string(), "0".to_string()),
    ]);
}
