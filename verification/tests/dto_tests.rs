use starrocks_admin_backend::dto::{profile_rows_text, QueryProfile};

fn fields(p: &[(&str, &str)]) -> Vec<(String, String)> {
    p.iter().map(|(k, v)| (k.to_string(), v.to_string())).collect()
}

#[test]
fn profile_rows_become_text_blocks() {
    let rows = vec![fields(&[("QueryId", "q1"), ("State", "EOF")]), fields(&[]), fields(&[("x", "")])];
    assert_eq!(profile_rows_text(&rows), "QueryId: q1\nState: EOF\n\n\nx: \n\n");
    assert_eq!(profile_rows_text(&vec![]), "");
}

#[test]
fn placeholder_and_completed_profiles() {
    let p = QueryProfile::not_found("q7");
    assert_eq!(p.sql, "N/A");
    assert_eq!(p.status, "Not Found");
    assert_eq!(p.profile_content, "Query profile for q7 not found in StarRocks profile manager");
    assert!(p.fragments.is_empty());
    let c = QueryProfile::completed("q8", "text".to_string());
    assert_eq!(c.status, "Completed");
    assert_eq!(c.profile_content, "text");
    assert_eq!(c.query_id, "q8");
}
