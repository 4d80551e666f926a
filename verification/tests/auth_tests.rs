use starrocks_admin_backend::auth::{bearer_token, permission_decision, request_path, user_id_of_subject};
use starrocks_admin_backend::error::ApiError;

fn unauthorized(r: Result<String, ApiError>) -> String {
    match r {
        Err(ApiError::Unauthorized(m)) => m,
        _ => panic!("expected an unauthorized error"),
    }
}

#[test]
fn paths_drop_the_query() {
    assert_eq!(request_path("/api/clusters/1?x=1&y=2"), "/api/clusters/1");
    assert_eq!(request_path("/api/roles"), "/api/roles");
    assert_eq!(request_path("?only"), "");
}

#[test]
fn bearer_tokens_are_required() {
    assert_eq!(bearer_token(Some("Bearer abc.def")).ok(), Some("abc.def".to_string()));
    assert_eq!(bearer_token(Some("Bearer ")).ok(), Some(String::new()));
    assert_eq!(unauthorized(bearer_token(None)), "Missing authorization header");
    assert_eq!(unauthorized(bearer_token(Some("Basic xyz"))), "Invalid authorization header format");
    assert_eq!(unauthorized(bearer_token(Some("bearer abc"))), "Invalid authorization header format");
}

#[test]
fn subjects_are_user_ids() {
    assert_eq!(user_id_of_subject("42"), 42);
    assert_eq!(user_id_of_subject("-7"), -7);
    assert_eq!(user_id_of_subject("alice"), 0);
}

#[test]
fn permission_denials_name_the_resource() {
    assert!(permission_decision("cluster", "read", true).is_ok());
    match permission_decision("cluster", "delete", false) {
        Err(ApiError::Unauthorized(m)) => assert_eq!(m, "Permission denied: no access to cluster delete"),
        _ => panic!("a denied request must be refused"),
    }
}
