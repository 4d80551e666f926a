use starrocks_admin_backend::llm::{LLMError, LLMScenario, SessionStatus};

#[test]
fn test_llm_scenario_as_str() {
    assert_eq!(LLMScenario::RootCauseAnalysis.as_str(), "root_cause_analysis");
    assert_eq!(LLMScenario::SqlOptimization.as_str(), "sql_optimization");
}

#[test]
fn test_session_status_conversion() {
    assert_eq!(SessionStatus::Pending.as_str(), "pending");
    assert_eq!(SessionStatus::from_str("completed"), SessionStatus::Completed);
    assert_eq!(SessionStatus::from_str("unknown"), SessionStatus::Failed);
}

#[test]
fn test_llm_error_is_retryable() {
    assert!(LLMError::Timeout(30).is_retryable());
    assert!(LLMError::RateLimited(60).is_retryable());
    assert!(LLMError::ApiError("test".to_string()).is_retryable());
    assert!(!LLMError::Disabled.is_retryable());
    assert!(!LLMError::NoProviderConfigured.is_retryable());
}

#[test]
fn session_status_round_trips() {
    for s in [SessionStatus::Pending, SessionStatus::Processing, SessionStatus::Completed, SessionStatus::Failed] {
        assert_eq!(SessionStatus::from_str(s.as_str()), s);
    }
    assert_eq!(SessionStatus::from_str("Pending"), SessionStatus::Failed);
}

#[test]
fn permanent_errors_are_not_retried() {
    assert!(!LLMError::ProviderNotFound("1".to_string()).is_retryable());
    assert!(!LLMError::ParseError("bad json".to_string()).is_retryable());
    assert!(!LLMError::DatabaseError("locked".to_string()).is_retryable());
    assert!(!LLMError::SerializationError("eof".to_string()).is_retryable());
}
