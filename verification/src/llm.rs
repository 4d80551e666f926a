//! LLM analysis bookkeeping: the analysis scenarios, the states of an analysis
//! session as stored in the session table, and which service errors are worth a retry.
use vstd::prelude::*;
use vstd::string::*;
use crate::text::str_eq;

verus! {

/// What an LLM analysis is for.
#[derive(Clone, Copy, Debug, PartialEq, Eq, Structural)]
pub enum LLMScenario {
    RootCauseAnalysis,
    SqlOptimization,
}

/// The stored name of a scenario.
pub open spec fn scenario_name(s: LLMScenario) -> Seq<char> {
    match s {
        LLMScenario::RootCauseAnalysis => "root_cause_analysis"@,
        LLMScenario::SqlOptimization => "sql_optimization"@,
    }
}

impl LLMScenario {
    /// The stored name of the scenario.
    pub fn as_str(&self) -> (r: &'static str)
        ensures
            r@ == scenario_name(*self),
    {
        match self {
            LLMScenario::RootCauseAnalysis => "root_cause_analysis",
            LLMScenario::SqlOptimization => "sql_optimization",
        }
    }
}

/// The state of an analysis session.
#[derive(Clone, Copy, Debug, PartialEq, Eq, Structural)]
pub enum SessionStatus {
    Pending,
    Processing,
    Completed,
    Failed,
}

/// The stored text of a session state.
pub open spec fn status_name(s: SessionStatus) -> Seq<char> {
    match s {
        SessionStatus::Pending => "pending"@,
        SessionStatus::Processing => "processing"@,
        SessionStatus::Completed => "completed"@,
        SessionStatus::Failed => "failed"@,
    }
}

/// The state a stored text names; any text that names no state reads as `Failed`.
pub open spec fn spec_status_from(s: Seq<char>) -> SessionStatus {
    if s == "pending"@ {
        SessionStatus::Pending
    } else if s == "processing"@ {
        SessionStatus::Processing
    } else if s == "completed"@ {
        SessionStatus::Completed
    } else {
        SessionStatus::Failed
    }
}

impl SessionStatus {
    /// The stored text of the state.
    pub fn as_str(&self) -> (r: &'static str)
        ensures
            r@ == status_name(*self),
    {
        match self {
            SessionStatus::Pending => "pending",
            SessionStatus::Processing => "processing",
            SessionStatus::Completed => "completed",
            SessionStatus::Failed => "failed",
        }
    }

    /// The state a stored text names (`Failed` for an unknown text).
    pub fn from_str(s: &str) -> (r: Self)
        ensures
            r == spec_status_from(s@),
    {
        if str_eq(s, "pending") {
            SessionStatus::Pending
        } else if str_eq(s, "processing") {
            SessionStatus::Processing
        } else if str_eq(s, "completed") {
            SessionStatus::Completed
        } else {
            SessionStatus::Failed
        }
    }
}

/// Reading back the stored text of a state gives the state.
pub proof fn lemma_status_round_trip(s: SessionStatus)
    ensures
        spec_status_from(status_name(s)) == s,
{
    reveal_strlit("pending");
    reveal_strlit("processing");
    reveal_strlit("completed");
    reveal_strlit("failed");
    assert("processing"@[1] != "pending"@[1]);
    assert("completed"@[0] != "pending"@[0]);
    assert("completed"@[0] != "processing"@[0]);
    assert("failed"@[0] != "pending"@[0]);
    assert("failed"@[0] != "processing"@[0]);
    assert("failed"@[0] != "completed"@[0]);
}

/// An error of the LLM service. Database and serialization failures carry the
/// underlying error's message.
pub enum LLMError {
    NoProviderConfigured,
    ProviderNotFound(String),
    Disabled,
    /// Rate limited; seconds to wait.
    RateLimited(u64),
    /// Timed out after the given seconds.
    Timeout(u64),
    ApiError(String),
    ParseError(String),
    DatabaseError(String),
    SerializationError(String),
}

/// A transient failure: a timeout, a rate limit or an error reported by the API.
pub open spec fn spec_retryable(e: LLMError) -> bool {
    match e {
        LLMError::Timeout(_) | LLMError::RateLimited(_) | LLMError::ApiError(_) => true,
        _ => false,
    }
}

impl LLMError {
    /// Whether the request may succeed when tried again.
    pub fn is_retryable(&self) -> (b: bool)
        ensures
            b == spec_retryable(*self),
    {
        match self {
            LLMError::Timeout(_) | LLMError::RateLimited(_) | LLMError::ApiError(_) => true,
            _ => false,
        }
    }
}


/// An LLM service error as answered by the API.
pub struct LLMApiError(pub LLMError);

impl From<LLMError> for LLMApiError {
    fn from(err: LLMError) -> (r: Self) {
        LLMApiError(err)
    }
}

impl vstd::std_specs::convert::FromSpecImpl<LLMError> for LLMApiError {
    open spec fn obeys_from_spec() -> bool {
        true
    }

    open spec fn from_spec(v: LLMError) -> LLMApiError {
        LLMApiError(v)
    }
}

/// The HTTP status of an LLM error: 503 when no provider is configured or the
/// service is disabled, 404 for an unknown provider, 429 when rate limited, 504 on a
/// timeout, 502 for an error of the LLM API, 500 otherwise.
pub open spec fn spec_llm_status(e: LLMError) -> u16 {
    match e {
        LLMError::NoProviderConfigured => 503,
        LLMError::ProviderNotFound(_) => 404,
        LLMError::Disabled => 503,
        LLMError::RateLimited(_) => 429,
        LLMError::Timeout(_) => 504,
        LLMError::ApiError(_) => 502,
        LLMError::ParseError(_) => 500,
        LLMError::DatabaseError(_) => 500,
        LLMError::SerializationError(_) => 500,
    }
}

/// Whether the answer hides the error's details behind a fixed message: database
/// errors read `Database error`, serialization errors `Serialization error`.
pub open spec fn spec_llm_fixed_message(e: LLMError) -> Option<Seq<char>> {
    match e {
        LLMError::DatabaseError(_) => Some("Database error"@),
        LLMError::SerializationError(_) => Some("Serialization error"@),
        _ => None,
    }
}

impl LLMApiError {
    /// The HTTP status answered.
    pub fn status_code(&self) -> (s: u16)
        ensures
            s == spec_llm_status(self.0),
    {
        match &self.0 {
            LLMError::NoProviderConfigured => 503,
            LLMError::ProviderNotFound(_) => 404,
            LLMError::Disabled => 503,
            LLMError::RateLimited(_) => 429,
            LLMError::Timeout(_) => 504,
            LLMError::ApiError(_) => 502,
            LLMError::ParseError(_) => 500,
            LLMError::DatabaseError(_) => 500,
            LLMError::SerializationError(_) => 500,
        }
    }

    /// The fixed message answered instead of the error's own text, where there is one.
    pub fn fixed_message(&self) -> (m: Option<&'static str>)
        ensures
            match m {
                Some(t) => spec_llm_fixed_message(self.0) == Some(t@),
                None => spec_llm_fixed_message(self.0) is None,
            },
    {
        match &self.0 {
            LLMError::DatabaseError(_) => Some("Database error"),
            LLMError::SerializationError(_) => Some("Serialization error"),
            _ => None,
        }
    }
}

/// A retryable error is answered with a gateway, rate-limit or timeout status.
pub proof fn lemma_retryable_status(e: LLMError)
    ensures
        spec_retryable(e) ==> (spec_llm_status(e) == 429 || spec_llm_status(e) == 502
            || spec_llm_status(e) == 504),
{
}

} // verus!
