//! API errors: their numeric codes, the HTTP status each code class answers with,
//! and the translation key and arguments each message is shown with.
use vstd::prelude::*;
use vstd::string::*;
use crate::model::{i64_to_string, int_str};
use crate::text::{contains_seq, str_contains};

verus! {

/// An error reported by the API. Errors that wrap a database driver error or an
/// arbitrary error value are added by the service layer, which owns those types.
pub enum ApiError {
    Unauthorized(String),
    TokenExpired,
    InvalidCredentials,
    ClusterNotFound { cluster_id: i64 },
    ClusterConnectionFailed { message: String },
    ClusterTimeout,
    ClusterAuthFailed,
    ResourceNotFound(String),
    QueryNotFound { query_id: String },
    QueryKillFailed(String),
    ValidationError(String),
    InvalidInput(String),
    InternalError(String),
    SystemFunctionNotFound(String),
    SystemFunctionDuplicate,
    CategoryFull(String),
    InvalidSQL(String),
    SQLSafetyViolation(String),
    CategoryCannotDelete,
}

/// The code of an error: 1xxx authentication, 2xxx cluster, 3xxx resource,
/// 4xxx validation, 5xxx internal, 6xxx system functions.
pub open spec fn spec_error_code(e: ApiError) -> i32 {
    match e {
        ApiError::Unauthorized(_) => 1001,
        ApiError::TokenExpired => 1002,
        ApiError::InvalidCredentials => 1003,
        ApiError::ClusterNotFound { .. } => 2001,
        ApiError::ClusterConnectionFailed { .. } => 2002,
        ApiError::ClusterTimeout => 2003,
        ApiError::ClusterAuthFailed => 2004,
        ApiError::ResourceNotFound(_) => 3000,
        ApiError::QueryNotFound { .. } => 3001,
        ApiError::QueryKillFailed(_) => 3002,
        ApiError::ValidationError(_) => 4001,
        ApiError::InvalidInput(_) => 4002,
        ApiError::InternalError(_) => 5001,
        ApiError::SystemFunctionNotFound(_) => 6001,
        ApiError::SystemFunctionDuplicate => 6002,
        ApiError::CategoryFull(_) => 6003,
        ApiError::InvalidSQL(_) => 6004,
        ApiError::SQLSafetyViolation(_) => 6005,
        ApiError::CategoryCannotDelete => 6006,
    }
}

/// The HTTP status answered for an error code: 401 for 1001..=1999, 400 for
/// 2001..=2999 and 4001..=4999, 404 for 3000..=3999, 500 otherwise.
pub open spec fn spec_status_for_code(code: i32) -> u16 {
    if 1001 <= code <= 1999 {
        401
    } else if 2001 <= code <= 2999 {
        400
    } else if 3000 <= code <= 3999 {
        404
    } else if 4001 <= code <= 4999 {
        400
    } else {
        500
    }
}

impl ApiError {
    /// The error's code.
    pub fn error_code(&self) -> (c: i32)
        ensures
            c == spec_error_code(*self),
    {
        match self {
            ApiError::Unauthorized(_) => 1001,
            ApiError::TokenExpired => 1002,
            ApiError::InvalidCredentials => 1003,
            ApiError::ClusterNotFound { .. } => 2001,
            ApiError::ClusterConnectionFailed { .. } => 2002,
            ApiError::ClusterTimeout => 2003,
            ApiError::ClusterAuthFailed => 2004,
            ApiError::ResourceNotFound(_) => 3000,
            ApiError::QueryNotFound { .. } => 3001,
            ApiError::QueryKillFailed(_) => 3002,
            ApiError::ValidationError(_) => 4001,
            ApiError::InvalidInput(_) => 4002,
            ApiError::InternalError(_) => 5001,
            ApiError::SystemFunctionNotFound(_) => 6001,
            ApiError::SystemFunctionDuplicate => 6002,
            ApiError::CategoryFull(_) => 6003,
            ApiError::InvalidSQL(_) => 6004,
            ApiError::SQLSafetyViolation(_) => 6005,
            ApiError::CategoryCannotDelete => 6006,
        }
    }

    /// An unauthorized error.
    pub fn unauthorized(message: String) -> (e: Self)
        ensures
            e == ApiError::Unauthorized(message),
    {
        ApiError::Unauthorized(message)
    }

    /// A missing cluster.
    pub fn cluster_not_found(cluster_id: i64) -> (e: Self)
        ensures
            e == (ApiError::ClusterNotFound { cluster_id }),
    {
        ApiError::ClusterNotFound { cluster_id }
    }

    /// A failed cluster connection.
    pub fn cluster_connection_failed(message: String) -> (e: Self)
        ensures
            e == (ApiError::ClusterConnectionFailed { message }),
    {
        ApiError::ClusterConnectionFailed { message }
    }

    /// Wrong user name or password.
    pub fn invalid_credentials() -> (e: Self)
        ensures
            e == ApiError::InvalidCredentials,
    {
        ApiError::InvalidCredentials
    }

    /// An internal error.
    pub fn internal_error(message: String) -> (e: Self)
        ensures
            e == ApiError::InternalError(message),
    {
        ApiError::InternalError(message)
    }

    /// Input that does not have the required form.
    pub fn invalid_data(message: String) -> (e: Self)
        ensures
            e == ApiError::InvalidInput(message),
    {
        ApiError::InvalidInput(message)
    }

    /// A failed validation.
    pub fn validation_error(message: String) -> (e: Self)
        ensures
            e == ApiError::ValidationError(message),
    {
        ApiError::ValidationError(message)
    }

    /// A missing resource.
    pub fn not_found(message: String) -> (e: Self)
        ensures
            e == ApiError::ResourceNotFound(message),
    {
        ApiError::ResourceNotFound(message)
    }

    /// A forbidden action, reported as unauthorized.
    pub fn forbidden(message: String) -> (e: Self)
        ensures
            e == ApiError::Unauthorized(message),
    {
        ApiError::Unauthorized(message)
    }

    /// Invalid SQL.
    pub fn invalid_sql(message: String) -> (e: Self)
        ensures
            e == ApiError::InvalidSQL(message),
    {
        ApiError::InvalidSQL(message)
    }

    /// A full category.
    pub fn category_full(message: String) -> (e: Self)
        ensures
            e == ApiError::CategoryFull(message),
    {
        ApiError::CategoryFull(message)
    }

    /// SQL that breaks the safety rules.
    pub fn sql_safety_violation(message: String) -> (e: Self)
        ensures
            e == ApiError::SQLSafetyViolation(message),
    {
        ApiError::SQLSafetyViolation(message)
    }
}

/// The HTTP status answered for an error code.
pub fn status_for_code(code: i32) -> (s: u16)
    ensures
        s == spec_status_for_code(code),
{
    if 1001 <= code && code <= 1999 {
        401
    } else if 2001 <= code && code <= 2999 {
        400
    } else if 3000 <= code && code <= 3999 {
        404
    } else if 4001 <= code && code <= 4999 {
        400
    } else {
        500
    }
}

/// Each error's code lies in its class, so authentication errors answer 401, cluster
/// and validation errors 400, missing resources 404, and the rest 500.
pub proof fn lemma_error_status(e: ApiError)
    ensures
        spec_status_for_code(spec_error_code(e)) == match e {
            ApiError::Unauthorized(_) | ApiError::TokenExpired | ApiError::InvalidCredentials => 401u16,
            ApiError::ClusterNotFound { .. } | ApiError::ClusterConnectionFailed { .. }
            | ApiError::ClusterTimeout | ApiError::ClusterAuthFailed => 400u16,
            ApiError::ResourceNotFound(_) | ApiError::QueryNotFound { .. }
            | ApiError::QueryKillFailed(_) => 404u16,
            ApiError::ValidationError(_) | ApiError::InvalidInput(_) => 400u16,
            _ => 500u16,
        },
{
}

// ---------------------------------------------------------------------------
// Localized messages
// ---------------------------------------------------------------------------

/// How an error's message is shown: a key of the translation catalogue with its named
/// arguments, or a text shown as it is.
pub enum LocalizedText {
    Translated { key: &'static str, args: Vec<(String, String)> },
    Verbatim(String),
}

/// The view of a [`LocalizedText`].
pub enum LocalizedTextView {
    Translated { key: Seq<char>, args: Seq<(Seq<char>, Seq<char>)> },
    Verbatim(Seq<char>),
}

impl View for LocalizedText {
    type V = LocalizedTextView;

    open spec fn view(&self) -> LocalizedTextView {
        match self {
            LocalizedText::Translated { key, args } => LocalizedTextView::Translated {
                key: key@,
                args: args@.map_values(|a: (String, String)| (a.0@, a.1@)),
            },
            LocalizedText::Verbatim(t) => LocalizedTextView::Verbatim(t@),
        }
    }
}

/// A key without arguments.
pub open spec fn tr0(key: Seq<char>) -> LocalizedTextView {
    LocalizedTextView::Translated { key, args: Seq::empty() }
}

/// A key with one named argument.
pub open spec fn tr1(key: Seq<char>, name: Seq<char>, value: Seq<char>) -> LocalizedTextView {
    LocalizedTextView::Translated { key, args: seq![(name, value)] }
}

/// The key and arguments of an error's message. An authorization failure is
/// translated when its text names a missing or invalid header or a failed token
/// check, and otherwise shown as it is (it carries permission details); invalid input
/// is shown as it is; every other error has its own key, with its details as named
/// arguments.
pub open spec fn spec_message_key(e: ApiError) -> LocalizedTextView {
    match e {
        ApiError::Unauthorized(m) => if contains_seq(m@, "Missing authorization header"@) {
            tr0("auth.missing_header"@)
        } else if contains_seq(m@, "Invalid authorization header"@) {
            tr0("auth.invalid_header"@)
        } else if contains_seq(m@, "JWT verification failed"@) {
            tr0("auth.jwt_failed"@)
        } else {
            LocalizedTextView::Verbatim(m@)
        },
        ApiError::TokenExpired => tr0("auth.token_expired"@),
        ApiError::InvalidCredentials => tr0("auth.invalid_credentials"@),
        ApiError::ClusterNotFound { cluster_id } => tr1("cluster.not_found"@, "id"@, int_str(cluster_id as int)),
        ApiError::ClusterConnectionFailed { message } => tr1("cluster.connection_failed"@, "message"@, message@),
        ApiError::ClusterTimeout => tr0("cluster.timeout"@),
        ApiError::ClusterAuthFailed => tr0("cluster.auth_failed"@),
        ApiError::ResourceNotFound(name) => tr1("resource.not_found"@, "name"@, name@),
        ApiError::QueryNotFound { query_id } => tr1("resource.query_not_found"@, "id"@, query_id@),
        ApiError::QueryKillFailed(reason) => tr1("resource.query_kill_failed"@, "reason"@, reason@),
        ApiError::ValidationError(details) => tr1("validation.failed"@, "details"@, details@),
        ApiError::InvalidInput(m) => LocalizedTextView::Verbatim(m@),
        ApiError::InternalError(m) => tr1("internal.error"@, "message"@, m@),
        ApiError::SystemFunctionNotFound(name) => tr1("system_function.not_found"@, "name"@, name@),
        ApiError::SystemFunctionDuplicate => tr0("system_function.duplicate"@),
        ApiError::CategoryFull(name) => tr1("system_function.category_full"@, "name"@, name@),
        ApiError::InvalidSQL(reason) => tr1("system_function.invalid_sql"@, "reason"@, reason@),
        ApiError::SQLSafetyViolation(reason) => tr1("system_function.sql_safety_violation"@, "reason"@, reason@),
        ApiError::CategoryCannotDelete => tr0("system_function.category_cannot_delete"@),
    }
}

fn translated(key: &'static str) -> (r: LocalizedText)
    ensures
        r@ == tr0(key@),
{
    let args: Vec<(String, String)> = Vec::new();
    let r = LocalizedText::Translated { key, args };
    assert(args@.map_values(|a: (String, String)| (a.0@, a.1@)) =~= Seq::<(Seq<char>, Seq<char>)>::empty());
    r
}

fn translated1(key: &'static str, name: &'static str, value: String) -> (r: LocalizedText)
    ensures
        r@ == tr1(key@, name@, value@),
{
    let mut args: Vec<(String, String)> = Vec::new();
    args.push((String::from_str(name), value));
    let ghost v = args@.map_values(|a: (String, String)| (a.0@, a.1@));
    assert(v =~= seq![(name@, value@)]);
    LocalizedText::Translated { key, args }
}

impl ApiError {
    /// The translation key and arguments the error's message is shown with (the
    /// catalogue lookup for the request's locale is made by the caller).
    pub fn message_key(&self) -> (r: LocalizedText)
        ensures
            r@ == spec_message_key(*self),
    {
        match self {
            ApiError::Unauthorized(m) => {
                if str_contains(m.as_str(), "Missing authorization header") {
                    translated("auth.missing_header")
                } else if str_contains(m.as_str(), "Invalid authorization header") {
                    translated("auth.invalid_header")
                } else if str_contains(m.as_str(), "JWT verification failed") {
                    translated("auth.jwt_failed")
                } else {
                    LocalizedText::Verbatim(m.clone())
                }
            },
            ApiError::TokenExpired => translated("auth.token_expired"),
            ApiError::InvalidCredentials => translated("auth.invalid_credentials"),
            ApiError::ClusterNotFound { cluster_id } => translated1(
                "cluster.not_found",
                "id",
                i64_to_string(*cluster_id),
            ),
            ApiError::ClusterConnectionFailed { message } => translated1(
                "cluster.connection_failed",
                "message",
                message.clone(),
            ),
            ApiError::ClusterTimeout => translated("cluster.timeout"),
            ApiError::ClusterAuthFailed => translated("cluster.auth_failed"),
            ApiError::ResourceNotFound(name) => translated1("resource.not_found", "name", name.clone()),
            ApiError::QueryNotFound { query_id } => translated1("resource.query_not_found", "id", query_id.clone()),
            ApiError::QueryKillFailed(reason) => translated1("resource.query_kill_failed", "reason", reason.clone()),
            ApiError::ValidationError(details) => translated1("validation.failed", "details", details.clone()),
            ApiError::InvalidInput(m) => LocalizedText::Verbatim(m.clone()),
            ApiError::InternalError(m) => translated1("internal.error", "message", m.clone()),
            ApiError::SystemFunctionNotFound(name) => translated1("system_function.not_found", "name", name.clone()),
            ApiError::SystemFunctionDuplicate => translated("system_function.duplicate"),
            ApiError::CategoryFull(name) => translated1("system_function.category_full", "name", name.clone()),
            ApiError::InvalidSQL(reason) => translated1("system_function.invalid_sql", "reason", reason.clone()),
            ApiError::SQLSafetyViolation(reason) => translated1(
                "system_function.sql_safety_violation",
                "reason",
                reason.clone(),
            ),
            ApiError::CategoryCannotDelete => translated("system_function.category_cannot_delete"),
        }
    }
}

} // verus!
