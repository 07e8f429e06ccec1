//! Error taxonomy: a not-found lookup is a normal negative result, an
//! internal fault is fatal and propagates, and a failed upstream batch
//! fetch is shared by every caller of the window it failed in.

use vstd::prelude::*;

verus! {

/// Application-level errors, each carrying its reason.
#[derive(Debug, PartialEq, Eq)]
pub enum AppError {
    Config(String),
    Io(String),
    Internal(String),
    NotFound(String),
    GraphQLExecution(String),
    ServiceError(String),
}

impl AppError {
    /// The machine-readable code attached to each error kind.
    pub open spec fn spec_code(&self) -> Seq<char> {
        match self {
            AppError::Config(_) => "CONFIG_ERROR"@,
            AppError::Io(_) => "IO_ERROR"@,
            AppError::Internal(_) => "INTERNAL_SERVER_ERROR"@,
            AppError::NotFound(_) => "NOT_FOUND"@,
            AppError::GraphQLExecution(_) => "GRAPHQL_EXECUTION_ERROR"@,
            AppError::ServiceError(_) => "SERVICE_ERROR"@,
        }
    }

    /// The reason or detail string the error was built with.
    pub open spec fn spec_detail(&self) -> Seq<char> {
        match self {
            AppError::Config(s) => s@,
            AppError::Io(s) => s@,
            AppError::Internal(s) => s@,
            AppError::NotFound(s) => s@,
            AppError::GraphQLExecution(s) => s@,
            AppError::ServiceError(s) => s@,
        }
    }

    /// Machine-readable error code, suitable for a response extension.
    pub fn code(&self) -> (r: String)
        ensures
            r@ == self.spec_code(),
    {
        match self {
            AppError::Config(_) => "CONFIG_ERROR".to_string(),
            AppError::Io(_) => "IO_ERROR".to_string(),
            AppError::Internal(_) => "INTERNAL_SERVER_ERROR".to_string(),
            AppError::NotFound(_) => "NOT_FOUND".to_string(),
            AppError::GraphQLExecution(_) => "GRAPHQL_EXECUTION_ERROR".to_string(),
            AppError::ServiceError(_) => "SERVICE_ERROR".to_string(),
        }
    }

    /// The detail string to attach beside the code.
    pub fn detail(&self) -> (r: String)
        ensures
            r@ == self.spec_detail(),
    {
        match self {
            AppError::Config(s) => s.clone(),
            AppError::Io(s) => s.clone(),
            AppError::Internal(s) => s.clone(),
            AppError::NotFound(s) => s.clone(),
            AppError::GraphQLExecution(s) => s.clone(),
            AppError::ServiceError(s) => s.clone(),
        }
    }
}

} // verus!
