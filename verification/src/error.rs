//! The errors of the reconciliation engine and what the transport shows of
//! them.

use vstd::prelude::*;
use vstd::string::StringExecFns;

verus! {

/// Why a reconciliation did not go through.
#[derive(Clone, Copy, Debug, PartialEq, Eq, Structural)]
pub enum ReconcileError {
    /// The merchant has no bearer credential.
    NoCredential,
    /// Several prices were asked for and the merchant's catalog id is not known.
    MissingCatalogId,
    /// The marketplace did not answer a price request, or not in a usable form.
    FetchFailed,
    /// The marketplace shows no price for the product.
    NotFound,
    /// The marketplace did not accept the new list prices.
    PushFailed,
    /// The store failed.
    RepoFailed,
}

/// What the transport answers when a command fails.
#[derive(Clone, Debug, PartialEq, Eq)]
pub enum AppError {
    NoPermission(String),
    InternalServerError,
}

impl AppError {
    /// The error for a failure that has no better description. The text is
    /// for the log of the caller and is not kept.
    pub fn unexpected(text: &str) -> (e: AppError)
        ensures
            e is InternalServerError,
    {
        AppError::InternalServerError
    }

    /// The error that the transport shows for a failed reconciliation: a
    /// missing credential is the caller's to mend, everything else is not.
    pub fn from_reconcile(error: ReconcileError) -> (e: AppError)
        ensures
            error is NoCredential ==> (e matches AppError::NoPermission(m) && m@ == "Need set JWT"@),
            !(error is NoCredential) ==> e is InternalServerError,
    {
        match error {
            ReconcileError::NoCredential => AppError::NoPermission(String::from_str("Need set JWT")),
            _ => AppError::InternalServerError,
        }
    }

    /// The HTTP status that goes with the error.
    pub fn status(&self) -> (code: u16)
        ensures
            code == (if self is NoPermission { 403u16 } else { 500u16 }),
    {
        match self {
            AppError::NoPermission(_) => 403,
            AppError::InternalServerError => 500,
        }
    }

    /// The message that goes with the error.
    pub fn message(&self) -> (text: String)
        ensures
            self matches AppError::NoPermission(m) ==> text@ == m@,
            self is InternalServerError ==> text@ == "Internal server error"@,
    {
        match self {
            AppError::NoPermission(m) => m.clone(),
            AppError::InternalServerError => String::from_str("Internal server error"),
        }
    }
}

} // verus!
