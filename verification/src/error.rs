//! Errors surfaced by the verified core to the desktop shell.
use vstd::prelude::*;

verus! {

/// Application error: a configuration or limit problem, or model output
/// that must not be used.
#[derive(Debug)]
pub enum AppError {
    Config(String),
    Output(String),
    /// The provider answered with an unsuccessful HTTP status.
    Api { status: u16, body: String },
}

impl AppError {
    /// The text carried by the error: the message, or the response body.
    pub fn message(&self) -> (r: String)
        ensures
            r@ == match self {
                AppError::Config(m) => m@,
                AppError::Output(m) => m@,
                AppError::Api { body, .. } => body@,
            },
    {
        match self {
            AppError::Config(m) => m.clone(),
            AppError::Output(m) => m.clone(),
            AppError::Api { body, .. } => body.clone(),
        }
    }
}

} // verus!
