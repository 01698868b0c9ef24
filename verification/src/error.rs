//! Error types of the library, and the conversion from the low-level chat
//! completions error to the public SDK error.

use vstd::prelude::*;

verus! {

/// Error detail carried by a structured API error response.
#[derive(Debug, Clone)]
pub struct ApiErrorDetail {
    /// Human-readable error message.
    pub message: String,
    /// Machine-readable error category, if given.
    pub error_type: Option<String>,
    /// The request parameter at fault, if given.
    pub param: Option<String>,
    /// A service-specific error code, if given.
    pub code: Option<String>,
}

/// A structured API error response: a single error detail.
#[derive(Debug, Clone)]
pub struct ApiErrorResponse {
    /// The error detail.
    pub error: ApiErrorDetail,
}

/// Errors from the chat completions layer. The status of an API error is
/// its HTTP status code.
#[derive(Debug)]
pub enum ChatCompletionError {
    /// The HTTP request itself failed (network, DNS, timeout).
    RequestFailed(String),
    /// The API returned a non-success status code.
    ApiError {
        /// HTTP status code.
        status: u16,
        /// Parsed error detail from the API.
        detail: ApiErrorDetail,
    },
    /// The API response could not be parsed.
    ParseFailed(String),
}

/// Errors that can occur when using the SDK.
#[derive(Debug)]
pub enum PerceptronError {
    /// The HTTP request itself failed (network, DNS, timeout).
    RequestFailed(String),
    /// The API returned a non-success status code.
    ApiError {
        /// HTTP status code.
        status: u16,
        /// Parsed error detail from the API.
        detail: ApiErrorDetail,
    },
    /// The API response could not be parsed.
    ParseFailed(String),
}

impl From<ChatCompletionError> for PerceptronError {
    /// Each chat completions error maps to the SDK error of the same shape.
    fn from(err: ChatCompletionError) -> (r: Self) {
        match err {
            ChatCompletionError::RequestFailed(msg) => PerceptronError::RequestFailed(msg),
            ChatCompletionError::ApiError { status, detail } => PerceptronError::ApiError {
                status,
                detail,
            },
            ChatCompletionError::ParseFailed(msg) => PerceptronError::ParseFailed(msg),
        }
    }
}

impl vstd::std_specs::convert::FromSpecImpl<ChatCompletionError> for PerceptronError {
    open spec fn obeys_from_spec() -> bool {
        true
    }

    open spec fn from_spec(err: ChatCompletionError) -> Self {
        match err {
            ChatCompletionError::RequestFailed(msg) => PerceptronError::RequestFailed(msg),
            ChatCompletionError::ApiError { status, detail } => PerceptronError::ApiError {
                status,
                detail,
            },
            ChatCompletionError::ParseFailed(msg) => PerceptronError::ParseFailed(msg),
        }
    }
}

} // verus!
