//! The error type shared by every fallible operation of the library.

use vstd::prelude::*;
use vstd::std_specs::convert::FromSpecImpl;
use vstd::string::{to_string_from_display_ensures, StringExecFns};

verus! {

/// What can go wrong while a snapshot is taken or served.
///
/// Each variant carries the message of the failure it reports. A failure of
/// the socket inventory is a `NetstatError`.
#[derive(Debug, PartialEq, Eq)]
pub enum ApiError {
    Error(String),
    JsonError(String),
    TokioError(String),
    IoError(String),
    NetstatError(String),
    ProcessEnumerationFailed(String),
    UptimeQueryFailed(String),
    InternalInvariantViolation(String),
}

/// Mathematical model of [`ApiError`].
pub enum ApiErrorView {
    Error(Seq<char>),
    JsonError(Seq<char>),
    TokioError(Seq<char>),
    IoError(Seq<char>),
    NetstatError(Seq<char>),
    ProcessEnumerationFailed(Seq<char>),
    UptimeQueryFailed(Seq<char>),
    InternalInvariantViolation(Seq<char>),
}

impl View for ApiError {
    type V = ApiErrorView;

    open spec fn view(&self) -> ApiErrorView {
        match *self {
            ApiError::Error(m) => ApiErrorView::Error(m@),
            ApiError::JsonError(m) => ApiErrorView::JsonError(m@),
            ApiError::TokioError(m) => ApiErrorView::TokioError(m@),
            ApiError::IoError(m) => ApiErrorView::IoError(m@),
            ApiError::NetstatError(m) => ApiErrorView::NetstatError(m@),
            ApiError::ProcessEnumerationFailed(m) => ApiErrorView::ProcessEnumerationFailed(m@),
            ApiError::UptimeQueryFailed(m) => ApiErrorView::UptimeQueryFailed(m@),
            ApiError::InternalInvariantViolation(m) => ApiErrorView::InternalInvariantViolation(m@),
        }
    }
}

impl ApiErrorView {
    /// The message that the failure carries.
    pub open spec fn detail(self) -> Seq<char> {
        match self {
            ApiErrorView::Error(m) => m,
            ApiErrorView::JsonError(m) => m,
            ApiErrorView::TokioError(m) => m,
            ApiErrorView::IoError(m) => m,
            ApiErrorView::NetstatError(m) => m,
            ApiErrorView::ProcessEnumerationFailed(m) => m,
            ApiErrorView::UptimeQueryFailed(m) => m,
            ApiErrorView::InternalInvariantViolation(m) => m,
        }
    }

    /// The words that introduce the message when the failure is shown.
    pub open spec fn label(self) -> Seq<char> {
        match self {
            ApiErrorView::Error(_) => "Error: "@,
            ApiErrorView::JsonError(_) => "JSON error: "@,
            ApiErrorView::TokioError(_) => "Tokio error: "@,
            ApiErrorView::IoError(_) => "IoError: "@,
            ApiErrorView::NetstatError(_) => "NetstatError: "@,
            ApiErrorView::ProcessEnumerationFailed(_) => "Process enumeration failed: "@,
            ApiErrorView::UptimeQueryFailed(_) => "Uptime query failed: "@,
            ApiErrorView::InternalInvariantViolation(_) => "Internal invariant violation: "@,
        }
    }

    /// The failure as it is shown: its label followed by its message.
    pub open spec fn message(self) -> Seq<char> {
        self.label() + self.detail()
    }
}

impl ApiError {
    /// The failure as it is shown: its label followed by its message.
    pub fn message(&self) -> (text: String)
        ensures
            text@ == self@.message(),
    {
        match self {
            ApiError::Error(m) => String::from_str("Error: ").concat(m.as_str()),
            ApiError::JsonError(m) => String::from_str("JSON error: ").concat(m.as_str()),
            ApiError::TokioError(m) => String::from_str("Tokio error: ").concat(m.as_str()),
            ApiError::IoError(m) => String::from_str("IoError: ").concat(m.as_str()),
            ApiError::NetstatError(m) => String::from_str("NetstatError: ").concat(m.as_str()),
            ApiError::ProcessEnumerationFailed(m) => String::from_str(
                "Process enumeration failed: ",
            ).concat(m.as_str()),
            ApiError::UptimeQueryFailed(m) => String::from_str("Uptime query failed: ").concat(
                m.as_str(),
            ),
            ApiError::InternalInvariantViolation(m) => String::from_str(
                "Internal invariant violation: ",
            ).concat(m.as_str()),
        }
    }
}

/// The error of the socket inventory, `netstat2::error::Error`, carried as an
/// opaque value.
#[verifier::external_type_specification]
#[verifier::external_body]
pub struct ExNetstatError(netstat2::error::Error);

/// The error of JSON encoding and decoding, `serde_json::Error`, carried as
/// an opaque value.
#[verifier::external_type_specification]
#[verifier::external_body]
pub struct ExJsonError(serde_json::error::Error);

/// The error of a one-shot channel whose sender is gone,
/// `tokio::sync::oneshot::error::RecvError`, carried as an opaque value.
#[verifier::external_type_specification]
#[verifier::external_body]
pub struct ExRecvError(tokio::sync::oneshot::error::RecvError);

/// The error of an input or output operation, `std::io::Error`, carried as
/// an opaque value.
#[verifier::external_type_specification]
#[verifier::external_body]
pub struct ExIoError(std::io::Error);

impl FromSpecImpl<serde_json::error::Error> for ApiError {
    open spec fn obeys_from_spec() -> bool {
        false
    }

    open spec fn from_spec(e: serde_json::error::Error) -> ApiError {
        arbitrary()
    }
}

impl From<serde_json::error::Error> for ApiError {
    /// A JSON failure becomes a `JsonError` that carries the failure as it
    /// displays itself.
    fn from(e: serde_json::error::Error) -> (error: ApiError)
        ensures
            error matches ApiError::JsonError(message) && to_string_from_display_ensures::<
                serde_json::error::Error,
            >(&e, message),
    {
        ApiError::JsonError(e.to_string())
    }
}

impl FromSpecImpl<tokio::sync::oneshot::error::RecvError> for ApiError {
    open spec fn obeys_from_spec() -> bool {
        false
    }

    open spec fn from_spec(e: tokio::sync::oneshot::error::RecvError) -> ApiError {
        arbitrary()
    }
}

impl From<tokio::sync::oneshot::error::RecvError> for ApiError {
    /// A closed channel becomes a `TokioError` that says so. The failure has
    /// one value and displays itself as the two words "channel closed", so
    /// the message is written out here.
    fn from(_closed: tokio::sync::oneshot::error::RecvError) -> (error: ApiError)
        ensures
            error@ == ApiErrorView::TokioError("channel closed"@),
    {
        ApiError::TokioError(String::from_str("channel closed"))
    }
}

impl FromSpecImpl<std::io::Error> for ApiError {
    open spec fn obeys_from_spec() -> bool {
        false
    }

    open spec fn from_spec(e: std::io::Error) -> ApiError {
        arbitrary()
    }
}

impl From<std::io::Error> for ApiError {
    /// An input or output failure becomes an `IoError` that carries the
    /// failure as it displays itself.
    fn from(e: std::io::Error) -> (error: ApiError)
        ensures
            error matches ApiError::IoError(message) && to_string_from_display_ensures::<
                std::io::Error,
            >(&e, message),
    {
        ApiError::IoError(e.to_string())
    }
}

impl FromSpecImpl<netstat2::error::Error> for ApiError {
    open spec fn obeys_from_spec() -> bool {
        false
    }

    open spec fn from_spec(e: netstat2::error::Error) -> ApiError {
        arbitrary()
    }
}

impl From<netstat2::error::Error> for ApiError {
    /// A failure of the socket inventory becomes a `NetstatError` that carries
    /// the failure as it displays itself.
    fn from(e: netstat2::error::Error) -> (error: ApiError)
        ensures
            error matches ApiError::NetstatError(message) && to_string_from_display_ensures::<
                netstat2::error::Error,
            >(&e, message),
    {
        ApiError::NetstatError(e.to_string())
    }
}

} // verus!
