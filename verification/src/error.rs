//! The error taxonomy shared by dispatch and classification.
//!
//! Callers see exactly three outcomes of a failed operation: the provider
//! rejected the request at the protocol level (`Rejected`, never worth
//! retrying unchanged), the transport failed transiently (`RequestFailure`,
//! a retry candidate), or something that signals a defect — a malformed
//! response, a serialization bug (`InternalError`).  The underlying cause
//! is preserved as a message string so no failure crosses this boundary as
//! a bare transport or JSON library error.

use vstd::prelude::*;

verus! {

/// A structured error payload returned by the provider: the request was
/// understood but refused.  Field names mirror the provider's PascalCase
/// response fields.
#[derive(Debug)]
pub struct AliyunRejection {
    pub code: String,
    pub host_id: String,
    pub message: String,
    pub request_id: String,
    pub recommend: String,
}

/// How the transport failed, for retry policy.
#[derive(Debug)]
pub enum RequestErrorKind {
    Timeout,
    Connect,
}

/// The one error type surfaced to callers.
#[derive(Debug)]
pub enum OperationError {
    /// The provider returned a rejection payload.
    Rejected(AliyunRejection),
    /// The transport failed in a classified, possibly transient way.
    RequestFailure { message: String, kind: RequestErrorKind },
    /// Anything else: a decode failure or an unclassified transport error,
    /// with the original cause preserved as text.
    InternalError { message: String },
}

/// The sentinel put in a rejection field the provider left out.
pub open spec fn missing_field_text() -> Seq<char> {
    "No content. If you see this please submit a bug issue (to the rust sdk repo)."@
}

/// The sentinel value for `message` and `recommend` when a rejection
/// payload omits them, which the provider does on some variants.
pub fn default_aliyun_rejection_field() -> (r: String)
    ensures
        r@ == missing_field_text(),
{
    "No content. If you see this please submit a bug issue (to the rust sdk repo).".to_owned()
}

/// Builds the error for a failed transport exchange from the transport's
/// own predicates: a timeout and a connection failure are classified
/// `RequestFailure` (timeout winning when both hold), and any other
/// transport outcome — a failing HTTP status included — is an internal
/// error.  That narrow policy is deliberate: only the two conditions a
/// caller may sensibly retry are marked retryable.  The message carries
/// the transport's own rendering of the cause.
pub fn classify_transport(is_timeout: bool, is_connect: bool, message: String) -> (r:
    OperationError)
    ensures
        is_timeout ==> r == (OperationError::RequestFailure {
            message,
            kind: RequestErrorKind::Timeout,
        }),
        !is_timeout && is_connect ==> r == (OperationError::RequestFailure {
            message,
            kind: RequestErrorKind::Connect,
        }),
        !is_timeout && !is_connect ==> r == (OperationError::InternalError { message }),
{
    if is_timeout {
        OperationError::RequestFailure { message, kind: RequestErrorKind::Timeout }
    } else if is_connect {
        OperationError::RequestFailure { message, kind: RequestErrorKind::Connect }
    } else {
        OperationError::InternalError { message }
    }
}

/// Builds the error for a body that could not be decoded at all: a
/// decode failure is always an internal error — a defect signal, never
/// retryable — carrying the decoder's rendering of the cause.
pub fn classify_decode_failure(message: String) -> (r: OperationError)
    ensures
        r == (OperationError::InternalError { message }),
{
    OperationError::InternalError { message }
}

} // verus!
