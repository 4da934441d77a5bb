//! The error surface of the gateway core.
//!
//! Errors are structured rather than formatted: each variant carries the
//! value that identifies the failure, and [`GatewayError::message`] gives
//! a stable human-readable description.

use vstd::prelude::*;

use crate::interceptor_name::InterceptorName;
use crate::phase::Phase;

verus! {

/// Why a gateway operation failed.
///
/// Configuration errors are fatal at startup or reload; contract
/// violations (touching upstream state before it is attached, or
/// flushing downstream headers in a phase that forbids it) end the
/// request; header rejections come from the underlying header types
/// refusing a staged name or value; filter errors come from a query the
/// evaluator does not understand.
#[derive(Clone, Copy, PartialEq, Eq, Structural, Debug)]
pub enum GatewayError {
    /// An interceptor kind requires a configuration payload that the
    /// entry does not carry.
    MissingInterceptorConfig { interceptor: InterceptorName },
    /// The interceptor kind cannot be constructed by the core registry.
    UnsupportedInterceptor { interceptor: InterceptorName },
    /// The upstream request was read before it was attached.
    UpstreamRequestUnavailable { phase: Phase },
    /// The upstream response was needed before it was attached.
    UpstreamResponseUnavailable { phase: Phase },
    /// Downstream headers cannot be flushed in this phase.
    InvalidDownstreamFlush { phase: Phase },
    /// A staged header name or value was rejected by the real header
    /// object.
    InvalidHeader,
    /// A flush would push the real header object past the capacity its
    /// implementation supports.
    HeaderCapacityExceeded,
    /// A filter query used a key the evaluator does not know.
    UnknownFilterKey,
}

impl GatewayError {
    /// A stable description of the failure.
    pub fn message(&self) -> (s: &'static str)
        ensures
            s@ == self.message_spec(),
    {
        match self {
            GatewayError::MissingInterceptorConfig { .. } => {
                "required configuration payload is missing for the interceptor"
            },
            GatewayError::UnsupportedInterceptor { .. } => {
                "the interceptor kind cannot be built by the core registry"
            },
            GatewayError::UpstreamRequestUnavailable { .. } => {
                "the upstream request is not attached in the current phase"
            },
            GatewayError::UpstreamResponseUnavailable { .. } => {
                "the upstream response is not attached in the current phase"
            },
            GatewayError::InvalidDownstreamFlush { .. } => {
                "can not write downstream headers in the current phase"
            },
            GatewayError::InvalidHeader => "a staged header name or value was rejected",
            GatewayError::HeaderCapacityExceeded => {
                "flushing would exceed the header object's capacity"
            },
            GatewayError::UnknownFilterKey => "a filter query key is not understood",
        }
    }

    pub open spec fn message_spec(self) -> Seq<char> {
        match self {
            GatewayError::MissingInterceptorConfig { .. } => {
                "required configuration payload is missing for the interceptor"@
            },
            GatewayError::UnsupportedInterceptor { .. } => {
                "the interceptor kind cannot be built by the core registry"@
            },
            GatewayError::UpstreamRequestUnavailable { .. } => {
                "the upstream request is not attached in the current phase"@
            },
            GatewayError::UpstreamResponseUnavailable { .. } => {
                "the upstream response is not attached in the current phase"@
            },
            GatewayError::InvalidDownstreamFlush { .. } => {
                "can not write downstream headers in the current phase"@
            },
            GatewayError::InvalidHeader => "a staged header name or value was rejected"@,
            GatewayError::HeaderCapacityExceeded => {
                "flushing would exceed the header object's capacity"@
            },
            GatewayError::UnknownFilterKey => "a filter query key is not understood"@,
        }
    }
}

/// Result alias used throughout the gateway core.
pub type GatewayResult<T> = Result<T, GatewayError>;

/// What a phase or hook pipeline returns: `Ok(true)` means a terminal
/// response has been written and the remaining pipeline must not run.
pub type PhaseResult = Result<bool, GatewayError>;

} // verus!
