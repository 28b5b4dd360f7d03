//! The direct invoker: one call is a single request-to-response transition.
//! The trait uses the associated-type form — each implementation chooses its
//! own response and error types — and the base implementation echoes every
//! request whose wire form exists.

use vstd::prelude::*;

use crate::json::{json_text, to_json_text};

verus! {

/// Failure of a direct invocation.
pub enum InvokerError {
    GeneralError(String),
}

/// A value travelling through an invocation: a thin owned wrapper around
/// the serialization library's structured value.
#[derive(Debug, Clone)]
pub struct Payload {
    value: serde_json::Value,
}

/// Failure to convert between a typed value and a payload; encoding and
/// decoding failures stay distinguishable. The conversions themselves go
/// through the serialization library's own traits and live outside the
/// verified core, which keeps only this bare error type.
pub enum ValueError {
    EncodeError(String),
    DecodeError(String),
}

impl Payload {
    /// The structured value inside.
    pub closed spec fn inner(self) -> serde_json::Value {
        self.value
    }

    /// Wrap a structured value.
    pub fn new(value: serde_json::Value) -> (r: Payload)
        ensures
            r.inner() == value,
    {
        Payload { value }
    }

    /// A read-only reference to the structured value inside.
    pub fn get_inner(&self) -> (r: &serde_json::Value)
        ensures
            *r == self.inner(),
    {
        &self.value
    }
}

/// The direct invocation contract: a request goes in, a response or an
/// implementation-chosen error comes out.
pub trait Invoker<Req> {
    type Response;

    type Error;

    /// What an implementation asks of the request.
    spec fn invoke_req(&self, req: Req) -> bool;

    /// What an implementation promises of its result.
    spec fn invoke_ens(&self, req: Req, r: Result<Self::Response, Self::Error>) -> bool;

    fn invoke(&self, req: Req) -> (r: Result<Self::Response, Self::Error>)
        requires
            self.invoke_req(req),
        ensures
            self.invoke_ens(req, r),
    ;
}

/// An invoker that validates that the request has a wire form and echoes the
/// request back; the transport stand-in that would forward the encoded text
/// lives outside the verified core.
#[derive(Debug, Clone)]
pub struct BaseInvoker {}

impl Invoker<Payload> for BaseInvoker {
    type Response = Payload;

    type Error = InvokerError;

    open spec fn invoke_req(&self, req: Payload) -> bool {
        true
    }

    /// Every encodable request comes back unchanged; a request without a
    /// wire form is the general error.
    open spec fn invoke_ens(&self, req: Payload, r: Result<Payload, InvokerError>) -> bool {
        match json_text(req.inner()) {
            Some(_) => r == Ok::<Payload, InvokerError>(req),
            None => r is Err,
        }
    }

    fn invoke(&self, req: Payload) -> (r: Result<Payload, InvokerError>) {
        match to_json_text(req.get_inner()) {
            Ok(_) => Ok(req),
            Err(e) => Err(InvokerError::GeneralError(e)),
        }
    }
}

} // verus!
