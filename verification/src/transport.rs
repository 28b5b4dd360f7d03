//! The transport boundary: an injected collaborator that accepts a wire
//! message and answers with a wire message or an error. The core never
//! assumes anything about a transport beyond its stated contract, and the
//! two stand-ins here let callers observe exactly what a transport saw.

use vstd::prelude::*;

verus! {

/// The transport contract: one call carries one message out and one reply
/// (or failure) back, and may change the transport's own state.
pub trait Transport<Req>: Sized {
    type Response;

    type Error;

    /// What an implementation asks of the message and its own state.
    spec fn transport_req(&self, req: Req) -> bool;

    /// What an implementation promises of its reply and the state it leaves
    /// behind.
    spec fn transport_ens(
        &self,
        req: Req,
        r: Result<Self::Response, Self::Error>,
        post: Self,
    ) -> bool;

    fn transport(&mut self, req: Req) -> (r: Result<Self::Response, Self::Error>)
        requires
            old(self).transport_req(req),
        ensures
            old(self).transport_ens(req, r, *final(self)),
    ;
}

/// A transport stand-in that hands every message straight back and counts
/// the calls it has observed.
pub struct EchoTransport {
    pub calls: u64,
}

impl Transport<String> for EchoTransport {
    type Response = String;

    type Error = String;

    open spec fn transport_req(&self, req: String) -> bool {
        self.calls < u64::MAX
    }

    /// The reply is the message itself, and exactly one more call has been
    /// observed.
    open spec fn transport_ens(
        &self,
        req: String,
        r: Result<String, String>,
        post: Self,
    ) -> bool {
        r == Ok::<String, String>(req) && post == (EchoTransport {
            calls: (self.calls + 1) as u64,
        })
    }

    fn transport(&mut self, req: String) -> (r: Result<String, String>) {
        self.calls = self.calls + 1;
        Ok(req)
    }
}

/// Law: the echo transport is an identity transport — every behaviour it
/// admits returns the message unchanged.
pub proof fn lemma_echo_is_identity(t: EchoTransport)
    ensures
        forall|m: String, tr: Result<String, String>, post: EchoTransport|
            t.transport_ens(m, tr, post) ==> tr == Ok::<String, String>(m),
{
}

/// A transport stand-in that ignores the message and answers with a fixed,
/// pre-scripted reply or failure, counting the calls it has observed.
pub struct ScriptedTransport {
    pub reply: Result<String, String>,
    pub calls: u64,
}

impl Transport<String> for ScriptedTransport {
    type Response = String;

    type Error = String;

    open spec fn transport_req(&self, req: String) -> bool {
        self.calls < u64::MAX
    }

    /// The reply is the scripted one, the script stays in place, and exactly
    /// one more call has been observed.
    open spec fn transport_ens(
        &self,
        req: String,
        r: Result<String, String>,
        post: Self,
    ) -> bool {
        r == self.reply && post == (ScriptedTransport {
            reply: self.reply,
            calls: (self.calls + 1) as u64,
        })
    }

    fn transport(&mut self, req: String) -> (r: Result<String, String>) {
        self.calls = self.calls + 1;
        match &self.reply {
            Ok(s) => Ok(s.clone()),
            Err(s) => Err(s.clone()),
        }
    }
}

/// Failure of a transport-driven invocation.
pub enum InvokerError {
    GeneralError(String),
}

/// An invoker that performs one call by handing the request to an injected
/// transport and propagating the transport's reply or failure.
#[derive(Debug)]
pub struct Invoker<T, Req, Res> {
    pub transport: T,
    pub _marker: core::marker::PhantomData<(Req, Res)>,
}

impl<T, Req, Res> Invoker<T, Req, Res> where T: Transport<Req, Response = Res, Error = String> {
    /// Build an invoker around an injected transport collaborator.
    pub fn new(transport: T) -> (r: Self)
        ensures
            r.transport == transport,
    {
        Invoker { transport, _marker: core::marker::PhantomData }
    }

    /// One invocation: exactly one transport call, whose reply is the
    /// response and whose failure is the invocation's error.
    pub fn invoke(&mut self, req: Req) -> (r: Result<Res, InvokerError>)
        requires
            old(self).transport.transport_req(req),
        ensures
            exists|tr: Result<Res, String>|
                old(self).transport.transport_ens(req, tr, final(self).transport) && (match tr {
                    Ok(v) => r == Ok::<Res, InvokerError>(v),
                    Err(e) => r == Err::<Res, InvokerError>(InvokerError::GeneralError(e)),
                }),
    {
        let tr = self.transport.transport(req);
        let ghost gtr = tr;
        let r = match tr {
            Ok(v) => Ok(v),
            Err(e) => Err(InvokerError::GeneralError(e)),
        };
        proof {
            assert(old(self).transport.transport_ens(req, gtr, final(self).transport));
        }
        r
    }
}

} // verus!
