//! Method definitions and the pluggable encoding layer: a method binds a
//! stable name and a request/response type pair to the encoder/decoder each
//! side uses, and the method-driven invoker sequences encode, transport and
//! decode while keeping the three failure stages distinguishable.

use vstd::prelude::*;

use std::collections::HashMap;

use crate::json::{json_text, json_value, parse_json_text, to_json_text};
use crate::transport::Transport;

verus! {

/// The encoding half of a codec pair: value in, wire message out.
pub trait Encoder<V> {
    type Message;

    type Error;

    /// What an implementation promises of an encoding outcome.
    spec fn encodes(&self, value: V, r: Result<Self::Message, Self::Error>) -> bool;

    fn encode(&self, value: V) -> (r: Result<Self::Message, Self::Error>)
        ensures
            self.encodes(value, r),
    ;
}

/// The decoding half of a codec pair: wire message in, value out.
pub trait Decoder<M> {
    type Value;

    type Error;

    /// What an implementation promises of a decoding outcome.
    spec fn decodes(&self, message: M, r: Result<Self::Value, Self::Error>) -> bool;

    fn decode(&self, message: M) -> (r: Result<Self::Value, Self::Error>)
        ensures
            self.decodes(message, r),
    ;
}

/// A type that can travel through an invocation: it names its wire form and
/// the encoder/decoder pair it uses, binding the pair at compile time.
pub trait Message: Sized {
    type MsgType;

    type Encoder: Encoder<Self>;

    type Decoder: Decoder<Self::MsgType>;
}

/// Auxiliary description of one method, for external identification.
#[derive(Debug, Clone)]
pub struct MethodDefInfo {
    map: HashMap<String, String>,
}

impl View for MethodDefInfo {
    type V = Map<String, String>;

    closed spec fn view(&self) -> Map<String, String> {
        self.map@
    }
}

impl MethodDefInfo {
    /// Create an empty method description.
    pub fn new() -> (r: Self)
        ensures
            r@ == Map::<String, String>::empty(),
    {
        MethodDefInfo { map: HashMap::new() }
    }
}

/// A static description of one operation: a stable name, a request type and
/// a response type, each carrying its own encoder/decoder pair.
pub trait MethodDef {
    type Request: Message;

    type Response: Message;

    /// The method's stable name.
    spec fn name_spec(&self) -> Seq<char>;

    /// The description this method carries.
    spec fn def_info(&self) -> MethodDefInfo;

    fn name(&self) -> (r: &'static str)
        ensures
            r@ == self.name_spec(),
    ;

    fn get_method_def_info(&self) -> (r: &MethodDefInfo)
        ensures
            *r == self.def_info(),
    ;
}

/// The JSON encoder: a structured value becomes its JSON text.
pub struct JsonEncoder;

impl Encoder<serde_json::Value> for JsonEncoder {
    type Message = String;

    type Error = String;

    /// The outcome is exactly what serializing the value yields.
    open spec fn encodes(&self, value: serde_json::Value, r: Result<String, String>) -> bool {
        match json_text(value) {
            Some(t) => r is Ok && r.unwrap()@ == t,
            None => r is Err,
        }
    }

    fn encode(&self, value: serde_json::Value) -> (r: Result<String, String>) {
        to_json_text(&value)
    }
}

/// The JSON decoder: a JSON text becomes the structured value it denotes.
pub struct JsonDecoder;

impl Decoder<String> for JsonDecoder {
    type Value = serde_json::Value;

    type Error = String;

    /// The outcome is exactly what parsing the text yields.
    open spec fn decodes(&self, message: String, r: Result<serde_json::Value, String>) -> bool {
        match json_value(message@) {
            Some(v) => r == Ok::<serde_json::Value, String>(v),
            None => r is Err,
        }
    }

    fn decode(&self, message: String) -> (r: Result<serde_json::Value, String>) {
        parse_json_text(message.as_str())
    }
}

impl Message for serde_json::Value {
    type MsgType = String;

    type Encoder = JsonEncoder;

    type Decoder = JsonDecoder;
}

/// The generic structured-value method: request and response are both plain
/// structured values in their JSON form.
pub struct GenericMethod {
    info: MethodDefInfo,
}

impl GenericMethod {
    /// Create the generic method with an empty description.
    pub fn new() -> (r: Self)
        ensures
            r.def_info()@ == Map::<String, String>::empty(),
    {
        GenericMethod { info: MethodDefInfo::new() }
    }
}

impl MethodDef for GenericMethod {
    type Request = serde_json::Value;

    type Response = serde_json::Value;

    open spec fn name_spec(&self) -> Seq<char> {
        "genericInvoke"@
    }

    closed spec fn def_info(&self) -> MethodDefInfo {
        self.info
    }

    fn name(&self) -> (r: &'static str) {
        "genericInvoke"
    }

    fn get_method_def_info(&self) -> (r: &MethodDefInfo) {
        &self.info
    }
}

/// Failure of a method-driven invocation; the three failure stages stay
/// distinguishable.
pub enum InvokerError {
    /// The request had no wire form; the call aborted before any transport
    /// attempt was made.
    EncodeError(String),
    /// The transport collaborator failed; its failure is propagated opaquely.
    TransportError(String),
    /// The reply did not denote a value; the transport step had already run.
    DecodeError(String),
}

/// The method-driven invoker for the generic structured-value method: it
/// encodes the request with the JSON encoder, hands the text to an injected
/// transport, and decodes the raw reply with the JSON decoder.
pub struct BaseJsonInvoker;

impl BaseJsonInvoker {
    /// One invocation. An unencodable request short-circuits before the
    /// transport observes anything; a transport failure and an undecodable
    /// reply each surface as their own error. With a format-compatible
    /// codec pair and an identity transport, the call returns the request.
    pub fn invoke<T: Transport<String, Response = String, Error = String>>(
        &self,
        transport: &mut T,
        req: serde_json::Value,
    ) -> (r: Result<serde_json::Value, InvokerError>)
        requires
            forall|m: String| old(transport).transport_req(m),
        ensures
            json_text(req) is None ==> r is Err && r->Err_0 is EncodeError && *final(transport)
                == *old(transport),
            json_text(req) is Some ==> exists|m: String, tr: Result<String, String>|
                #![auto]
                m@ == json_text(req).unwrap() && old(transport).transport_ens(
                    m,
                    tr,
                    *final(transport),
                ) && (match tr {
                    Err(e) => r == Err::<serde_json::Value, InvokerError>(
                        InvokerError::TransportError(e),
                    ),
                    Ok(reply) => match json_value(reply@) {
                        None => r is Err && r->Err_0 is DecodeError,
                        Some(v) => r == Ok::<serde_json::Value, InvokerError>(v),
                    },
                }),
            (json_text(req) is Some && json_value(json_text(req).unwrap()) == Some(req) && (
            forall|m: String, tr: Result<String, String>, post: T|
                old(transport).transport_ens(m, tr, post) ==> tr == Ok::<String, String>(m)))
                ==> r == Ok::<serde_json::Value, InvokerError>(req),
    {
        let encoder = JsonEncoder;
        let s = match encoder.encode(req) {
            Ok(s) => s,
            Err(e) => {
                return Err(InvokerError::EncodeError(e));
            },
        };
        let ghost gm = s;
        let tr = transport.transport(s);
        let ghost gtr = tr;
        match tr {
            Err(e) => Err(InvokerError::TransportError(e)),
            Ok(reply) => {
                let decoder = JsonDecoder;
                match decoder.decode(reply) {
                    Ok(v) => Ok(v),
                    Err(e) => Err(InvokerError::DecodeError(e)),
                }
            },
        }
    }
}

} // verus!
