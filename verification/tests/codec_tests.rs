use invoker_explore::codec::{
    BaseJsonInvoker, Decoder, Encoder, GenericMethod, InvokerError, JsonDecoder, JsonEncoder,
    MethodDef, MethodDefInfo,
};
use invoker_explore::transport::{EchoTransport, ScriptedTransport, Transport};

fn sample_object() -> serde_json::Value {
    let mut fields = serde_json::Map::new();
    fields.insert("id".to_owned(), serde_json::Value::from(7));
    fields.insert("name".to_owned(), serde_json::Value::String("query".to_owned()));
    serde_json::Value::Object(fields)
}

#[test]
fn json_encoder_produces_the_json_text() {
    let encoder = JsonEncoder;
    assert_eq!(encoder.encode(serde_json::Value::Bool(true)), Ok("true".to_owned()));
    assert_eq!(encoder.encode(serde_json::Value::Null), Ok("null".to_owned()));
    assert_eq!(
        encoder.encode(sample_object()),
        Ok("{\"id\":7,\"name\":\"query\"}".to_owned())
    );
}

#[test]
fn json_decoder_parses_the_json_text() {
    let decoder = JsonDecoder;
    assert_eq!(decoder.decode("true".to_owned()), Ok(serde_json::Value::Bool(true)));
    assert_eq!(
        decoder.decode("{\"id\":7,\"name\":\"query\"}".to_owned()),
        Ok(sample_object())
    );
    assert!(decoder.decode("{not json".to_owned()).is_err());
}

#[test]
fn round_trip_through_identity_transport() {
    let invoker = BaseJsonInvoker;
    let mut transport = EchoTransport { calls: 0 };
    let req = sample_object();
    match invoker.invoke(&mut transport, req.clone()) {
        Ok(v) => assert_eq!(v, req),
        Err(_) => panic!("a format-compatible pair with an identity transport must round-trip"),
    }
    assert_eq!(transport.calls, 1);
}

#[test]
fn transport_failure_is_its_own_error() {
    let invoker = BaseJsonInvoker;
    let mut transport = ScriptedTransport { reply: Err("line down".to_owned()), calls: 0 };
    let r = invoker.invoke(&mut transport, serde_json::Value::Null);
    assert!(matches!(r, Err(InvokerError::TransportError(_))));
    assert_eq!(transport.calls, 1);
}

#[test]
fn undecodable_reply_is_a_decode_error_after_transport_ran() {
    let invoker = BaseJsonInvoker;
    let mut transport = ScriptedTransport { reply: Ok("{broken".to_owned()), calls: 0 };
    let r = invoker.invoke(&mut transport, serde_json::Value::Null);
    assert!(matches!(r, Err(InvokerError::DecodeError(_))));
    assert!(!matches!(r, Err(InvokerError::EncodeError(_))));
    assert_eq!(transport.calls, 1);
}

#[test]
fn scripted_transport_replies_with_its_script() {
    let mut transport = ScriptedTransport { reply: Ok("pong".to_owned()), calls: 0 };
    assert_eq!(transport.transport("ping".to_owned()), Ok("pong".to_owned()));
    assert_eq!(transport.transport("ping again".to_owned()), Ok("pong".to_owned()));
    assert_eq!(transport.calls, 2);
}

#[test]
fn echo_transport_echoes_and_counts() {
    let mut transport = EchoTransport { calls: 0 };
    assert_eq!(transport.transport("one".to_owned()), Ok("one".to_owned()));
    assert_eq!(transport.transport("two".to_owned()), Ok("two".to_owned()));
    assert_eq!(transport.calls, 2);
}

#[test]
fn generic_method_has_its_stable_name() {
    let method = GenericMethod::new();
    assert_eq!(method.name(), "genericInvoke");
    let _info: &MethodDefInfo = method.get_method_def_info();
    let _fresh = MethodDefInfo::new();
}
