use invoker_explore::invoker::{BaseInvoker, Invoker, InvokerError, Payload};
use invoker_explore::transport::{EchoTransport, Invoker as TransportInvoker, ScriptedTransport};

#[test]
fn base_invoker_echoes_an_encodable_request() {
    let invoker = BaseInvoker {};
    let inner = serde_json::Value::String("hello".to_owned());
    let req = Payload::new(inner.clone());
    match invoker.invoke(req) {
        Ok(res) => assert_eq!(res.get_inner(), &inner),
        Err(InvokerError::GeneralError(_)) => {
            panic!("a structured value always has a wire form")
        }
    }
}

#[test]
fn payload_hands_back_what_it_wraps() {
    let inner = serde_json::Value::from(42);
    let payload = Payload::new(inner.clone());
    assert_eq!(payload.get_inner(), &inner);
}

#[test]
fn transport_invoker_propagates_the_reply() {
    let mut invoker: TransportInvoker<EchoTransport, String, String> =
        TransportInvoker::new(EchoTransport { calls: 0 });
    let r = invoker.invoke("over the wire".to_owned());
    match r {
        Ok(reply) => assert_eq!(reply, "over the wire"),
        Err(_) => panic!("the echo transport never fails"),
    }
    assert_eq!(invoker.transport.calls, 1);
}

#[test]
fn transport_invoker_propagates_the_failure() {
    let mut invoker: TransportInvoker<ScriptedTransport, String, String> =
        TransportInvoker::new(ScriptedTransport { reply: Err("refused".to_owned()), calls: 0 });
    let r = invoker.invoke("request".to_owned());
    match r {
        Ok(_) => panic!("the scripted transport was told to fail"),
        Err(invoker_explore::transport::InvokerError::GeneralError(message)) => {
            assert_eq!(message, "refused")
        }
    }
    assert_eq!(invoker.transport.calls, 1);
}
