use aleo_pool_server::stratum::codec::{
    decode_request, decode_response, encode, unwrap_bool_value, unwrap_str_value,
    unwrap_u64_value, BoxedType, DecodeError, Id, JsonItem, JsonValue, Outgoing, Param,
    ResponseParams, RpcError,
};
use aleo_pool_server::stratum::codec::{decode_json_rpc, JsonRpcLine};
use aleo_pool_server::stratum::frame::{frame_line, next_line, FrameError, MAX_LINE};
use aleo_pool_server::stratum::message::StratumMessage;

fn s(text: &str) -> String {
    text.to_string()
}

fn js(text: &str) -> JsonItem {
    JsonItem::Str(text.to_string())
}

/// How a sent parameter reads back on the other side of the wire.
fn received(p: &Param) -> JsonItem {
    match p {
        Param::Str(x) => JsonItem::Str(x.clone()),
        Param::OptStr(Some(x)) => JsonItem::Str(x.clone()),
        Param::OptStr(None) => JsonItem::Null,
        Param::U64(n) => JsonItem::U64(*n),
        Param::Bool(b) => JsonItem::Bool(*b),
    }
}

fn round_trip(m: StratumMessage) -> StratumMessage {
    match encode(m) {
        Outgoing::Request(method, params, id) => {
            let items = params.iter().map(received).collect();
            decode_request(method.to_string(), Some(items), id).expect("decodes")
        }
        _ => panic!("expected a request"),
    }
}

fn id_num(id: &Id) -> Option<u64> {
    match id {
        Id::Num(n) => Some(*n),
        Id::Str(_) => None,
    }
}

#[test]
fn names_of_messages() {
    assert_eq!(StratumMessage::SetTarget(1).name(), "mining.set_target");
    assert_eq!(
        StratumMessage::Authorize(Id::Num(1), s("w"), s("p")).name(),
        "mining.authorize"
    );
    assert_eq!(
        StratumMessage::Subscribe(Id::Num(1), s("a"), s("b"), None).name(),
        "mining.subscribe"
    );
    assert_eq!(
        StratumMessage::Notify(s("j"), s("e"), None, true).name(),
        "mining.notify"
    );
    assert_eq!(
        StratumMessage::Submit(Id::Num(1), s("w"), s("j"), s("n"), s("c"), s("p")).name(),
        "mining.submit"
    );
    assert_eq!(
        StratumMessage::Response(Id::Num(1), None, None).name(),
        "mining.response"
    );
}

#[test]
fn encode_subscribe() {
    match encode(StratumMessage::Subscribe(Id::Num(7), s("miner/1"), s("AleoStratum/2.0.0"), None)) {
        Outgoing::Request(method, params, id) => {
            assert_eq!(method, "mining.subscribe");
            assert_eq!(params.len(), 3);
            assert!(matches!(&params[0], Param::Str(x) if x == "miner/1"));
            assert!(matches!(&params[1], Param::Str(x) if x == "AleoStratum/2.0.0"));
            assert!(matches!(&params[2], Param::OptStr(None)));
            assert_eq!(id.as_ref().and_then(id_num), Some(7));
        }
        _ => panic!("expected a request"),
    }
}

#[test]
fn encode_set_target_has_no_id() {
    match encode(StratumMessage::SetTarget(u64::MAX)) {
        Outgoing::Request(method, params, id) => {
            assert_eq!(method, "mining.set_target");
            assert!(matches!(params.as_slice(), [Param::U64(n)] if *n == u64::MAX));
            assert!(id.is_none());
        }
        _ => panic!("expected a request"),
    }
}

#[test]
fn encode_response_with_error_sends_error() {
    let err = RpcError { code: 22, message: s("Duplicate nonce") };
    match encode(StratumMessage::Response(Id::Num(3), Some(ResponseParams::Bool(true)), Some(err))) {
        Outgoing::Error(id, e) => {
            assert_eq!(id_num(&id), Some(3));
            assert_eq!(e.code, 22);
            assert_eq!(e.message, "Duplicate nonce");
        }
        _ => panic!("expected an error response"),
    }
}

#[test]
fn encode_response_with_result() {
    match encode(StratumMessage::Response(Id::Num(3), Some(ResponseParams::Bool(true)), None)) {
        Outgoing::Result(id, Some(ResponseParams::Bool(true))) => assert_eq!(id_num(&id), Some(3)),
        _ => panic!("expected a result response"),
    }
}

#[test]
fn requests_round_trip() {
    match round_trip(StratumMessage::Subscribe(Id::Num(1), s("ua"), s("AleoStratum/2.0.0"), Some(s("sid")))) {
        StratumMessage::Subscribe(id, ua, v, sid) => {
            assert_eq!(id_num(&id), Some(1));
            assert_eq!((ua.as_str(), v.as_str(), sid.as_deref()), ("ua", "AleoStratum/2.0.0", Some("sid")));
        }
        _ => panic!("wrong message"),
    }
    match round_trip(StratumMessage::Authorize(Id::Str(s("x")), s("aleo1abc"), s("pw"))) {
        StratumMessage::Authorize(Id::Str(id), w, p) => {
            assert_eq!((id.as_str(), w.as_str(), p.as_str()), ("x", "aleo1abc", "pw"));
        }
        _ => panic!("wrong message"),
    }
    assert!(matches!(round_trip(StratumMessage::SetTarget(99)), StratumMessage::SetTarget(99)));
    match round_trip(StratumMessage::Notify(s("00000001"), s("abcd"), None, false)) {
        StratumMessage::Notify(j, e, a, c) => {
            assert_eq!((j.as_str(), e.as_str(), a, c), ("00000001", "abcd", None, false));
        }
        _ => panic!("wrong message"),
    }
    match round_trip(StratumMessage::Submit(Id::Num(9), s("w"), s("j"), s("n"), s("c"), s("p"))) {
        StratumMessage::Submit(id, w, j, n, c, p) => {
            assert_eq!(id_num(&id), Some(9));
            assert_eq!(
                (w.as_str(), j.as_str(), n.as_str(), c.as_str(), p.as_str()),
                ("w", "j", "n", "c", "p")
            );
        }
        _ => panic!("wrong message"),
    }
}

#[test]
fn decode_without_params_fails() {
    let r = decode_request(s("mining.subscribe"), None, Some(Id::Num(1)));
    assert_eq!(r.err(), Some(DecodeError::NoParams));
    let r = decode_request(s("mining.unknown"), None, None);
    assert_eq!(r.err(), Some(DecodeError::NoParams));
}

#[test]
fn decode_unknown_method_fails() {
    let r = decode_request(s("mining.extranonce"), Some(vec![]), None);
    assert_eq!(r.err(), Some(DecodeError::UnknownMethod));
}

#[test]
fn decode_wrong_param_count_fails() {
    let r = decode_request(s("mining.authorize"), Some(vec![js("a")]), None);
    assert_eq!(r.err(), Some(DecodeError::InvalidParams));
    let r = decode_request(s("mining.set_target"), Some(vec![]), None);
    assert_eq!(r.err(), Some(DecodeError::InvalidParams));
}

#[test]
fn decode_param_type_errors() {
    let r = decode_request(s("mining.authorize"), Some(vec![JsonItem::U64(1), js("p")]), None);
    assert_eq!(r.err(), Some(DecodeError::NotStr));
    let r = decode_request(s("mining.set_target"), Some(vec![js("5")]), None);
    assert_eq!(r.err(), Some(DecodeError::NotU64));
    let r = decode_request(s("mining.set_target"), Some(vec![JsonItem::OtherNumber]), None);
    assert_eq!(r.err(), Some(DecodeError::NotU64));
    let r = decode_request(
        s("mining.notify"),
        Some(vec![js("j"), js("e"), JsonItem::Null, JsonItem::U64(1)]),
        None,
    );
    assert_eq!(r.err(), Some(DecodeError::NotBool));
    let r = decode_request(
        s("mining.subscribe"),
        Some(vec![js("ua"), js("v"), JsonItem::Bool(true)]),
        None,
    );
    assert_eq!(r.err(), Some(DecodeError::InvalidParams));
}

#[test]
fn decode_missing_id_reads_as_zero() {
    match decode_request(s("mining.authorize"), Some(vec![js("a"), js("b")]), None) {
        Ok(StratumMessage::Authorize(Id::Num(0), _, _)) => {}
        _ => panic!("expected id 0"),
    }
}

#[test]
fn decode_error_messages() {
    assert_eq!(DecodeError::NoParams.message(), "No params");
    assert_eq!(DecodeError::InvalidParams.message(), "Invalid params");
    assert_eq!(DecodeError::NotStr.message(), "Param is not str");
    assert_eq!(DecodeError::NotBool.message(), "Param is not bool");
    assert_eq!(DecodeError::NotU64.message(), "Param is not u64");
    assert_eq!(DecodeError::UnknownMethod.message(), "Unknown method");
    assert_eq!(DecodeError::InvalidResponseParams.message(), "invalid response params");
}

#[test]
fn unwrap_values() {
    assert_eq!(unwrap_str_value(&js("x")), Ok(s("x")));
    assert_eq!(unwrap_str_value(&JsonItem::Null), Err(DecodeError::NotStr));
    assert_eq!(unwrap_bool_value(&JsonItem::Bool(true)), Ok(true));
    assert_eq!(unwrap_bool_value(&js("true")), Err(DecodeError::NotBool));
    assert_eq!(unwrap_u64_value(&JsonItem::U64(12)), Ok(12));
    assert_eq!(unwrap_u64_value(&JsonItem::Nested), Err(DecodeError::NotU64));
}

#[test]
fn decode_response_array_normalizes_items() {
    let value = JsonValue::Array(vec![
        JsonItem::Null,
        js("aleo1pool"),
        JsonItem::U64(5),
        JsonItem::OtherNumber,
        JsonItem::Bool(true),
        JsonItem::Nested,
    ]);
    match decode_response(Some(Id::Num(4)), Ok(value)) {
        Ok(StratumMessage::Response(Id::Num(4), Some(ResponseParams::Array(items)), None)) => {
            assert_eq!(items.len(), 4);
            assert!(matches!(&items[0], BoxedType::OptStr(None)));
            assert!(matches!(&items[1], BoxedType::Str(x) if x == "aleo1pool"));
            assert!(matches!(&items[2], BoxedType::OptU64(Some(5))));
            assert!(matches!(&items[3], BoxedType::OptU64(None)));
        }
        _ => panic!("expected an array response"),
    }
}

#[test]
fn decode_response_bool_and_null() {
    assert!(matches!(
        decode_response(None, Ok(JsonValue::Bool(true))),
        Ok(StratumMessage::Response(Id::Num(0), Some(ResponseParams::Bool(true)), None))
    ));
    assert!(matches!(
        decode_response(Some(Id::Num(2)), Ok(JsonValue::Null)),
        Ok(StratumMessage::Response(Id::Num(2), Some(ResponseParams::Null), None))
    ));
}

#[test]
fn decode_response_other_result_fails() {
    assert_eq!(
        decode_response(Some(Id::Num(1)), Ok(JsonValue::Other)).err(),
        Some(DecodeError::InvalidResponseParams)
    );
}

#[test]
fn decode_response_error() {
    let err = RpcError { code: 21, message: s("Stale proof") };
    match decode_response(Some(Id::Num(8)), Err(err)) {
        Ok(StratumMessage::Response(Id::Num(8), None, Some(e))) => {
            assert_eq!(e.code, 21);
            assert_eq!(e.message, "Stale proof");
        }
        _ => panic!("expected an error response"),
    }
}

#[test]
fn from_json_direct() {
    assert!(matches!(
        ResponseParams::from_json(JsonValue::Bool(false)),
        Ok(ResponseParams::Bool(false))
    ));
    assert!(matches!(
        ResponseParams::from_json(JsonValue::Array(vec![])),
        Ok(ResponseParams::Array(v)) if v.is_empty()
    ));
}

#[test]
fn lines_frame_and_split() {
    assert_eq!(frame_line(b"{\"id\":1}"), Some(b"{\"id\":1}\n".to_vec()));
    assert_eq!(frame_line(b"a\nb"), None);
    let mut buf = b"{\"a\":1}\n{\"b\"".to_vec();
    assert_eq!(next_line(&mut buf), Ok(Some(b"{\"a\":1}".to_vec())));
    assert_eq!(buf, b"{\"b\"".to_vec());
    assert_eq!(next_line(&mut buf), Ok(None));
    assert_eq!(buf, b"{\"b\"".to_vec());
    buf.extend_from_slice(b":2}\n");
    assert_eq!(next_line(&mut buf), Ok(Some(b"{\"b\":2}".to_vec())));
    assert!(buf.is_empty());
    // a buffer scanned before and then emptied reads as nothing
    assert_eq!(next_line(&mut buf), Ok(None));
    let mut buf = b"\nxyz\n".to_vec();
    assert_eq!(next_line(&mut buf), Ok(Some(Vec::new())));
    assert_eq!(next_line(&mut buf), Ok(Some(b"xyz".to_vec())));
}

#[test]
fn overlong_lines_are_refused() {
    let mut buf = vec![b'x'; MAX_LINE];
    assert_eq!(next_line(&mut buf), Ok(None));
    buf.push(b'x');
    assert_eq!(next_line(&mut buf), Err(FrameError::LineTooLong));
    assert_eq!(buf.len(), MAX_LINE + 1);
    let mut exact = vec![b'y'; MAX_LINE];
    exact.push(b'\n');
    assert_eq!(next_line(&mut exact), Ok(Some(vec![b'y'; MAX_LINE])));
}

#[test]
fn json_rpc_lines() {
    assert_eq!(decode_json_rpc(JsonRpcLine::NotObject).err(), Some(DecodeError::NotAnObject));
    assert_eq!(DecodeError::NotAnObject.message(), "Not an object");
    let m = decode_json_rpc(JsonRpcLine::Request {
        method: s("mining.set_target"),
        params: Some(vec![JsonItem::U64(9)]),
        id: None,
    });
    assert!(matches!(m, Ok(StratumMessage::SetTarget(9))));
    let m = decode_json_rpc(JsonRpcLine::Response { id: Some(Id::Num(1)), payload: Ok(JsonValue::Bool(true)) });
    assert!(matches!(m, Ok(StratumMessage::Response(Id::Num(1), Some(ResponseParams::Bool(true)), None))));
}
