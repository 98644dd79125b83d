use framed_msgpack_rpc::error::Error;
use framed_msgpack_rpc::message::{Message, Notification, Request, Response};
use framed_msgpack_rpc::value::{Integer, Utf8String, Value};

fn uint(n: u64) -> Value {
    Value::Integer(Integer::from_u64(n))
}

fn text(s: &str) -> Value {
    Value::String(Utf8String::from_str(s))
}

#[test]
fn decodes_request() {
    let v = Value::Array(vec![uint(0), uint(7), text("ping"), Value::Array(vec![])]);
    assert_eq!(
        Message::from_value(v),
        Ok(Message::Request(Request { id: 7, method: "ping".to_string(), params: vec![] }))
    );
}

#[test]
fn encodes_success_response() {
    let m = Message::Response(Response { id: 42, result: Ok(Value::Nil) });
    let v = m.to_value();
    assert_eq!(v, Value::Array(vec![uint(1), uint(42), Value::Nil, Value::Nil]));
    assert_eq!(
        Message::from_value(v),
        Ok(Message::Response(Response { id: 42, result: Ok(Value::Nil) }))
    );
}

#[test]
fn encodes_error_response() {
    let m = Message::Response(Response { id: 3, result: Err(text("boom")) });
    assert_eq!(m.to_value(), Value::Array(vec![uint(1), uint(3), text("boom"), Value::Nil]));
}

#[test]
fn request_of_three_elements_is_invalid() {
    let v = Value::Array(vec![uint(0), uint(1), text("m"), Value::Array(vec![])]);
    let short = match v {
        Value::Array(mut a) => {
            a.remove(1);
            Value::Array(a)
        }
        other => other,
    };
    assert_eq!(Message::from_value(short), Err(Error::InvalidData));
}

#[test]
fn request_of_three_elements_literal_is_invalid() {
    let v = Value::Array(vec![uint(0), uint(1), text("m")]);
    assert_eq!(Message::from_value(v), Err(Error::InvalidData));
}

#[test]
fn non_array_is_invalid() {
    assert_eq!(Message::from_value(Value::Nil), Err(Error::InvalidData));
    assert_eq!(Message::from_value(uint(0)), Err(Error::InvalidData));
}

#[test]
fn short_array_is_invalid() {
    assert_eq!(Message::from_value(Value::Array(vec![uint(2), text("m")])), Err(Error::InvalidData));
}

#[test]
fn tag_must_be_known_integer() {
    let v = Value::Array(vec![text("x"), text("m"), Value::Array(vec![])]);
    assert_eq!(Message::from_value(v), Err(Error::InvalidData));
    let v = Value::Array(vec![uint(3), text("m"), Value::Array(vec![])]);
    assert_eq!(Message::from_value(v), Err(Error::InvalidData));
    let v = Value::Array(vec![Value::Integer(Integer::from_i64(-1)), text("m"), Value::Array(vec![])]);
    assert_eq!(Message::from_value(v), Err(Error::InvalidData));
}

#[test]
fn id_must_fit_u32() {
    let v = Value::Array(vec![uint(0), uint(1u64 << 32), text("m"), Value::Array(vec![])]);
    assert_eq!(Message::from_value(v), Err(Error::InvalidData));
    let v = Value::Array(vec![uint(1), Value::Integer(Integer::from_i64(-5)), Value::Nil, Value::Nil]);
    assert_eq!(Message::from_value(v), Err(Error::InvalidData));
    let v = Value::Array(vec![uint(0), uint(u32::MAX as u64), text("m"), Value::Array(vec![])]);
    assert_eq!(
        Message::from_value(v),
        Ok(Message::Request(Request { id: u32::MAX, method: "m".to_string(), params: vec![] }))
    );
}

#[test]
fn method_must_be_utf8_string() {
    let bad = Value::String(Utf8String::Invalid(vec![0xff, 0xfe]));
    let v = Value::Array(vec![uint(0), uint(1), bad, Value::Array(vec![])]);
    assert_eq!(Message::from_value(v), Err(Error::InvalidData));
    let v = Value::Array(vec![uint(2), uint(5), Value::Array(vec![])]);
    assert_eq!(Message::from_value(v), Err(Error::InvalidData));
}

#[test]
fn params_must_be_array() {
    let v = Value::Array(vec![uint(0), uint(1), text("m"), Value::Nil]);
    assert_eq!(Message::from_value(v), Err(Error::InvalidData));
    let v = Value::Array(vec![uint(2), text("m"), uint(4)]);
    assert_eq!(Message::from_value(v), Err(Error::InvalidData));
}

#[test]
fn notification_needs_exactly_three() {
    let v = Value::Array(vec![uint(2), text("m"), Value::Array(vec![]), Value::Nil]);
    assert_eq!(Message::from_value(v), Err(Error::InvalidData));
    let v = Value::Array(vec![uint(2), text("bye"), Value::Array(vec![uint(1)])]);
    assert_eq!(
        Message::from_value(v),
        Ok(Message::Notification(Notification { method: "bye".to_string(), params: vec![uint(1)] }))
    );
}

#[test]
fn response_with_both_slots_set_is_error() {
    let v = Value::Array(vec![uint(1), uint(9), text("bad"), text("ignored")]);
    assert_eq!(
        Message::from_value(v),
        Ok(Message::Response(Response { id: 9, result: Err(text("bad")) }))
    );
    let v = Value::Array(vec![uint(1), uint(9), Value::Nil, text("fine")]);
    assert_eq!(
        Message::from_value(v),
        Ok(Message::Response(Response { id: 9, result: Ok(text("fine")) }))
    );
}

#[test]
fn response_error_nil_reads_back_as_success() {
    let m = Message::Response(Response { id: 1, result: Err(Value::Nil) });
    assert_eq!(
        Message::from_value(m.to_value()),
        Ok(Message::Response(Response { id: 1, result: Ok(Value::Nil) }))
    );
}

#[test]
fn round_trip_each_kind() {
    let make = || {
        vec![
            Message::Request(Request {
                id: 12,
                method: "add".to_string(),
                params: vec![uint(1), Value::Boolean(true), Value::F64(0x4000_0000_0000_0000)],
            }),
            Message::Response(Response { id: 12, result: Ok(Value::Binary(vec![1, 2])) }),
            Message::Response(Response { id: 13, result: Err(Value::Ext(3, vec![9])) }),
            Message::Notification(Notification {
                method: "log".to_string(),
                params: vec![Value::Mapping(vec![(text("k"), uint(2))])],
            }),
        ]
    };
    for (m, expected) in make().into_iter().zip(make().into_iter()) {
        assert_eq!(Message::from_value(m.to_value()), Ok(expected));
    }
}

#[test]
fn integer_conversions() {
    assert_eq!(Integer::from_i64(5), Integer::PosInt(5));
    assert_eq!(Integer::from_i64(-5), Integer::NegInt(-5));
    assert_eq!(Integer::NegInt(-1).as_u64(), None);
    assert_eq!(Integer::PosInt(1u64 << 40).as_u32(), None);
    assert_eq!(Integer::PosInt(77).as_u32(), Some(77));
}

#[test]
fn value_predicates() {
    assert!(Value::Nil.is_nil());
    assert!(!Value::Boolean(false).is_nil());
    assert!(Utf8String::from_str("ok").is_valid());
    assert!(!Utf8String::Invalid(vec![0xc3]).is_valid());
    assert_eq!(Utf8String::from_str("ok"), Utf8String::Valid("ok".to_string()));
}
