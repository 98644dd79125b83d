//! The MessagePack-RPC messages and their conversion to and from a `Value`.
use vstd::prelude::*;
use crate::error::Error;
use crate::value::{Integer, Utf8String, Value};

verus! {

/// A MessagePack-RPC message.
#[derive(Debug, PartialEq)]
pub enum Message {
    Request(Request),
    Response(Response),
    Notification(Notification),
}

/// A MessagePack-RPC request.
#[derive(Debug, PartialEq)]
pub struct Request {
    pub id: u32,
    pub method: String,
    pub params: Vec<Value>,
}

/// A MessagePack-RPC response: `Ok` carries the result, `Err` the error.
#[derive(Debug, PartialEq)]
pub struct Response {
    pub id: u32,
    pub result: Result<Value, Value>,
}

/// A MessagePack-RPC notification.
#[derive(Debug, PartialEq)]
pub struct Notification {
    pub method: String,
    pub params: Vec<Value>,
}

/// What a message means: its id, method name as text and parameters.
pub enum MessageView {
    Request { id: u32, method: Seq<char>, params: Seq<Value> },
    Response { id: u32, result: Result<Value, Value> },
    Notification { method: Seq<char>, params: Seq<Value> },
}

pub const REQUEST_MESSAGE: u64 = 0;
pub const RESPONSE_MESSAGE: u64 = 1;
pub const NOTIFICATION_MESSAGE: u64 = 2;

impl View for Message {
    type V = MessageView;

    open spec fn view(&self) -> MessageView {
        match self {
            Message::Request(r) => MessageView::Request {
                id: r.id,
                method: r.method@,
                params: r.params@,
            },
            Message::Response(r) => MessageView::Response { id: r.id, result: r.result },
            Message::Notification(n) => MessageView::Notification {
                method: n.method@,
                params: n.params@,
            },
        }
    }
}

/// The id that a value carries: an integer in the range of `u32`.
pub open spec fn id_of(v: Value) -> Option<u32> {
    match v {
        Value::Integer(i) => if 0 <= i.value() <= u32::MAX {
            Some(i.value() as u32)
        } else {
            None
        },
        _ => None,
    }
}

/// The method name that a value carries: a string of valid UTF-8.
pub open spec fn method_of(v: Value) -> Option<Seq<char>> {
    match v {
        Value::String(Utf8String::Valid(s)) => Some(s@),
        _ => None,
    }
}

/// The parameters that a value carries: an array.
pub open spec fn params_of(v: Value) -> Option<Seq<Value>> {
    match v {
        Value::Array(p) => Some(p@),
        _ => None,
    }
}

/// `[0, id, method, params]`
pub open spec fn request_of(s: Seq<Value>) -> Option<MessageView> {
    if s.len() == 4 && id_of(s[1]) is Some && method_of(s[2]) is Some && params_of(s[3]) is Some {
        Some(
            MessageView::Request {
                id: id_of(s[1])->0,
                method: method_of(s[2])->0,
                params: params_of(s[3])->0,
            },
        )
    } else {
        None
    }
}

/// `[1, id, error, result]`: an error unless the error slot is nil.
pub open spec fn response_of(s: Seq<Value>) -> Option<MessageView> {
    if s.len() == 4 && id_of(s[1]) is Some {
        Some(
            MessageView::Response {
                id: id_of(s[1])->0,
                result: if s[2] is Nil {
                    Ok(s[3])
                } else {
                    Err(s[2])
                },
            },
        )
    } else {
        None
    }
}

/// `[2, method, params]`
pub open spec fn notification_of(s: Seq<Value>) -> Option<MessageView> {
    if s.len() == 3 && method_of(s[1]) is Some && params_of(s[2]) is Some {
        Some(MessageView::Notification { method: method_of(s[1])->0, params: params_of(s[2])->0 })
    } else {
        None
    }
}

/// The message that a value decodes to, if it is a well-formed one.
pub open spec fn decoded(v: Value) -> Option<MessageView> {
    match v {
        Value::Array(a) => if a@.len() < 3 {
            None
        } else {
            match a@[0] {
                Value::Integer(t) => if t.value() == REQUEST_MESSAGE {
                    request_of(a@)
                } else if t.value() == RESPONSE_MESSAGE {
                    response_of(a@)
                } else if t.value() == NOTIFICATION_MESSAGE {
                    notification_of(a@)
                } else {
                    None
                },
                _ => None,
            }
        },
        _ => None,
    }
}

/// A value holding the tag `t`.
pub open spec fn is_tag(v: Value, t: u64) -> bool {
    v == Value::Integer(Integer::PosInt(t))
}

/// `v` is the value that encodes the message `m`.
pub open spec fn encodes(v: Value, m: MessageView) -> bool {
    match v {
        Value::Array(a) => match m {
            MessageView::Request { id, method, params } => {
                &&& a@.len() == 4
                &&& is_tag(a@[0], REQUEST_MESSAGE)
                &&& is_tag(a@[1], id as u64)
                &&& a@[2] matches Value::String(Utf8String::Valid(s)) && s@ == method
                &&& a@[3] matches Value::Array(p) && p@ == params
            },
            MessageView::Response { id, result } => {
                &&& a@.len() == 4
                &&& is_tag(a@[0], RESPONSE_MESSAGE)
                &&& is_tag(a@[1], id as u64)
                &&& match result {
                    Ok(x) => a@[2] is Nil && a@[3] == x,
                    Err(e) => a@[2] == e && a@[3] is Nil,
                }
            },
            MessageView::Notification { method, params } => {
                &&& a@.len() == 3
                &&& is_tag(a@[0], NOTIFICATION_MESSAGE)
                &&& a@[1] matches Value::String(Utf8String::Valid(s)) && s@ == method
                &&& a@[2] matches Value::Array(p) && p@ == params
            },
        },
        _ => false,
    }
}

/// A well-formed message: a response whose error is nil is taken as a success,
/// so an error must not be nil.
pub open spec fn well_formed(m: MessageView) -> bool {
    m matches MessageView::Response { result: Err(e), .. } ==> !(e is Nil)
}

impl Message {
    /// Converts a MessagePack value to a MessagePack-RPC message, failing with
    /// `InvalidData` when the value does not have one of the three shapes.
    pub fn from_value(v: Value) -> (r: Result<Message, Error>)
        ensures
            match r {
                Ok(m) => decoded(v) == Some(m@),
                Err(e) => decoded(v) is None && e == Error::InvalidData,
            },
    {
        match v {
            Value::Array(a) => {
                if a.len() < 3 {
                    return Err(Error::InvalidData);
                }
                let tag = match &a[0] {
                    Value::Integer(t) => t.as_u64(),
                    _ => {
                        return Err(Error::InvalidData);
                    },
                };
                match tag {
                    Some(t) => {
                        if t == REQUEST_MESSAGE {
                            match Request::from_array(a) {
                                Ok(r) => Ok(Message::Request(r)),
                                Err(e) => Err(e),
                            }
                        } else if t == RESPONSE_MESSAGE {
                            match Response::from_array(a) {
                                Ok(r) => Ok(Message::Response(r)),
                                Err(e) => Err(e),
                            }
                        } else if t == NOTIFICATION_MESSAGE {
                            match Notification::from_array(a) {
                                Ok(n) => Ok(Message::Notification(n)),
                                Err(e) => Err(e),
                            }
                        } else {
                            Err(Error::InvalidData)
                        }
                    },
                    None => Err(Error::InvalidData),
                }
            },
            _ => Err(Error::InvalidData),
        }
    }

    /// Consumes this message and converts it to a MessagePack value.
    pub fn to_value(self) -> (r: Value)
        ensures
            encodes(r, self@),
    {
        match self {
            Message::Request(r) => r.to_value(),
            Message::Response(r) => r.to_value(),
            Message::Notification(n) => n.to_value(),
        }
    }
}

impl Request {
    fn from_array(a: Vec<Value>) -> (r: Result<Request, Error>)
        ensures
            match r {
                Ok(q) => request_of(a@) == Some(Message::Request(q)@),
                Err(e) => request_of(a@) is None && e == Error::InvalidData,
            },
    {
        let mut a = a;
        if a.len() != 4 {
            return Err(Error::InvalidData);
        }
        let params = a.pop();
        let method = a.pop();
        let id = a.pop();
        match (id, method, params) {
            (
                Some(Value::Integer(id)),
                Some(Value::String(Utf8String::Valid(method))),
                Some(Value::Array(params)),
            ) => match id.as_u32() {
                Some(id) => Ok(Request { id, method, params }),
                None => Err(Error::InvalidData),
            },
            _ => Err(Error::InvalidData),
        }
    }

    fn to_value(self) -> (r: Value)
        ensures
            encodes(r, Message::Request(self)@),
    {
        let tag = Value::Integer(Integer::from_u64(REQUEST_MESSAGE));
        let id = Value::Integer(Integer::from_u64(self.id as u64));
        Value::Array(vec![tag, id, Value::String(Utf8String::Valid(self.method)), Value::Array(self.params)])
    }
}

impl Response {
    fn from_array(a: Vec<Value>) -> (r: Result<Response, Error>)
        ensures
            match r {
                Ok(q) => response_of(a@) == Some(Message::Response(q)@),
                Err(e) => response_of(a@) is None && e == Error::InvalidData,
            },
    {
        let mut a = a;
        if a.len() != 4 {
            return Err(Error::InvalidData);
        }
        let result = a.pop();
        let error = a.pop();
        let id = a.pop();
        match (id, error, result) {
            (Some(Value::Integer(id)), Some(error), Some(result)) => match id.as_u32() {
                Some(id) => if error.is_nil() {
                    Ok(Response { id, result: Ok(result) })
                } else {
                    Ok(Response { id, result: Err(error) })
                },
                None => Err(Error::InvalidData),
            },
            _ => Err(Error::InvalidData),
        }
    }

    fn to_value(self) -> (r: Value)
        ensures
            encodes(r, Message::Response(self)@),
    {
        let (error, result) = match self.result {
            Ok(result) => (Value::Nil, result),
            Err(error) => (error, Value::Nil),
        };
        let tag = Value::Integer(Integer::from_u64(RESPONSE_MESSAGE));
        let id = Value::Integer(Integer::from_u64(self.id as u64));
        Value::Array(vec![tag, id, error, result])
    }
}

impl Notification {
    fn from_array(a: Vec<Value>) -> (r: Result<Notification, Error>)
        ensures
            match r {
                Ok(n) => notification_of(a@) == Some(Message::Notification(n)@),
                Err(e) => notification_of(a@) is None && e == Error::InvalidData,
            },
    {
        let mut a = a;
        if a.len() != 3 {
            return Err(Error::InvalidData);
        }
        let params = a.pop();
        let method = a.pop();
        match (method, params) {
            (Some(Value::String(Utf8String::Valid(method))), Some(Value::Array(params))) => Ok(
                Notification { method, params },
            ),
            _ => Err(Error::InvalidData),
        }
    }

    fn to_value(self) -> (r: Value)
        ensures
            encodes(r, Message::Notification(self)@),
    {
        let tag = Value::Integer(Integer::from_u64(NOTIFICATION_MESSAGE));
        Value::Array(vec![tag, Value::String(Utf8String::Valid(self.method)), Value::Array(self.params)])
    }
}

/// Decoding the value that encodes a well-formed message gives that message
/// back.
pub proof fn lemma_round_trip(m: Message)
    requires
        well_formed(m@),
    ensures
        forall|v: Value| #[trigger] encodes(v, m@) ==> decoded(v) == Some(m@),
{
}

} // verus!
