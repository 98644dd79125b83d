use framed_msgpack_rpc::endpoint::{Endpoint, EndpointStatus};
use framed_msgpack_rpc::message::{Message, Notification, Request, Response};
use framed_msgpack_rpc::value::{Utf8String, Value};

fn request(method: &str) -> Request {
    Request { id: 0, method: method.to_string(), params: vec![] }
}

fn stamped_id(m: &Message) -> u32 {
    match m {
        Message::Request(r) => r.id,
        _ => panic!("not a request"),
    }
}

#[test]
fn ids_start_at_one_and_increase() {
    let mut e: Endpoint<u32, ()> = Endpoint::new();
    let ids: Vec<u32> = (0..5).map(|k| stamped_id(&e.submit_request(request("m"), k))).collect();
    assert_eq!(ids, vec![1, 2, 3, 4, 5]);
}

#[test]
fn submitted_request_keeps_method_and_params() {
    let mut e: Endpoint<(), ()> = Endpoint::new();
    let q = Request { id: 99, method: "sum".to_string(), params: vec![Value::Boolean(true)] };
    assert_eq!(
        e.submit_request(q, ()),
        Message::Request(Request { id: 1, method: "sum".to_string(), params: vec![Value::Boolean(true)] })
    );
}

#[test]
fn responses_reach_their_own_sinks() {
    let mut e: Endpoint<&str, ()> = Endpoint::new();
    e.submit_request(request("a"), "first");
    e.submit_request(request("b"), "second");
    e.submit_request(request("c"), "third");
    let got = e.handle_msg(Message::Response(Response { id: 2, result: Ok(Value::Nil) }));
    assert_eq!(got, Some(("second", Ok(Value::Nil))));
    let got = e.handle_msg(Message::Response(Response { id: 3, result: Err(Value::Boolean(false)) }));
    assert_eq!(got, Some(("third", Err(Value::Boolean(false)))));
    let got = e.handle_msg(Message::Response(Response { id: 1, result: Ok(Value::Boolean(true)) }));
    assert_eq!(got, Some(("first", Ok(Value::Boolean(true)))));
}

#[test]
fn unknown_or_repeated_response_is_dropped() {
    let mut e: Endpoint<u8, ()> = Endpoint::new();
    e.submit_request(request("a"), 7);
    assert_eq!(e.handle_msg(Message::Response(Response { id: 5, result: Ok(Value::Nil) })), None);
    assert_eq!(e.handle_msg(Message::Response(Response { id: 1, result: Ok(Value::Nil) })), Some((7, Ok(Value::Nil))));
    assert_eq!(e.handle_msg(Message::Response(Response { id: 1, result: Ok(Value::Nil) })), None);
}

#[test]
fn inbound_requests_and_notifications_are_dropped() {
    let mut e: Endpoint<u8, ()> = Endpoint::new();
    e.submit_request(request("a"), 1);
    assert_eq!(e.handle_msg(Message::Request(Request { id: 1, method: "x".to_string(), params: vec![] })), None);
    assert_eq!(e.handle_msg(Message::Notification(Notification { method: "x".to_string(), params: vec![] })), None);
    e.close();
    assert_eq!(e.status(false), EndpointStatus::Draining);
}

#[test]
fn acks_come_back_in_order_on_flush() {
    let mut e: Endpoint<(), u32> = Endpoint::new();
    let n = |m: &str| Notification { method: m.to_string(), params: vec![] };
    let sent = e.submit_notification(n("one"), 10);
    assert_eq!(sent, Message::Notification(n("one")));
    e.submit_notification(n("two"), 20);
    assert_eq!(e.flushed(true), vec![10, 20]);
    assert_eq!(e.flushed(true), Vec::<u32>::new());
}

#[test]
fn acks_wait_until_everything_is_written() {
    let mut e: Endpoint<(), u32> = Endpoint::new();
    e.submit_notification(Notification { method: "n".to_string(), params: vec![] }, 1);
    assert_eq!(e.flushed(false), Vec::<u32>::new());
    e.submit_notification(Notification { method: "m".to_string(), params: vec![] }, 2);
    assert_eq!(e.flushed(true), vec![1, 2]);
}

#[test]
fn notification_issues_no_id() {
    let mut e: Endpoint<u8, ()> = Endpoint::new();
    e.submit_notification(Notification { method: "bye".to_string(), params: vec![] }, ());
    assert_eq!(stamped_id(&e.submit_request(request("a"), 0)), 1);
}

#[test]
fn shutdown_waits_for_pending_response() {
    let mut e: Endpoint<u8, ()> = Endpoint::new();
    assert_eq!(e.status(false), EndpointStatus::Running);
    e.submit_request(request("slow"), 4);
    e.close();
    assert_eq!(e.status(false), EndpointStatus::Draining);
    let text = Value::String(Utf8String::from_str("done"));
    assert_eq!(
        e.handle_msg(Message::Response(Response { id: 1, result: Ok(text) })),
        Some((4, Ok(Value::String(Utf8String::from_str("done")))))
    );
    assert_eq!(e.status(false), EndpointStatus::Complete);
}

#[test]
fn end_of_stream_completes_with_work_pending() {
    let mut e: Endpoint<u8, ()> = Endpoint::new();
    e.submit_request(request("a"), 1);
    assert_eq!(e.status(true), EndpointStatus::Complete);
    assert_eq!(e.status(false), EndpointStatus::Running);
}

#[test]
fn shutdown_with_nothing_pending_completes() {
    let mut e: Endpoint<u8, ()> = Endpoint::new();
    e.close();
    assert_eq!(e.status(false), EndpointStatus::Complete);
}
