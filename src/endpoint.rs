//! The decisions of the client side of a connection: which id a request gets,
//! which sink a response goes to, when notifications are acknowledged, and
//! when the endpoint is done.
use vstd::prelude::*;
use crate::message::{Message, MessageView, Notification, Request};
use crate::value::Value;

verus! {

broadcast use vstd::std_specs::hash::group_hash_axioms;

/// The id that follows `last`; ids wrap around at 2^32.
pub open spec fn next_id(last: u32) -> u32 {
    if last == u32::MAX {
        0
    } else {
        (last + 1) as u32
    }
}

/// Where an endpoint stands once its inbound frames are drained.
#[derive(Clone, Copy, Debug, PartialEq, Eq, Structural)]
pub enum EndpointStatus {
    /// Submissions are open: take new work and flush.
    Running,
    /// Submissions are closed but responses are still awaited.
    Draining,
    /// The peer closed the stream, or submissions are closed and nothing is
    /// awaited: the endpoint is done.
    Complete,
}

/// The state of one client connection. `S` is the sink that a request's
/// result is handed to, `A` the sink that a notification's acknowledgement
/// is handed to.
pub struct Endpoint<S, A> {
    request_id: u32,
    shutdown: bool,
    pending_requests: std::collections::HashMap<u32, S>,
    pending_notifications: Vec<A>,
}

impl<S, A> Endpoint<S, A> {
    /// The id of the last request issued, 0 before the first.
    pub closed spec fn last_id(&self) -> u32 {
        self.request_id
    }

    /// Whether the submission channels have closed.
    pub closed spec fn is_shut_down(&self) -> bool {
        self.shutdown
    }

    /// The requests awaiting a response, by id.
    pub closed spec fn pending(&self) -> Map<u32, S> {
        self.pending_requests@
    }

    /// The acknowledgements awaiting the next flush, oldest first.
    pub closed spec fn acks(&self) -> Seq<A> {
        self.pending_notifications@
    }

    /// `e1` is `e0` after a request was submitted with the result sink `sink`.
    pub open spec fn submitted(e0: Self, e1: Self, sink: S) -> bool {
        &&& e1.last_id() == next_id(e0.last_id())
        &&& e1.pending() == e0.pending().insert(e1.last_id(), sink)
        &&& e1.acks() == e0.acks()
        &&& e1.is_shut_down() == e0.is_shut_down()
    }

    /// An endpoint that has issued nothing and awaits nothing.
    pub open spec fn is_fresh(&self) -> bool {
        &&& self.last_id() == 0
        &&& !self.is_shut_down()
        &&& self.pending().is_empty()
        &&& self.acks().len() == 0
    }

    pub fn new() -> (r: Self)
        ensures
            r.is_fresh(),
    {
        Endpoint {
            request_id: 0,
            shutdown: false,
            pending_requests: std::collections::HashMap::new(),
            pending_notifications: Vec::new(),
        }
    }

    /// Issues the next id to `request` and records `sink` under it; returns the
    /// message to send.
    pub fn submit_request(&mut self, request: Request, sink: S) -> (r: Message)
        ensures
            Self::submitted(*old(self), *final(self), sink),
            r@ == (MessageView::Request {
                id: final(self).last_id(),
                method: request.method@,
                params: request.params@,
            }),
    {
        self.request_id = if self.request_id == u32::MAX {
            0
        } else {
            self.request_id + 1
        };
        let id = self.request_id;
        self.pending_requests.insert(id, sink);
        Message::Request(Request { id, method: request.method, params: request.params })
    }

    /// Queues `ack` until the next flush; returns the message to send.
    pub fn submit_notification(&mut self, notification: Notification, ack: A) -> (r: Message)
        ensures
            final(self).acks() == old(self).acks().push(ack),
            final(self).pending() == old(self).pending(),
            final(self).last_id() == old(self).last_id(),
            final(self).is_shut_down() == old(self).is_shut_down(),
            r@ == (MessageView::Notification {
                method: notification.method@,
                params: notification.params@,
            }),
    {
        self.pending_notifications.push(ack);
        Message::Notification(notification)
    }

    /// Takes an inbound message. A response whose id is awaited retires that
    /// entry and comes back with its sink; anything else is dropped.
    pub fn handle_msg(&mut self, msg: Message) -> (r: Option<(S, Result<Value, Value>)>)
        ensures
            final(self).last_id() == old(self).last_id(),
            final(self).is_shut_down() == old(self).is_shut_down(),
            final(self).acks() == old(self).acks(),
            match msg {
                Message::Response(resp) => if old(self).pending().contains_key(resp.id) {
                    &&& r == Some((old(self).pending()[resp.id], resp.result))
                    &&& final(self).pending() == old(self).pending().remove(resp.id)
                } else {
                    r is None && final(self).pending() == old(self).pending()
                },
                _ => r is None && final(self).pending() == old(self).pending(),
            },
    {
        match msg {
            Message::Response(response) => {
                match self.pending_requests.remove(&response.id) {
                    Some(sink) => Some((sink, response.result)),
                    None => None,
                }
            },
            _ => None,
        }
    }

    /// Records that the submission channels have closed.
    pub fn close(&mut self)
        ensures
            final(self).is_shut_down(),
            final(self).last_id() == old(self).last_id(),
            final(self).pending() == old(self).pending(),
            final(self).acks() == old(self).acks(),
    {
        self.shutdown = true;
    }

    /// What the endpoint does once its inbound frames are drained;
    /// `stream_ended` tells whether the peer closed the stream, which ends the
    /// endpoint whatever is pending.
    pub fn status(&self, stream_ended: bool) -> (r: EndpointStatus)
        ensures
            r == (if stream_ended {
                EndpointStatus::Complete
            } else if !self.is_shut_down() {
                EndpointStatus::Running
            } else if self.pending().is_empty() {
                EndpointStatus::Complete
            } else {
                EndpointStatus::Draining
            }),
    {
        if stream_ended {
            EndpointStatus::Complete
        } else if !self.shutdown {
            EndpointStatus::Running
        } else if self.pending_requests.is_empty() {
            EndpointStatus::Complete
        } else {
            EndpointStatus::Draining
        }
    }

    /// The sink was flushed; `all_written` tells whether it has written every
    /// buffered frame. Only then are the queued acknowledgements handed back,
    /// oldest first; otherwise they stay queued.
    pub fn flushed(&mut self, all_written: bool) -> (r: Vec<A>)
        ensures
            all_written ==> r@ == old(self).acks() && final(self).acks().len() == 0,
            !all_written ==> r@.len() == 0 && final(self).acks() == old(self).acks(),
            final(self).last_id() == old(self).last_id(),
            final(self).pending() == old(self).pending(),
            final(self).is_shut_down() == old(self).is_shut_down(),
    {
        let mut acks: Vec<A> = Vec::new();
        if all_written {
            std::mem::swap(&mut acks, &mut self.pending_notifications);
        }
        acks
    }
}

/// A run of submissions to a fresh endpoint: `states[k + 1]` is `states[k]`
/// after the request with the sink `sinks[k]` was submitted.
pub open spec fn submission_run<S, A>(states: Seq<Endpoint<S, A>>, sinks: Seq<S>) -> bool {
    &&& states.len() == sinks.len() + 1
    &&& states[0].is_fresh()
    &&& forall|k: int|
        0 <= k < sinks.len() ==> #[trigger] Endpoint::submitted(states[k], states[k + 1], sinks[k])
}

proof fn lemma_state_at<S, A>(states: Seq<Endpoint<S, A>>, sinks: Seq<S>, k: int)
    requires
        submission_run(states, sinks),
        sinks.len() <= u32::MAX,
        0 <= k <= sinks.len(),
    ensures
        states[k].last_id() == k,
        forall|id: u32|
            1 <= id <= k ==> #[trigger] states[k].pending().contains_key(id) && states[k].pending()[id]
                == sinks[id - 1],
        forall|id: u32| #[trigger] states[k].pending().contains_key(id) ==> 1 <= id <= k,
    decreases k,
{
    if k > 0 {
        lemma_state_at(states, sinks, k - 1);
        assert(Endpoint::submitted(states[k - 1], states[k], sinks[k - 1]));
    }
}

/// The ids that an endpoint issues, from its first request on and before they
/// wrap around, are 1, 2, 3, ...: a strictly increasing sequence.
pub proof fn lemma_ids_increase<S, A>(states: Seq<Endpoint<S, A>>, sinks: Seq<S>)
    requires
        submission_run(states, sinks),
        sinks.len() <= u32::MAX,
    ensures
        forall|k: int| 0 <= k < sinks.len() ==> #[trigger] states[k + 1].last_id() == k + 1,
        forall|i: int, j: int|
            0 <= i < j < sinks.len() ==> #[trigger] states[i + 1].last_id() < #[trigger] states[j
                + 1].last_id(),
{
    assert forall|k: int| 0 <= k < sinks.len() implies #[trigger] states[k + 1].last_id() == k
        + 1 by {
        lemma_state_at(states, sinks, k + 1);
    }
}

/// Requests submitted one after another to a fresh endpoint, fewer than 2^32
/// of them, are awaited under the ids 1, 2, 3, ... in order of submission, each
/// id with the sink of its own request; no other id is awaited. So a response
/// reaches the sink of the request that carried its id, and no other.
pub proof fn lemma_responses_routed<S, A>(states: Seq<Endpoint<S, A>>, sinks: Seq<S>)
    requires
        submission_run(states, sinks),
        sinks.len() <= u32::MAX,
    ensures
        forall|id: u32|
            1 <= id <= sinks.len() ==> #[trigger] states.last().pending().contains_key(id)
                && states.last().pending()[id] == sinks[id - 1],
        forall|id: u32| #[trigger]
            states.last().pending().contains_key(id) ==> 1 <= id <= sinks.len(),
{
    let n = sinks.len() as int;
    lemma_state_at(states, sinks, n);
    assert(states.last() == states[n]);
    assert forall|id: u32| 1 <= id <= sinks.len() implies #[trigger] states.last().pending().contains_key(
        id,
    ) && states.last().pending()[id] == sinks[id - 1] by {
        assert(states[n].pending().contains_key(id));
    }
}

} // verus!
