//! The decisions of the server side of a connection: which inbound messages
//! reach the handler, which of its tasks are still running, and which
//! responses go out.
use vstd::prelude::*;
use crate::error::Error;
use crate::message::{Message, MessageView, Response};
use crate::value::Value;

verus! {

broadcast use vstd::std_specs::hash::group_hash_axioms;

/// How far a handler's task has got.
pub enum TaskPoll<T> {
    /// Still running.
    NotReady,
    /// Done, with its outcome.
    Ready(T),
    /// Ended with the handler's error: this ends the connection for a
    /// request, and only drops the task for a notification.
    Failed,
}

/// A handler's task for a request: it ends with the result or the error that
/// the response carries.
pub trait RequestTask {
    fn poll_request(&mut self) -> TaskPoll<Result<Value, Value>>;
}

/// A handler's task for a notification.
pub trait NotificationTask {
    fn poll_notification(&mut self) -> TaskPoll<()>;
}

/// What the server does with an inbound message.
pub enum Inbound {
    /// Hand the request to the handler and answer it under `id`.
    Request { id: u32, method: String, params: Vec<Value> },
    /// Hand the notification to the handler; nothing is answered.
    Notification { method: String, params: Vec<Value> },
    /// Drop it: the server does not act as a client.
    Ignored,
}

/// The handler's running tasks on one connection.
pub struct Dispatcher<R, N> {
    request_tasks: std::collections::HashMap<u32, R>,
    request_order: Vec<u32>,
    notification_tasks: Vec<N>,
}

/// Routes an inbound message: requests and notifications go to the handler
/// with their fields; responses are dropped.
pub fn route(msg: Message) -> (r: Inbound)
    ensures
        match msg@ {
            MessageView::Request { id, method, params } => r matches Inbound::Request {
                id: i,
                method: m,
                params: p,
            } && i == id && m@ == method && p@ == params,
            MessageView::Notification { method, params } => r matches Inbound::Notification {
                method: m,
                params: p,
            } && m@ == method && p@ == params,
            MessageView::Response { .. } => r is Ignored,
        },
{
    match msg {
        Message::Request(q) => Inbound::Request { id: q.id, method: q.method, params: q.params },
        Message::Notification(n) => Inbound::Notification { method: n.method, params: n.params },
        Message::Response(_) => Inbound::Ignored,
    }
}

/// The id that a response message answers.
pub open spec fn response_id(m: Message) -> u32 {
    match m {
        Message::Response(r) => r.id,
        _ => 0,
    }
}

/// What one poll of the task for the request `id` leads to: the response to
/// send once the task is done, carrying its result or its error; nothing while
/// it runs; the end of the connection when it failed.
pub fn settle(id: u32, polled: TaskPoll<Result<Value, Value>>) -> (r: Result<Option<Message>, Error>)
    ensures
        match polled {
            TaskPoll::Ready(res) => r matches Ok(Some(m)) && m@ == (MessageView::Response {
                id,
                result: res,
            }),
            TaskPoll::NotReady => r matches Ok(None),
            TaskPoll::Failed => r == Err::<Option<Message>, Error>(Error::HandlerFailed),
        },
{
    match polled {
        TaskPoll::Ready(result) => Ok(Some(Message::Response(Response { id, result }))),
        TaskPoll::NotReady => Ok(None),
        TaskPoll::Failed => Err(Error::HandlerFailed),
    }
}

/// Whether a notification task stays after one poll: only while it runs. A
/// task that is done, or that ended with the handler's error, is dropped.
pub fn keeps(polled: &TaskPoll<()>) -> (r: bool)
    ensures
        r == (polled is NotReady),
{
    match polled {
        TaskPoll::NotReady => true,
        _ => false,
    }
}

impl<R: RequestTask, N: NotificationTask> Dispatcher<R, N> {
    /// The ids of the requests whose tasks are running.
    pub closed spec fn request_ids(&self) -> Set<u32> {
        self.request_tasks@.dom()
    }

    /// The running request tasks, by id.
    pub closed spec fn request_tasks(&self) -> Map<u32, R> {
        self.request_tasks@
    }

    /// The running notification tasks, oldest first.
    pub closed spec fn notification_tasks(&self) -> Seq<N> {
        self.notification_tasks@
    }

    /// `d1` is `d0` with the task of a notification added.
    pub open spec fn notification_added(d0: Self, d1: Self, task: N) -> bool {
        &&& d1.notification_tasks() == d0.notification_tasks().push(task)
        &&& d1.request_tasks() == d0.request_tasks()
    }

    /// `out` holds the responses that took `d0` to `d1`: one for each request
    /// that `d0` ran and `d1` no longer runs, under that request's id, and no
    /// other.
    pub open spec fn answered(d0: Self, d1: Self, out: Seq<Message>) -> bool {
        &&& forall|k: int|
            0 <= k < out.len() ==> {
                &&& #[trigger] out[k] is Response
                &&& d0.request_ids().contains(response_id(out[k]))
                &&& !d1.request_ids().contains(response_id(out[k]))
            }
        &&& forall|k1: int, k2: int|
            0 <= k1 < k2 < out.len() ==> response_id(#[trigger] out[k1]) != response_id(
                #[trigger] out[k2],
            )
        &&& forall|id: u32| #[trigger]
            d0.request_ids().contains(id) ==> d1.request_ids().contains(id) || exists|k: int|
                0 <= k < out.len() && response_id(out[k]) == id
    }

    pub closed spec fn wf(&self) -> bool {
        &&& self.request_order@.no_duplicates()
        &&& forall|i: int|
            0 <= i < self.request_order@.len() ==> #[trigger] self.request_tasks@.contains_key(
                self.request_order@[i],
            )
        &&& forall|id: u32| #[trigger]
            self.request_tasks@.contains_key(id) ==> self.request_order@.contains(id)
    }

    pub fn new() -> (r: Self)
        ensures
            r.wf(),
            r.request_tasks().is_empty(),
            r.notification_tasks().len() == 0,
    {
        Dispatcher {
            request_tasks: std::collections::HashMap::new(),
            request_order: Vec::new(),
            notification_tasks: Vec::new(),
        }
    }

    /// Records the handler's task for the request `id`; a task already running
    /// under that id is replaced.
    pub fn add_request(&mut self, id: u32, task: R)
        requires
            old(self).wf(),
        ensures
            final(self).wf(),
            final(self).request_tasks() == old(self).request_tasks().insert(id, task),
            final(self).notification_tasks() == old(self).notification_tasks(),
    {
        if !self.request_tasks.contains_key(&id) {
            self.request_order.push(id);
            proof {
                assert(self.request_order@.last() == id);
            }
        }
        self.request_tasks.insert(id, task);
        proof {
            assert forall|id2: u32| #[trigger] self.request_tasks@.contains_key(id2) implies self.request_order@.contains(id2) by {
                if id2 == id {
                    assert(old(self).request_tasks@.contains_key(id) || self.request_order@[self.request_order@.len() - 1] == id);
                } else {
                    let k = choose|k: int| 0 <= k < old(self).request_order@.len() && old(self).request_order@[k] == id2;
                    assert(self.request_order@[k] == id2);
                }
            }
        }
    }

    /// Records the handler's task for a notification.
    pub fn add_notification(&mut self, task: N)
        requires
            old(self).wf(),
        ensures
            final(self).wf(),
            Self::notification_added(*old(self), *final(self), task),
    {
        self.notification_tasks.push(task);
    }

    /// Polls every request task once and settles each outcome: a task that is
    /// done is dropped and the response to its request, under the request's
    /// id, is returned; a task that failed ends the call with `HandlerFailed`.
    pub fn poll_requests(&mut self) -> (r: Result<Vec<Message>, Error>)
        requires
            old(self).wf(),
        ensures
            final(self).wf(),
            old(self).request_tasks().is_empty() ==> (r matches Ok(out) && out@.len() == 0),
            final(self).notification_tasks() == old(self).notification_tasks(),
            final(self).request_ids().subset_of(old(self).request_ids()),
            match r {
                Ok(out) => Self::answered(*old(self), *final(self), out@),
                Err(e) => e == Error::HandlerFailed,
            },
    {
        let mut out: Vec<Message> = Vec::new();
        let mut i: usize = 0;
        proof {
            if self.request_order@.len() > 0 {
                assert(self.request_tasks@.contains_key(self.request_order@[0]));
            }
        }
        while i < self.request_order.len()
            invariant
                self.wf(),
                old(self).request_tasks@.is_empty() ==> self.request_order@.len() == 0 && out@.len()
                    == 0,
                i <= self.request_order@.len(),
                self.notification_tasks@ == old(self).notification_tasks@,
                self.request_ids().subset_of(old(self).request_ids()),
                forall|k: int|
                    0 <= k < out@.len() ==> {
                        &&& #[trigger] out@[k] is Response
                        &&& old(self).request_ids().contains(response_id(out@[k]))
                        &&& !self.request_ids().contains(response_id(out@[k]))
                    },
                forall|k1: int, k2: int|
                    0 <= k1 < k2 < out@.len() ==> response_id(#[trigger] out@[k1]) != response_id(
                        #[trigger] out@[k2],
                    ),
                forall|id: u32| #[trigger]
                    old(self).request_ids().contains(id) ==> self.request_ids().contains(id)
                        || exists|k: int| 0 <= k < out@.len() && response_id(out@[k]) == id,
            decreases self.request_order@.len() - i,
        {
            let id = self.request_order[i];
            let ghost pre_map = self.request_tasks@;
            let ghost pre_out = out@;
            match self.request_tasks.remove(&id) {
                Some(mut task) => match settle(id, task.poll_request()) {
                    Ok(None) => {
                        self.request_tasks.insert(id, task);
                        i = i + 1;
                    },
                    Ok(Some(response)) => {
                        let ghost order = self.request_order@;
                        self.request_order.remove(i);
                        out.push(response);
                        proof {
                            let o2 = self.request_order@;
                            assert forall|a: int, b: int| 0 <= a < b < o2.len() implies o2[a]
                                != o2[b] by {
                                let a0 = if a < i {
                                    a
                                } else {
                                    a + 1
                                };
                                let b0 = if b < i {
                                    b
                                } else {
                                    b + 1
                                };
                                assert(o2[a] == order[a0]);
                                assert(o2[b] == order[b0]);
                            }
                            assert forall|k: int| 0 <= k < o2.len() implies #[trigger] self.request_tasks@.contains_key(
                                o2[k],
                            ) by {
                                let k0 = if k < i {
                                    k
                                } else {
                                    k + 1
                                };
                                assert(o2[k] == order[k0]);
                                assert(pre_map.contains_key(order[k0]));
                            }
                            assert forall|id2: u32| #[trigger]
                                self.request_tasks@.contains_key(id2) implies o2.contains(id2) by {
                                let k = choose|k: int| 0 <= k < order.len() && order[k] == id2;
                                let k2 = if k < i {
                                    k
                                } else {
                                    k - 1
                                };
                                assert(o2[k2] == id2);
                            }
                            assert(response_id(out@[out@.len() - 1]) == id);
                            assert forall|id2: u32| #[trigger]
                                old(self).request_ids().contains(id2) implies self.request_ids().contains(id2)
                                    || exists|k: int| 0 <= k < out@.len() && response_id(out@[k]) == id2 by {
                                if id2 != id && !self.request_ids().contains(id2) {
                                    let k = choose|k: int| 0 <= k < pre_out.len() && response_id(pre_out[k]) == id2;
                                    assert(out@[k] == pre_out[k]);
                                }
                            }
                        }
                    },
                    Err(e) => {
                        self.request_tasks.insert(id, task);
                        return Err(e);
                    },
                },
                // Every id in the order runs a task, so this arm is not taken.
                None => {
                    i = i + 1;
                },
            }
        }
        Ok(out)
    }

    /// Polls every notification task once and keeps, in their order, only
    /// those that still run.
    pub fn poll_notifications(&mut self)
        requires
            old(self).wf(),
        ensures
            final(self).wf(),
            final(self).request_tasks() == old(self).request_tasks(),
            final(self).notification_tasks().len() <= old(self).notification_tasks().len(),
            old(self).notification_tasks().len() == 0 ==> final(self).notification_tasks().len() == 0,
    {
        let mut i: usize = 0;
        while i < self.notification_tasks.len()
            invariant
                self.wf(),
                i <= self.notification_tasks@.len(),
                self.request_tasks() == old(self).request_tasks(),
                self.notification_tasks@.len() <= old(self).notification_tasks@.len(),
            decreases self.notification_tasks@.len() - i,
        {
            let mut task = self.notification_tasks.remove(i);
            let polled = task.poll_notification();
            if keeps(&polled) {
                self.notification_tasks.insert(i, task);
                i = i + 1;
            }
        }
    }
}

/// A notification never leads to a response: adding its task leaves the
/// running requests as they were, so every response that the next poll sends
/// answers a request that was already running.
pub proof fn lemma_notification_no_response<R: RequestTask, N: NotificationTask>(
    d0: Dispatcher<R, N>,
    d1: Dispatcher<R, N>,
    d2: Dispatcher<R, N>,
    task: N,
    out: Seq<Message>,
)
    requires
        Dispatcher::notification_added(d0, d1, task),
        Dispatcher::answered(d1, d2, out),
    ensures
        forall|k: int|
            0 <= k < out.len() ==> #[trigger] out[k] is Response && d0.request_ids().contains(
                response_id(out[k]),
            ),
{
    assert(d1.request_ids() == d0.request_ids());
}


} // verus!
