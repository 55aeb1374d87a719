//! The producers' side: handles that enqueue messages for the worker, and
//! the worker's end of the queue.

use crate::agent::{receive_action, receive_step, Agent, AgentState, Polled};
use crate::message::{Error, Message, PollMode};
use crossbeam_channel::{Receiver, Sender};
use std::sync::atomic::{AtomicBool, Ordering};
use std::sync::Arc;
use vstd::prelude::*;

verus! {

#[verifier::external_type_specification]
#[verifier::external_body]
#[verifier::reject_recursive_types(T)]
pub struct ExSender<T>(Sender<T>);

#[verifier::external_type_specification]
#[verifier::external_body]
#[verifier::reject_recursive_types(T)]
pub struct ExReceiver<T>(Receiver<T>);

/// `crossbeam_channel::unbounded`: the two ends of a new queue without a
/// bound. Nothing is claimed of them.
#[verifier::external_body]
fn channel() -> (ends: (Sender<Message>, Receiver<Message>)) {
    crossbeam_channel::unbounded()
}

/// `Sender::send`: enqueues `message` without blocking, the queue having no
/// bound, and says whether a receiver was there to take it. That depends on
/// the other threads, so nothing is claimed of the answer, only that the
/// call returns.
#[verifier::external_body]
fn channel_send(tx: &Sender<Message>, message: Message) -> (delivered: bool)
    opens_invariants none
    no_unwind
{
    tx.send(message).is_ok()
}

/// `Receiver::recv`: sleeps until a message is there and returns it, or
/// returns nothing once the queue is empty and every sender is gone. Which
/// one depends on the other threads, so nothing is claimed of the answer.
#[verifier::external_body]
fn channel_recv(rx: &Receiver<Message>) -> (received: Option<Message>) {
    rx.recv().ok()
}

/// `Receiver::try_recv`: returns a message if one is queued, and nothing
/// otherwise, without waiting. Which one depends on the other threads, so
/// nothing is claimed of the answer.
#[verifier::external_body]
fn channel_try_recv(rx: &Receiver<Message>) -> (received: Option<Message>) {
    rx.try_recv().ok()
}

/// `AtomicBool::load`, sequentially consistent: the flag as it stands now.
/// Another thread may set it at any time, so nothing is claimed of the
/// answer, only that the call returns.
#[verifier::external_body]
fn flag_load(flag: &AtomicBool) -> (set: bool)
    opens_invariants none
    no_unwind
{
    flag.load(Ordering::SeqCst)
}

/// `AtomicBool::store`, sequentially consistent: writes `value` to the flag.
/// The call has no result, and nothing is claimed of it but that it
/// returns.
#[verifier::external_body]
fn flag_store(flag: &AtomicBool, value: bool)
    opens_invariants none
    no_unwind
{
    flag.store(value, Ordering::SeqCst)
}

/// What a handle answers to a caller who wants `message` sent, given whether
/// the worker has terminated: the refusal `Internal` if it has, and else the
/// message to enqueue.
pub open spec fn screened(terminated: bool, message: Message) -> Result<Message, Error> {
    if terminated {
        Err(Error::Internal)
    } else {
        Ok(message)
    }
}

/// Decides whether `message` may be enqueued: never once the worker has
/// terminated, always before.
pub fn screen(terminated: bool, message: Message) -> (decision: Result<Message, Error>)
    ensures
        decision == screened(terminated, message),
        terminated ==> decision == Err::<Message, Error>(Error::Internal),
        !terminated ==> decision == Ok::<Message, Error>(message),
    opens_invariants none
    no_unwind
{
    if terminated {
        Err(Error::Internal)
    } else {
        Ok(message)
    }
}

/// What every handle of one worker shares.
struct HandleInner {
    /// The sending end of the worker's queue.
    message_tx: Sender<Message>,
    /// Set once the worker has terminated.
    thread_terminated: Arc<AtomicBool>,
}

impl HandleInner {
    /// Enqueues `message` unless the worker has terminated.
    fn send_message(&self, message: Message) -> (sent: Result<(), Error>)
        ensures
            sent.is_err() ==> sent == Err::<(), Error>(Error::Internal),
        opens_invariants none
        no_unwind
    {
        let terminated = flag_load(&self.thread_terminated);
        match screen(terminated, message) {
            Ok(message) => {
                let _ = channel_send(&self.message_tx, message);
                Ok(())
            },
            Err(error) => Err(error),
        }
    }
}

impl Drop for HandleInner {
    /// The last handle is gone: asks the worker to stop.
    fn drop(&mut self)
        opens_invariants none
        no_unwind
    {
        let _ = self.send_message(Message::Close);
    }
}

/// A handle to a worker. Handles can be cloned, shared and sent between
/// threads; all of them feed the same queue.
#[derive(Clone)]
pub struct Handle {
    inner: Arc<HandleInner>,
}

impl Handle {
    /// Asks the worker to start the transfer with identifier `request`.
    /// Fails with `Internal`, and enqueues nothing, if the worker was seen
    /// to have terminated.
    pub fn begin_execute(&self, request: u64) -> (sent: Result<(), Error>)
        ensures
            sent.is_err() ==> sent == Err::<(), Error>(Error::Internal),
    {
        self.inner.send_message(Message::BeginRequest(request))
    }

    /// Asks the worker to cancel the transfer that holds `token`. Fails with
    /// `Internal`, and enqueues nothing, if the worker was seen to have
    /// terminated.
    pub fn cancel_request(&self, token: usize) -> (sent: Result<(), Error>)
        ensures
            sent.is_err() ==> sent == Err::<(), Error>(Error::Internal),
    {
        self.inner.send_message(Message::Cancel(token))
    }

    /// Asks the worker to resume the paused write stream of the transfer
    /// that holds `token`. Fails with `Internal`, and enqueues nothing, if
    /// the worker was seen to have terminated.
    pub fn unpause_write(&self, token: usize) -> (sent: Result<(), Error>)
        ensures
            sent.is_err() ==> sent == Err::<(), Error>(Error::Internal),
    {
        self.inner.send_message(Message::UnpauseWrite(token))
    }

    /// Asks the worker to stop once no transfer is active. Fails with
    /// `Internal`, and enqueues nothing, if the worker was seen to have
    /// terminated.
    pub fn close(&self) -> (sent: Result<(), Error>)
        ensures
            sent.is_err() ==> sent == Err::<(), Error>(Error::Internal),
    {
        self.inner.send_message(Message::Close)
    }

    /// Whether the worker was seen to have terminated.
    pub fn is_terminated(&self) -> bool {
        flag_load(&self.inner.thread_terminated)
    }
}

/// The worker's end of the queue, and the flag by which the worker tells the
/// handles that it has terminated. The flag is set when this value is
/// dropped, which is when the worker's loop has ended.
pub struct Inbox {
    message_rx: Receiver<Message>,
    thread_terminated: Arc<AtomicBool>,
}

impl Drop for Inbox {
    /// The worker is gone: tells every handle that it has terminated. From
    /// then on each handle refuses to enqueue.
    fn drop(&mut self)
        opens_invariants none
        no_unwind
    {
        flag_store(&self.thread_terminated, true);
    }
}

/// The worker's side: the state that its decisions are taken on, and its end
/// of the queue.
pub struct Worker {
    pub agent: Agent,
    pub inbox: Inbox,
}

impl View for Worker {
    type V = AgentState;

    open spec fn view(&self) -> AgentState {
        self.agent@
    }
}

impl Worker {
    /// Waits once for a message, asleep if no transfer is active and without
    /// waiting if one is, and applies what came. Whatever came, the state
    /// moves by one step of `receive_step`, and a close is never withdrawn.
    pub fn poll_once(&mut self) -> (polled: Polled)
        ensures
            exists|received: Option<Message>|
                {
                    &&& #[trigger] receive_step(old(self)@, received, final(self)@)
                    &&& polled.action == receive_action(old(self)@, received)
                    &&& polled.more == received.is_some()
                },
            old(self)@.close_requested ==> final(self)@.close_requested,
            final(self)@.wf(),
    {
        let received = match self.agent.poll_mode() {
            PollMode::Blocking => channel_recv(&self.inbox.message_rx),
            PollMode::NonBlocking => channel_try_recv(&self.inbox.message_rx),
        };
        let ghost pre = self@;
        let polled = self.agent.receive(received);
        assert(receive_step(pre, received, self@));
        polled
    }
}

/// Creates a worker's two sides: a handle for the producers, and the
/// worker's end with no active transfer and no close seen.
pub fn create() -> (sides: (Handle, Worker))
    ensures
        crate::table::no_entry(sides.1@.table),
        sides.1@.free == Seq::<usize>::empty(),
        sides.1@.slots == 0,
        sides.1@.next_token() == 0,
        sides.1@.wf(),
        !sides.1@.close_requested,
{
    let (message_tx, message_rx) = channel();
    let thread_terminated = Arc::new(AtomicBool::new(false));
    let inner = HandleInner { message_tx, thread_terminated: thread_terminated.clone() };
    let handle = Handle { inner: Arc::new(inner) };
    let worker = Worker { agent: Agent::new(), inbox: Inbox { message_rx, thread_terminated } };
    (handle, worker)
}

} // verus!
