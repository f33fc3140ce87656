use vstd::prelude::*;
use crate::handle::ConnectionHandle;
use crate::event::{EventView, NetworkEvent};

verus! {

/// `crossbeam_channel::Receiver`, the receiving end of a channel, carried
/// as an opaque value.
#[verifier::external_type_specification]
#[verifier::external_body]
#[verifier::reject_recursive_types(T)]
pub struct ExReceiver<T>(crossbeam_channel::Receiver<T>);

/// `crossbeam_channel::Sender`, the sending end of a channel, carried as an
/// opaque value.
#[verifier::external_type_specification]
#[verifier::external_body]
#[verifier::reject_recursive_types(T)]
pub struct ExSender<T>(crossbeam_channel::Sender<T>);

/// `tokio::task::JoinHandle`, the handle of a spawned task, carried as an
/// opaque value.
#[verifier::external_type_specification]
#[verifier::external_body]
#[verifier::reject_recursive_types(T)]
pub struct ExJoinHandle<T>(tokio::task::JoinHandle<T>);

/// `tokio::task::JoinError`, what awaiting a task handle may give; it is
/// named by the handle's own type and never looked at.
#[verifier::external_type_specification]
#[verifier::external_body]
pub struct ExJoinError(tokio::task::JoinError);

/// What a look at an inbound channel found.
#[derive(Clone, Debug, PartialEq, Eq)]
pub enum Polled {
    /// The next event.
    Event(NetworkEvent),
    /// Nothing has arrived.
    Empty,
    /// Nothing has arrived, and every sender is gone.
    Closed,
}

/// A look at an inbound channel as a mathematical value.
pub enum PolledView {
    Event(EventView),
    Empty,
    Closed,
}

impl View for Polled {
    type V = PolledView;

    open spec fn view(&self) -> PolledView {
        match *self {
            Polled::Event(event) => PolledView::Event(event@),
            Polled::Empty => PolledView::Empty,
            Polled::Closed => PolledView::Closed,
        }
    }
}

impl Polled {
    /// The event that was found, if one was.
    pub open spec fn event(self) -> Option<NetworkEvent> {
        match self {
            Polled::Event(event) => Some(event),
            Polled::Empty => None,
            Polled::Closed => None,
        }
    }

    /// The event that was found, if one was: an empty channel and a closed
    /// one both give none.
    pub fn into_event(self) -> (event: Option<NetworkEvent>)
        ensures
            event == self.event(),
    {
        match self {
            Polled::Event(event) => Some(event),
            Polled::Empty => None,
            Polled::Closed => None,
        }
    }

    /// Whether the channel was found closed.
    pub fn is_closed(&self) -> (closed: bool)
        ensures
            closed == (self@ is Closed),
    {
        match self {
            Polled::Closed => true,
            _ => false,
        }
    }
}

/// The live state of one connection: its handle, the receiving end of its
/// inbound channel, the sending end of its outbound channel, and the task
/// that serves its socket.
pub struct Session {
    pub(crate) handle: ConnectionHandle,
    pub(crate) inbound: crossbeam_channel::Receiver<NetworkEvent>,
    pub(crate) outbound: crossbeam_channel::Sender<Vec<u8>>,
    pub(crate) task: tokio::task::JoinHandle<()>,
}

impl Session {
    /// The handle of the session.
    pub closed spec fn handle_spec(&self) -> ConnectionHandle {
        self.handle
    }

    /// Bundles the parts of a session.
    pub fn new(
        handle: ConnectionHandle,
        inbound: crossbeam_channel::Receiver<NetworkEvent>,
        outbound: crossbeam_channel::Sender<Vec<u8>>,
        task: tokio::task::JoinHandle<()>,
    ) -> (session: Session)
        ensures
            session.handle() == handle,
    {
        Session { handle, inbound, outbound, task }
    }

    #[verifier::when_used_as_spec(handle_spec)]
    pub fn handle(&self) -> (h: ConnectionHandle)
        ensures
            h == self.handle_spec(),
    {
        self.handle
    }

    /// Waits on the inbound channel with `crossbeam_channel::Receiver::recv`:
    /// the next event, or `None` once the channel is empty and every sender
    /// is gone. Which event arrives is up to the sending task, so nothing is
    /// claimed of it.
    #[verifier::external_body]
    pub(crate) fn next_event(&self) -> (event: Option<NetworkEvent>) {
        self.inbound.recv().ok()
    }

    /// Looks at the inbound channel with
    /// `crossbeam_channel::Receiver::try_recv`, without waiting, and tells the
    /// three answers apart: an event, an empty channel, a channel that is
    /// empty and disconnected. Nothing is claimed of the event.
    #[verifier::external_body]
    pub(crate) fn poll_event(&self) -> (polled: Polled) {
        match self.inbound.try_recv() {
            Ok(event) => Polled::Event(event),
            Err(crossbeam_channel::TryRecvError::Empty) => Polled::Empty,
            Err(crossbeam_channel::TryRecvError::Disconnected) => Polled::Closed,
        }
    }

    /// Puts a frame on the outbound channel with
    /// `crossbeam_channel::Sender::send`, and says whether the channel took
    /// it; it does not once every receiver is gone.
    #[verifier::external_body]
    pub(crate) fn enqueue(&self, frame: Vec<u8>) -> (taken: bool) {
        self.outbound.send(frame).is_ok()
    }
}

/// Cancels a task with `tokio::task::JoinHandle::abort`.
#[verifier::external_body]
pub(crate) fn abort_task(task: &tokio::task::JoinHandle<()>) {
    task.abort()
}

/// Blocks in `crossbeam_channel::Select::ready` over the inbound channels of
/// `sessions`, added in order, until one of them can be received from, and
/// gives its index. `Select` numbers the operations from zero in the order in
/// which they were added, so the index is a position in `sessions`; which of
/// several ready channels is chosen is random. `ready` panics on an empty
/// selection, hence the precondition.
#[verifier::external_body]
pub(crate) fn wait_ready(sessions: &Vec<Session>) -> (index: usize)
    requires
        sessions.len() > 0,
    ensures
        index < sessions.len(),
{
    let mut select = crossbeam_channel::Select::new();
    for session in sessions.iter() {
        select.recv(&session.inbound);
    }
    select.ready()
}

/// Looks with `crossbeam_channel::Select::try_ready` for an inbound channel
/// of `sessions`, added in order, that can be received from, without
/// waiting. The index is a position in `sessions`, as in [`wait_ready`];
/// `None` says that no channel was ready. `try_ready` may name a channel
/// that turns out to be empty.
#[verifier::external_body]
pub(crate) fn find_ready(sessions: &Vec<Session>) -> (found: Option<usize>)
    ensures
        found matches Some(index) ==> index < sessions.len(),
{
    let mut select = crossbeam_channel::Select::new();
    for session in sessions.iter() {
        select.recv(&session.inbound);
    }
    select.try_ready().ok()
}

} // verus!
