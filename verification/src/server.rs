use vstd::prelude::*;
use vstd::seq_lib::seq_to_set_is_finite;
use crate::handle::ConnectionHandle;
use crate::event::{EventView, NetworkError, NetworkEvent, ServerConfigError};
use crate::session::{abort_task, find_ready, wait_ready, Polled, PolledView, Session};
use crate::envelope::{Enveloppe, MessageType};
use crate::dispatch::EventSource;

verus! {

/// The server as a mathematical value: whether an accept loop is active, and
/// the handles of the live sessions.
pub struct ServerView {
    pub running: bool,
    pub live: Set<ConnectionHandle>,
}

/// Whether what a session's inbound channel gave ends the session: the
/// channel is closed (`None`), or the event is an `Error`.
pub open spec fn ends_session(outcome: Option<EventView>) -> bool {
    match outcome {
        None => true,
        Some(event) => event.is_fatal(),
    }
}

impl ServerView {
    /// A server that has not been started and has no session.
    pub open spec fn idle() -> ServerView {
        ServerView { running: false, live: Set::empty() }
    }

    /// The server once an accept loop was started on it.
    pub open spec fn listening(self) -> ServerView {
        ServerView { running: true, live: self.live }
    }

    /// The server with the session of `handle` registered.
    pub open spec fn registered(self, handle: ConnectionHandle) -> ServerView {
        ServerView { running: self.running, live: self.live.insert(handle) }
    }

    /// The server after the inbound channel of `from` gave `outcome`.
    pub open spec fn settled(self, from: ConnectionHandle, outcome: Option<EventView>) -> ServerView {
        if ends_session(outcome) {
            ServerView { running: self.running, live: self.live.remove(from) }
        } else {
            self
        }
    }

    /// The server after a look at the inbound channel of `from` found
    /// `found`: an empty channel changes nothing, an event or a closed
    /// channel is settled.
    pub open spec fn polled(self, from: ConnectionHandle, found: PolledView) -> ServerView {
        match found {
            PolledView::Event(event) => self.settled(from, Some(event)),
            PolledView::Empty => self,
            PolledView::Closed => self.settled(from, None),
        }
    }

    /// The server after `stop`.
    pub open spec fn stopped(self) -> ServerView {
        ServerView::idle()
    }
}

/// Stopping twice is stopping once: the second `stop` finds nothing to
/// cancel and leaves the server as the first left it, not listening and
/// without a session.
pub proof fn lemma_stop_idempotent(server: ServerView)
    ensures
        server.stopped().stopped() == server.stopped(),
        !server.stopped().running,
        server.stopped().live == Set::<ConnectionHandle>::empty(),
{
}

/// A session leaves the registry on the first outcome that ends it, and an
/// outcome for a handle that has no session changes nothing: no session is
/// forgotten twice.
pub proof fn lemma_settle_once(
    server: ServerView,
    from: ConnectionHandle,
    first: Option<EventView>,
    second: Option<EventView>,
)
    requires
        ends_session(first),
    ensures
        !server.settled(from, first).live.contains(from),
        server.settled(from, first).settled(from, second) == server.settled(from, first),
{
    let once = server.settled(from, first);
    assert(once.live.remove(from) =~= once.live);
}

/// What one session's channel gives touches no other session.
pub proof fn lemma_settle_is_local(
    server: ServerView,
    from: ConnectionHandle,
    outcome: Option<EventView>,
    other: ConnectionHandle,
)
    requires
        other != from,
    ensures
        server.settled(from, outcome).live.contains(other) == server.live.contains(other),
        server.settled(from, outcome).running == server.running,
{
}

/// What became of a frame handed to `send_message`.
#[derive(Clone, Copy, Debug, PartialEq, Eq, Structural)]
pub enum SendStatus {
    /// The frame is on the session's outbound channel.
    Enqueued,
    /// There is no live session to take the frame; nothing was done.
    NoSession,
    /// The session's writer is gone; the frame was dropped.
    ChannelClosed,
}

/// What may become of a typed message: it cannot be written, or its frame
/// is handed on, and `NoSession` is reported exactly when there is no
/// session to take it.
pub open spec fn typed_status(r: Result<SendStatus, NetworkError>, has_session: bool) -> bool {
    match r {
        Ok(status) => status is NoSession <==> !has_session,
        Err(e) => e == NetworkError::Encode,
    }
}

/// What becomes of a wrapped message: a message that could not be wrapped
/// is not sent and its failure is handed on; the frame of an envelope is
/// handed to the session, and `NoSession` is reported exactly when there is
/// no session to take it.
pub open spec fn wrapped_status(
    wrapped: Result<Enveloppe, NetworkError>,
    has_session: bool,
    r: Result<SendStatus, NetworkError>,
) -> bool {
    match wrapped {
        Ok(_) => r matches Ok(status) && (status is NoSession <==> !has_session),
        Err(e) => r == Err::<SendStatus, NetworkError>(e),
    }
}

/// The handles of a list of sessions, in order.
pub open spec fn handles_of(sessions: Seq<Session>) -> Seq<ConnectionHandle> {
    sessions.map_values(|s: Session| s.handle())
}

/// The session registry of a server, with its fan-in receive and its
/// per-handle send. It owns the session records and the accept loop's task;
/// accepting connections and serving sockets is done around it.
pub struct Server {
    accept_loop: Option<tokio::task::JoinHandle<()>>,
    sessions: Vec<Session>,
}

impl View for Server {
    type V = ServerView;

    closed spec fn view(&self) -> ServerView {
        ServerView {
            running: self.accept_loop is Some,
            live: handles_of(self.sessions@).to_set(),
        }
    }
}

proof fn lemma_remove_handle(handles: Seq<ConnectionHandle>, i: int)
    requires
        handles.no_duplicates(),
        0 <= i < handles.len(),
    ensures
        handles.remove(i).no_duplicates(),
        handles.remove(i).to_set() == handles.to_set().remove(handles[i]),
{
    let rest = handles.remove(i);
    assert forall|h: ConnectionHandle| #[trigger] rest.to_set().contains(h) <==> handles.to_set().remove(
        handles[i],
    ).contains(h) by {
        if rest.contains(h) {
            let j = choose|j: int| 0 <= j < rest.len() && rest[j] == h;
            if j < i {
                assert(handles[j] == h);
            } else {
                assert(handles[j + 1] == h);
            }
        }
        if handles.contains(h) && h != handles[i] {
            let j = choose|j: int| 0 <= j < handles.len() && handles[j] == h;
            if j < i {
                assert(rest[j] == h);
            } else {
                assert(rest[j - 1] == h);
            }
        }
    }
    assert(rest.to_set() =~= handles.to_set().remove(handles[i]));
}

impl Server {
    #[verifier::type_invariant]
    spec fn distinct_handles(self) -> bool {
        handles_of(self.sessions@).no_duplicates()
    }

    /// A server that is not listening and has no session.
    pub fn new() -> (server: Server)
        ensures
            server@ == ServerView::idle(),
    {
        let server = Server { accept_loop: None, sessions: Vec::new() };
        assert(handles_of(server.sessions@) =~= Seq::empty());
        assert(server@.live =~= Set::empty());
        server
    }

    /// Whether an accept loop is active.
    pub fn is_running(&self) -> (running: bool)
        ensures
            running == self@.running,
    {
        self.accept_loop.is_some()
    }

    /// The position of the session of `handle`, if it is live.
    fn position(&self, handle: ConnectionHandle) -> (at: Option<usize>)
        ensures
            match at {
                Some(i) => i < self.sessions.len() && self.sessions[i as int].handle() == handle,
                None => !self@.live.contains(handle),
            },
            at is Some <==> self@.live.contains(handle),
    {
        let mut i: usize = 0;
        while i < self.sessions.len()
            invariant
                i <= self.sessions.len(),
                forall|j: int| 0 <= j < i ==> self.sessions[j].handle() != handle,
            decreases self.sessions.len() - i,
        {
            if self.sessions[i].handle() == handle {
                assert(handles_of(self.sessions@)[i as int] == handle);
                return Some(i);
            }
            i += 1;
        }
        assert(!handles_of(self.sessions@).contains(handle));
        None
    }

    /// Takes over the accept loop's task and marks the server as listening.
    /// Only one accept loop may be active: on a server that is already
    /// listening the new loop is cancelled and the call is refused.
    pub fn listen(&mut self, accept_loop: tokio::task::JoinHandle<()>) -> (r: Result<
        (),
        ServerConfigError,
    >)
        ensures
            old(self)@.running ==> r == Err::<(), ServerConfigError>(
                ServerConfigError::AlreadyListening,
            ) && final(self)@ == old(self)@,
            !old(self)@.running ==> r is Ok && final(self)@ == old(self)@.listening(),
    {
        proof {
            use_type_invariant(&*self);
        }
        if self.accept_loop.is_some() {
            abort_task(&accept_loop);
            return Err(ServerConfigError::AlreadyListening);
        }
        self.accept_loop = Some(accept_loop);
        Ok(())
    }

    /// Registers the session of an accepted connection. A live session with
    /// the same handle is cancelled and replaced, so that every handle has
    /// one record.
    pub fn register(&mut self, session: Session)
        ensures
            final(self)@ == old(self)@.registered(session.handle()),
    {
        proof {
            use_type_invariant(&*self);
        }
        let handle = session.handle();
        let at = self.position(handle);
        let ghost before = handles_of(self.sessions@);
        let mut sessions: Vec<Session> = Vec::new();
        std::mem::swap(&mut sessions, &mut self.sessions);
        match at {
            Some(i) => {
                abort_task(&sessions[i].task);
                sessions.set(i, session);
                proof {
                    assert(handles_of(sessions@) =~= before);
                    assert(before.to_set().insert(handle) =~= before.to_set());
                }
            },
            None => {
                sessions.push(session);
                proof {
                    assert(handles_of(sessions@) =~= before.push(handle));
                    before.lemma_push_to_set_commute(handle);
                }
            },
        }
        self.sessions = sessions;
    }

    /// Forgets the session of `handle`, if it is live, and cancels its task.
    fn discard(&mut self, handle: ConnectionHandle)
        ensures
            final(self)@.running == old(self)@.running,
            final(self)@.live == old(self)@.live.remove(handle),
    {
        proof {
            use_type_invariant(&*self);
        }
        let ghost before = handles_of(self.sessions@);
        match self.position(handle) {
            Some(i) => {
                let mut sessions: Vec<Session> = Vec::new();
                std::mem::swap(&mut sessions, &mut self.sessions);
                let session = sessions.remove(i);
                abort_task(&session.task);
                proof {
                    assert(handles_of(sessions@) =~= before.remove(i as int));
                    lemma_remove_handle(before, i as int);
                }
                self.sessions = sessions;
            },
            None => {
                assert(before.to_set().remove(handle) =~= before.to_set());
            },
        }
    }

    /// Books what the inbound channel of session `from` gave: an event, or
    /// `None` for a channel that is closed. The session leaves the registry
    /// when its channel is closed or the event is an `Error`; the event is
    /// handed on unchanged.
    pub fn settle(&mut self, from: ConnectionHandle, outcome: Option<NetworkEvent>) -> (event:
        Option<NetworkEvent>)
        ensures
            event == outcome,
            final(self)@ == old(self)@.settled(from, outcome_view(outcome)),
    {
        let ends = match &outcome {
            None => true,
            Some(event) => event.is_error(),
        };
        if ends {
            self.discard(from);
        }
        outcome
    }

    /// Books what a look at the inbound channel of session `from` found. An
    /// empty channel changes nothing and gives no event; an event and a
    /// closed channel are booked as [`Server::settle`] does.
    pub fn settle_polled(&mut self, from: ConnectionHandle, found: Polled) -> (event: Option<
        NetworkEvent,
    >)
        ensures
            event == found.event(),
            final(self)@ == old(self)@.polled(from, found@),
    {
        match found {
            Polled::Event(event) => self.settle(from, Some(event)),
            Polled::Empty => None,
            Polled::Closed => self.settle(from, None),
        }
    }

    /// Waits until a live session has something on its inbound channel and
    /// returns the event. A session whose channel turns out to be closed is
    /// forgotten and the wait goes on with the others; a session that reports
    /// an `Error` is forgotten as the event is returned. Without a live
    /// session the call returns `None` at once.
    ///
    /// What the sessions put on their channels is theirs to decide:
    /// [`Server::settle`] states what is done with each outcome.
    pub fn recv(&mut self) -> (event: Option<NetworkEvent>)
        ensures
            final(self)@.running == old(self)@.running,
            final(self)@.live.subset_of(old(self)@.live),
            event is None ==> final(self)@.live == Set::<ConnectionHandle>::empty(),
            old(self)@.live == Set::<ConnectionHandle>::empty() ==> event is None,
            event matches Some(e) ==> e@.is_fatal() ==> exists|from: ConnectionHandle|
                old(self)@.live.contains(from) && !final(self)@.live.contains(from),
    {
        loop
            invariant
                self@.running == old(self)@.running,
                self@.live.subset_of(old(self)@.live),
            decreases self@.live.len(),
        {
            proof {
                use_type_invariant(&*self);
                seq_to_set_is_finite(handles_of(self.sessions@));
            }
            if self.sessions.len() == 0 {
                assert(handles_of(self.sessions@) =~= Seq::empty());
                assert(self@.live =~= Set::empty());
                return None;
            }
            let index = wait_ready(&self.sessions);
            let from = self.sessions[index].handle();
            assert(handles_of(self.sessions@)[index as int] == from);
            assert(self@.live.contains(from));
            let outcome = self.sessions[index].next_event();
            match self.settle(from, outcome) {
                Some(event) => {
                    return Some(event);
                },
                None => {},
            }
        }
    }

    /// The next event of any live session, without waiting: `None` when no
    /// session has one. A session whose channel turns out to be closed is
    /// forgotten and the others are looked at; a session that reports an
    /// `Error` is forgotten as the event is returned.
    pub fn try_recv(&mut self) -> (event: Option<NetworkEvent>)
        ensures
            final(self)@.running == old(self)@.running,
            final(self)@.live.subset_of(old(self)@.live),
            old(self)@.live == Set::<ConnectionHandle>::empty() ==> event is None,
            event matches Some(e) ==> e@.is_fatal() ==> exists|from: ConnectionHandle|
                old(self)@.live.contains(from) && !final(self)@.live.contains(from),
    {
        loop
            invariant
                self@.running == old(self)@.running,
                self@.live.subset_of(old(self)@.live),
            decreases self@.live.len(),
        {
            proof {
                use_type_invariant(&*self);
                seq_to_set_is_finite(handles_of(self.sessions@));
            }
            let index = match find_ready(&self.sessions) {
                Some(index) => index,
                None => {
                    return None;
                },
            };
            let from = self.sessions[index].handle();
            assert(handles_of(self.sessions@)[index as int] == from);
            assert(self@.live.contains(from));
            let found = self.sessions[index].poll_event();
            let closed = found.is_closed();
            let event = self.settle_polled(from, found);
            if !closed {
                return event;
            }
        }
    }

    /// Hands a frame to the session of `handle`. A handle without a live
    /// session is no error: the frame is dropped and the status says so.
    pub fn send_message(&self, handle: &ConnectionHandle, frame: Vec<u8>) -> (status: SendStatus)
        ensures
            status is NoSession <==> !self@.live.contains(*handle),
    {
        match self.position(*handle) {
            Some(i) => {
                if self.sessions[i].enqueue(frame) {
                    SendStatus::Enqueued
                } else {
                    SendStatus::ChannelClosed
                }
            },
            None => SendStatus::NoSession,
        }
    }

    /// Sends what wrapping a message gave: the frame of the envelope goes to
    /// the session of `handle`; a failure to wrap is handed on and nothing
    /// is sent.
    pub fn send_wrapped(
        &self,
        handle: &ConnectionHandle,
        wrapped: Result<Enveloppe, NetworkError>,
    ) -> (r: Result<SendStatus, NetworkError>)
        ensures
            wrapped_status(wrapped, self@.live.contains(*handle), r),
    {
        match wrapped {
            Ok(envelope) => Ok(self.send_message(handle, envelope.to_bytes())),
            Err(e) => Err(e),
        }
    }

    /// Wraps `message` in an envelope under the tag of its type and hands
    /// the frame to the session of `handle`. Whether the message can be
    /// written is up to its own serializer.
    pub fn send_typed<T: MessageType + serde::Serialize>(
        &self,
        handle: &ConnectionHandle,
        message: &T,
    ) -> (r: Result<SendStatus, NetworkError>)
        ensures
            typed_status(r, self@.live.contains(*handle)),
    {
        self.send_wrapped(handle, Enveloppe::wrap(message))
    }

    /// The number of live sessions.
    pub fn session_count(&self) -> (count: usize)
        ensures
            count == self@.live.len(),
    {
        proof {
            use_type_invariant(self);
            handles_of(self.sessions@).unique_seq_to_set();
        }
        self.sessions.len()
    }

    /// Cancels the accept loop and the task of every live session, and
    /// forgets them all.
    pub fn stop(&mut self)
        ensures
            final(self)@ == old(self)@.stopped(),
    {
        proof {
            use_type_invariant(&*self);
        }
        match &self.accept_loop {
            Some(task) => {
                abort_task(task);
            },
            None => {},
        }
        self.accept_loop = None;
        let mut i: usize = 0;
        while i < self.sessions.len()
            invariant
                i <= self.sessions.len(),
            decreases self.sessions.len() - i,
        {
            abort_task(&self.sessions[i].task);
            i += 1;
        }
        self.sessions = Vec::new();
        assert(handles_of(self.sessions@) =~= Seq::empty());
        assert(self@.live =~= Set::empty());
    }
}

impl EventSource for Server {
    open spec fn active(&self) -> bool {
        self@.running
    }

    fn is_active(&self) -> (active: bool) {
        self.is_running()
    }

    fn next_event(&mut self) -> (event: Option<NetworkEvent>)
        ensures
            final(self)@.running == old(self)@.running,
            final(self)@.live.subset_of(old(self)@.live),
            event is None ==> final(self)@.live == Set::<ConnectionHandle>::empty(),
            old(self)@.live == Set::<ConnectionHandle>::empty() ==> event is None,
            event matches Some(e) ==> e@.is_fatal() ==> exists|from: ConnectionHandle|
                old(self)@.live.contains(from) && !final(self)@.live.contains(from),
    {
        self.recv()
    }
}

/// The view of what a channel gave.
pub open spec fn outcome_view(outcome: Option<NetworkEvent>) -> Option<EventView> {
    match outcome {
        None => None,
        Some(event) => Some(event@),
    }
}

} // verus!
