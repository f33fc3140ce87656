use vstd::prelude::*;
use crate::handle::ConnectionHandle;
use crate::event::{NetworkEvent, EventView};

verus! {

/// One WebSocket frame, as far as a session looks at it.
#[derive(Clone, Debug, PartialEq, Eq)]
pub enum Frame {
    Binary(Vec<u8>),
    Text(String),
    Ping(Vec<u8>),
    Pong(Vec<u8>),
    Close,
}

/// What one read on a session's socket gave.
#[derive(Clone, Debug, PartialEq, Eq)]
pub enum Incoming {
    /// A frame arrived.
    Frame(Frame),
    /// The read failed; the text describes the failure.
    Failed(String),
    /// The stream ended without a close frame.
    Finished,
}

/// A read as a mathematical value.
pub enum IncomingView {
    Binary(Seq<u8>),
    Close,
    Ignored,
    Failed(Seq<char>),
    Finished,
}

impl View for Incoming {
    type V = IncomingView;

    open spec fn view(&self) -> IncomingView {
        match *self {
            Incoming::Frame(Frame::Binary(bytes)) => IncomingView::Binary(bytes@),
            Incoming::Frame(Frame::Close) => IncomingView::Close,
            Incoming::Frame(_) => IncomingView::Ignored,
            Incoming::Failed(description) => IncomingView::Failed(description@),
            Incoming::Finished => IncomingView::Finished,
        }
    }
}

impl IncomingView {
    /// Whether the session is over after this read.
    pub open spec fn is_terminal(self) -> bool {
        self is Close || self is Failed || self is Finished
    }

    /// The events that a read on an open session forwards, in order.
    pub open spec fn events(self, handle: ConnectionHandle) -> Seq<EventView> {
        match self {
            IncomingView::Binary(bytes) => seq![EventView::Message(handle, bytes)],
            IncomingView::Close => seq![EventView::Disconnected(handle)],
            IncomingView::Ignored => seq![],
            IncomingView::Failed(description) => seq![
                EventView::Error(Some(handle), description),
                EventView::Disconnected(handle),
            ],
            IncomingView::Finished => seq![EventView::Disconnected(handle)],
        }
    }
}

/// The views of a list of events.
pub open spec fn views(events: Seq<NetworkEvent>) -> Seq<EventView> {
    events.map_values(|e: NetworkEvent| e@)
}

/// Everything a session forwards for the reads `reads`, given that it is
/// still open (`open`) before the first of them.
pub open spec fn forwarded(handle: ConnectionHandle, open: bool, reads: Seq<IncomingView>) -> Seq<
    EventView,
>
    decreases reads.len(),
{
    if reads.len() == 0 || !open {
        seq![]
    } else {
        reads[0].events(handle) + forwarded(handle, !reads[0].is_terminal(), reads.drop_first())
    }
}

/// The whole event stream of a session whose handshake succeeded.
pub open spec fn session_trace(handle: ConnectionHandle, reads: Seq<IncomingView>) -> Seq<
    EventView,
> {
    seq![EventView::Connected(handle)] + forwarded(handle, true, reads)
}

/// The session that an event speaks of, if it names one.
pub open spec fn origin(event: EventView) -> Option<ConnectionHandle> {
    match event {
        EventView::Connected(h) => Some(h),
        EventView::Disconnected(h) => Some(h),
        EventView::Message(h, _) => Some(h),
        EventView::Error(h, _) => h,
    }
}

/// The payloads of the messages among `events`, in order.
pub open spec fn payloads(events: Seq<EventView>) -> Seq<Seq<u8>>
    decreases events.len(),
{
    if events.len() == 0 {
        seq![]
    } else {
        match events[0] {
            EventView::Message(_, bytes) => seq![bytes] + payloads(events.drop_first()),
            _ => payloads(events.drop_first()),
        }
    }
}

/// The binary frames among `reads` that arrive while the session is open,
/// in order.
pub open spec fn binaries(open: bool, reads: Seq<IncomingView>) -> Seq<Seq<u8>>
    decreases reads.len(),
{
    if reads.len() == 0 || !open {
        seq![]
    } else {
        match reads[0] {
            IncomingView::Binary(bytes) => seq![bytes] + binaries(true, reads.drop_first()),
            _ => binaries(!reads[0].is_terminal(), reads.drop_first()),
        }
    }
}

/// The shape of what a session forwards after `Connected`: messages, then at
/// most one ending, which is a `Disconnected`, alone or straight after an
/// `Error`. Every event names the session.
pub open spec fn is_session_tail(events: Seq<EventView>, handle: ConnectionHandle) -> bool {
    &&& forall|i: int| 0 <= i < events.len() ==> !((#[trigger] events[i]) is Connected)
    &&& forall|i: int| 0 <= i < events.len() ==> origin(#[trigger] events[i]) == Some(handle)
    &&& forall|i: int|
        0 <= i < events.len() && (#[trigger] events[i]) is Disconnected ==> i == events.len() - 1
    &&& forall|i: int|
        0 <= i < events.len() && (#[trigger] events[i]) is Error ==> i == events.len() - 2
            && events[events.len() - 1] is Disconnected
}

/// What a session forwards has the shape of a session's stream, whatever
/// the socket gives.
pub proof fn lemma_forwarded_shape(handle: ConnectionHandle, open: bool, reads: Seq<IncomingView>)
    ensures
        is_session_tail(forwarded(handle, open, reads), handle),
    decreases reads.len(),
{
    if reads.len() == 0 || !open {
    } else {
        let head = reads[0].events(handle);
        let rest = forwarded(handle, !reads[0].is_terminal(), reads.drop_first());
        lemma_forwarded_shape(handle, !reads[0].is_terminal(), reads.drop_first());
        let all = head + rest;
        assert(all == forwarded(handle, open, reads));
        if reads[0].is_terminal() {
            assert(rest.len() == 0);
            assert(all =~= head);
        } else {
            assert forall|i: int| 0 <= i < all.len() implies !((#[trigger] all[i]) is Connected)
                && origin(all[i]) == Some(handle) && (all[i] is Disconnected ==> i == all.len()
                - 1) && (all[i] is Error ==> i == all.len() - 2 && all[all.len() - 1]
                is Disconnected) by {
                if i >= head.len() {
                    assert(all[i] == rest[i - head.len()]);
                    if all[i] is Error {
                        assert(all[all.len() - 1] == rest[rest.len() - 1]);
                    }
                }
            }
        }
    }
}

proof fn lemma_payloads_concat(first: Seq<EventView>, second: Seq<EventView>)
    ensures
        payloads(first + second) == payloads(first) + payloads(second),
    decreases first.len(),
{
    if first.len() == 0 {
        assert(first + second =~= second);
    } else {
        assert((first + second).drop_first() =~= first.drop_first() + second);
        lemma_payloads_concat(first.drop_first(), second);
    }
}

/// A session forwards the binary frames that reach it while it is open as
/// messages, each once and in the order of their arrival, and forwards no
/// other message.
pub proof fn lemma_forwarded_in_order(handle: ConnectionHandle, open: bool, reads: Seq<IncomingView>)
    ensures
        payloads(forwarded(handle, open, reads)) == binaries(open, reads),
    decreases reads.len(),
{
    if reads.len() == 0 || !open {
    } else {
        let head = reads[0].events(handle);
        let rest = forwarded(handle, !reads[0].is_terminal(), reads.drop_first());
        lemma_forwarded_in_order(handle, !reads[0].is_terminal(), reads.drop_first());
        lemma_payloads_concat(head, rest);
        reveal_with_fuel(payloads, 3);
        match reads[0] {
            IncomingView::Binary(bytes) => {
                assert(payloads(head) =~= seq![bytes]);
            },
            _ => {
                assert(payloads(head) =~= Seq::<Seq<u8>>::empty());
                assert(payloads(head) + payloads(rest) =~= payloads(rest));
                if reads[0].is_terminal() {
                    assert(rest.len() == 0);
                }
            },
        }
    }
}

/// The stream of a session holds exactly one `Connected`, at its head; the
/// rest has the shape of a session's stream and carries the session's
/// binary frames in the order of their arrival.
pub proof fn lemma_session_trace(handle: ConnectionHandle, reads: Seq<IncomingView>)
    ensures
        session_trace(handle, reads)[0] == EventView::Connected(handle),
        session_trace(handle, reads).drop_first() == forwarded(handle, true, reads),
        is_session_tail(session_trace(handle, reads).drop_first(), handle),
        payloads(session_trace(handle, reads)) == binaries(true, reads),
{
    let trace = session_trace(handle, reads);
    assert(trace.drop_first() =~= forwarded(handle, true, reads));
    lemma_forwarded_shape(handle, true, reads);
    lemma_forwarded_in_order(handle, true, reads);
}

/// One more read adds to what a session forwards exactly what
/// [`SessionReader::on_incoming`] gives for it: its events if the session is
/// still open, and nothing otherwise.
pub proof fn lemma_forwarded_step(
    handle: ConnectionHandle,
    open: bool,
    reads: Seq<IncomingView>,
    next: IncomingView,
)
    ensures
        forwarded(handle, open, reads.push(next)) == forwarded(handle, open, reads) + if open_after(
            open,
            reads,
        ) {
            next.events(handle)
        } else {
            seq![]
        },
        open_after(open, reads.push(next)) == (open_after(open, reads) && !next.is_terminal()),
    decreases reads.len(),
{
    if reads.len() == 0 || !open {
        if open {
            let one = reads.push(next);
            assert(one[0] == next);
            assert(one.drop_first().len() == 0);
            assert(forwarded(handle, !next.is_terminal(), one.drop_first()) =~= Seq::empty());
            assert(open_after(!next.is_terminal(), one.drop_first()) == !next.is_terminal());
            assert(forwarded(handle, open, one) =~= next.events(handle));
        } else {
            assert(forwarded(handle, open, reads) + Seq::<EventView>::empty() =~= forwarded(
                handle,
                open,
                reads,
            ));
        }
        assert(forwarded(handle, open, reads.push(next)) =~= forwarded(handle, open, reads) + if open_after(
            open,
            reads,
        ) {
            next.events(handle)
        } else {
            seq![]
        });
    } else {
        assert(reads.push(next).drop_first() =~= reads.drop_first().push(next));
        lemma_forwarded_step(handle, !reads[0].is_terminal(), reads.drop_first(), next);
        let tail = if open_after(open, reads) {
            next.events(handle)
        } else {
            seq![]
        };
        assert(forwarded(handle, open, reads.push(next)) =~= forwarded(handle, open, reads) + tail);
    }
}

/// Whether a session that was open (`open`) before `reads` is open after
/// them: no read among them was terminal.
pub open spec fn open_after(open: bool, reads: Seq<IncomingView>) -> bool
    decreases reads.len(),
{
    if reads.len() == 0 || !open {
        open
    } else {
        open_after(!reads[0].is_terminal(), reads.drop_first())
    }
}

/// The reader side of one session: turns what the socket gives into the
/// events that the session's inbound channel carries.
pub struct SessionReader {
    handle: ConnectionHandle,
    open: bool,
}

impl SessionReader {
    /// The handle of the session.
    pub closed spec fn handle_spec(&self) -> ConnectionHandle {
        self.handle
    }

    /// Whether the session still forwards events.
    pub closed spec fn is_open_spec(&self) -> bool {
        self.open
    }

    /// Starts the reader of a session whose handshake succeeded, and gives
    /// the `Connected` event that opens its stream.
    pub fn start(handle: ConnectionHandle) -> (r: (SessionReader, NetworkEvent))
        ensures
            r.0.handle_spec() == handle,
            r.0.is_open_spec(),
            r.1@ == EventView::Connected(handle),
    {
        (SessionReader { handle, open: true }, NetworkEvent::Connected(handle))
    }

    #[verifier::when_used_as_spec(handle_spec)]
    pub fn handle(&self) -> (h: ConnectionHandle)
        ensures
            h == self.handle_spec(),
    {
        self.handle
    }

    #[verifier::when_used_as_spec(is_open_spec)]
    pub fn is_open(&self) -> (b: bool)
        ensures
            b == self.is_open_spec(),
    {
        self.open
    }

    /// Takes one read and gives the events to forward, in order. A binary
    /// frame becomes a `Message`, a close frame or the end of the stream a
    /// `Disconnected`, a failed read an `Error` followed by `Disconnected`;
    /// other frames are dropped. After a terminal read nothing is forwarded.
    pub fn on_incoming(&mut self, incoming: Incoming) -> (out: Vec<NetworkEvent>)
        ensures
            final(self).handle() == old(self).handle(),
            old(self).is_open() ==> views(out@) == incoming@.events(old(self).handle()),
            old(self).is_open() ==> final(self).is_open() == !incoming@.is_terminal(),
            !old(self).is_open() ==> out@.len() == 0 && !final(self).is_open(),
    {
        let mut out: Vec<NetworkEvent> = Vec::new();
        if !self.open {
            return out;
        }
        let handle = self.handle;
        match incoming {
            Incoming::Frame(Frame::Binary(bytes)) => {
                out.push(NetworkEvent::Message(handle, bytes));
            },
            Incoming::Frame(Frame::Close) => {
                out.push(NetworkEvent::Disconnected(handle));
                self.open = false;
            },
            Incoming::Frame(_) => {},
            Incoming::Failed(description) => {
                out.push(NetworkEvent::Error(Some(handle), description));
                out.push(NetworkEvent::Disconnected(handle));
                self.open = false;
            },
            Incoming::Finished => {
                out.push(NetworkEvent::Disconnected(handle));
                self.open = false;
            },
        }
        assert(views(out@) =~= incoming@.events(handle));
        out
    }
}

} // verus!
