use vstd::prelude::*;
use crate::handle::ConnectionHandle;
use crate::event::{EventView, NetworkError, NetworkEvent};
use crate::envelope::{envelope_in, same_text, EnvelopeView, Enveloppe};
use crate::reader::views;
use crate::router::{may_decode_to, registration_result, registry_after, Decoder, GenericParser};

verus! {

/// A queued message as a mathematical value: where it came from, and its
/// envelope.
pub type QueuedView = (ConnectionHandle, EnvelopeView);

/// The dispatcher as a mathematical value.
pub struct DispatcherView {
    /// The decoder registered for each tag.
    pub registry: Map<Seq<char>, Decoder>,
    /// For every tag, the messages that wait for its consumer, oldest first.
    pub pending: Map<Seq<char>, Seq<QueuedView>>,
    /// The transport events that wait for the generic sink, oldest first.
    pub events: Seq<EventView>,
}

impl DispatcherView {
    /// What the dispatcher reports on an event: a frame that is no envelope
    /// is a decode failure, an envelope whose tag has no decoder an unknown
    /// tag.
    pub open spec fn verdict(self, event: EventView) -> Result<(), NetworkError> {
        match event {
            EventView::Message(_, bytes) => match envelope_in(bytes) {
                Some(envelope) => if self.registry.contains_key(envelope.tag) {
                    Ok(())
                } else {
                    Err(NetworkError::UnknownTag)
                },
                None => Err(NetworkError::Decode),
            },
            _ => Ok(()),
        }
    }

    /// The dispatcher after an event. A message whose envelope has a
    /// registered tag joins the queue of that tag, at its end; any other
    /// message is dropped. Every other event joins the events for the sink.
    pub open spec fn accepted(self, event: EventView) -> DispatcherView {
        match event {
            EventView::Message(from, bytes) => match envelope_in(bytes) {
                Some(envelope) => if self.registry.contains_key(envelope.tag) {
                    DispatcherView {
                        pending: self.pending.insert(
                            envelope.tag,
                            self.pending[envelope.tag].push((from, envelope)),
                        ),
                        ..self
                    }
                } else {
                    self
                },
                None => self,
            },
            _ => DispatcherView { events: self.events.push(event), ..self },
        }
    }

    /// The dispatcher after a run of events, taken in order.
    pub open spec fn accepted_all(self, events: Seq<EventView>) -> DispatcherView
        decreases events.len(),
    {
        if events.len() == 0 {
            self
        } else {
            self.accepted_all(events.drop_last()).accepted(events.last())
        }
    }

    /// The dispatcher once the queue of `tag` was taken.
    pub open spec fn drained(self, tag: Seq<char>) -> DispatcherView {
        DispatcherView { pending: self.pending.insert(tag, Seq::empty()), ..self }
    }

    /// The dispatcher once the events for the sink were taken.
    pub open spec fn flushed(self) -> DispatcherView {
        DispatcherView { events: Seq::empty(), ..self }
    }

    /// Whether every queue holds only messages of its own tag, and only
    /// tags with a registered type have messages waiting.
    pub open spec fn consistent(self) -> bool {
        forall|tag: Seq<char>, i: int|
            0 <= i < self.pending[tag].len() ==> (#[trigger] self.pending[tag][i]).1.tag == tag
                && self.registry.contains_key(tag)
    }

    /// The dispatcher after a registration of `tag` with `decoder`.
    pub open spec fn registered(self, tag: Seq<char>, decoder: Decoder) -> DispatcherView {
        DispatcherView { registry: registry_after(self.registry, tag, decoder), ..self }
    }
}

/// What a consumer gets of one decoded message: the value with its origin,
/// or nothing if the payload did not decode.
pub open spec fn delivery<T>(from: ConnectionHandle, outcome: Result<T, NetworkError>) -> Seq<
    (ConnectionHandle, T),
> {
    match outcome {
        Ok(value) => seq![(from, value)],
        Err(_) => seq![],
    }
}

/// What a consumer gets of a run of decoded messages: the values that
/// decoded, each with its origin, in the order of the run.
pub open spec fn deliveries<T>(outcomes: Seq<(ConnectionHandle, Result<T, NetworkError>)>) -> Seq<
    (ConnectionHandle, T),
>
    decreases outcomes.len(),
{
    if outcomes.len() == 0 {
        Seq::empty()
    } else {
        deliveries(outcomes.drop_last()) + delivery(outcomes.last().0, outcomes.last().1)
    }
}

/// Whether `outcomes` holds one outcome for each message of `queue`, under
/// the same origin and in the same order, each of them one that decoding
/// the message on `registry` may give.
pub open spec fn outcomes_of<T>(
    outcomes: Seq<(ConnectionHandle, Result<T, NetworkError>)>,
    queue: Seq<QueuedView>,
    registry: Map<Seq<char>, Decoder>,
) -> bool {
    &&& outcomes.len() == queue.len()
    &&& forall|i: int|
        0 <= i < queue.len() ==> (#[trigger] outcomes[i]).0 == queue[i].0 && may_decode_to(
            registry,
            queue[i].1.tag,
            outcomes[i].1,
        )
}

/// Something that transport events can be pulled from.
pub trait EventSource {
    /// Whether the source has been started.
    spec fn active(&self) -> bool;

    /// Whether the source has been started.
    fn is_active(&self) -> (active: bool)
        ensures
            active == self.active(),
    ;

    /// The next event, if the source has one to give.
    fn next_event(&mut self) -> Option<NetworkEvent>;
}

/// A message whose tag has no registered type leaves the dispatcher as it
/// was: it is in no queue, and what comes after it on the same session is
/// queued as if it had never come.
pub proof fn lemma_unknown_tag_dropped(
    dispatcher: DispatcherView,
    from: ConnectionHandle,
    unknown: Seq<u8>,
    later: EventView,
)
    requires
        envelope_in(unknown) matches Some(envelope) && !dispatcher.registry.contains_key(
            envelope.tag,
        ),
    ensures
        dispatcher.verdict(EventView::Message(from, unknown)) == Err::<(), NetworkError>(
            NetworkError::UnknownTag,
        ),
        dispatcher.accepted(EventView::Message(from, unknown)) == dispatcher,
        dispatcher.accepted(EventView::Message(from, unknown)).accepted(later)
            == dispatcher.accepted(later),
{
}

/// A frame that is no envelope leaves the dispatcher as it was.
pub proof fn lemma_malformed_frame_dropped(
    dispatcher: DispatcherView,
    from: ConnectionHandle,
    frame: Seq<u8>,
)
    requires
        envelope_in(frame) is None,
    ensures
        dispatcher.verdict(EventView::Message(from, frame)) == Err::<(), NetworkError>(
            NetworkError::Decode,
        ),
        dispatcher.accepted(EventView::Message(from, frame)) == dispatcher,
{
}

/// A message whose tag has a registered type goes to the end of the queue
/// of its tag, behind everything that came before it, and touches no other
/// queue.
pub proof fn lemma_known_tag_queued(
    dispatcher: DispatcherView,
    from: ConnectionHandle,
    frame: Seq<u8>,
    other: Seq<char>,
)
    requires
        envelope_in(frame) matches Some(envelope) && dispatcher.registry.contains_key(envelope.tag),
    ensures
        dispatcher.verdict(EventView::Message(from, frame)) == Ok::<(), NetworkError>(()),
        dispatcher.accepted(EventView::Message(from, frame)).pending[envelope_in(frame)->0.tag]
            == dispatcher.pending[envelope_in(frame)->0.tag].push((from, envelope_in(frame)->0)),
        other != envelope_in(frame)->0.tag ==> dispatcher.accepted(
            EventView::Message(from, frame),
        ).pending[other] == dispatcher.pending[other],
{
}

/// Whatever arrives, every queue holds only messages of its own tag, and
/// only a tag with a registered type has messages waiting: a message for an
/// unknown tag reaches no consumer.
pub proof fn lemma_accepted_consistent(dispatcher: DispatcherView, event: EventView)
    requires
        dispatcher.consistent(),
    ensures
        dispatcher.accepted(event).consistent(),
{
    let after = dispatcher.accepted(event);
    assert forall|t: Seq<char>, i: int| 0 <= i < after.pending[t].len() implies (
    #[trigger] after.pending[t][i]).1.tag == t && after.registry.contains_key(t) by {
        if after.pending[t] != dispatcher.pending[t] {
            if i < dispatcher.pending[t].len() {
                assert(after.pending[t][i] == dispatcher.pending[t][i]);
            }
        } else {
            assert(after.pending[t][i] == dispatcher.pending[t][i]);
        }
    }
}

/// A run of events keeps the queues consistent.
pub proof fn lemma_accepting_keeps_consistency(dispatcher: DispatcherView, events: Seq<EventView>)
    requires
        dispatcher.consistent(),
    ensures
        dispatcher.accepted_all(events).consistent(),
    decreases events.len(),
{
    if events.len() > 0 {
        lemma_accepting_keeps_consistency(dispatcher, events.drop_last());
        lemma_accepted_consistent(dispatcher.accepted_all(events.drop_last()), events.last());
    }
}

/// Registering a type, taking a queue and taking the events for the sink
/// keep the queues consistent.
pub proof fn lemma_consistency_is_kept(
    dispatcher: DispatcherView,
    tag: Seq<char>,
    decoder: Decoder,
)
    requires
        dispatcher.consistent(),
    ensures
        dispatcher.registered(tag, decoder).consistent(),
        dispatcher.drained(tag).consistent(),
        dispatcher.flushed().consistent(),
{
    let registered = dispatcher.registered(tag, decoder);
    assert forall|t: Seq<char>, i: int| 0 <= i < registered.pending[t].len() implies (
    #[trigger] registered.pending[t][i]).1.tag == t && registered.registry.contains_key(t) by {
        assert(dispatcher.pending[t][i].1.tag == t);
    }
    let drained = dispatcher.drained(tag);
    assert forall|t: Seq<char>, i: int| 0 <= i < drained.pending[t].len() implies (
    #[trigger] drained.pending[t][i]).1.tag == t && drained.registry.contains_key(t) by {
        assert(dispatcher.pending[t][i].1.tag == t);
    }
}

/// Taking events never changes the registry.
pub proof fn lemma_accepting_keeps_registry(dispatcher: DispatcherView, events: Seq<EventView>)
    ensures
        dispatcher.accepted_all(events).registry == dispatcher.registry,
    decreases events.len(),
{
    if events.len() > 0 {
        lemma_accepting_keeps_registry(dispatcher, events.drop_last());
    }
}

/// A message that does not decode takes nothing away from the others: what
/// a consumer gets of two runs, one after the other, is what it gets of the
/// first followed by what it gets of the second.
pub proof fn lemma_deliveries_concat<T>(
    first: Seq<(ConnectionHandle, Result<T, NetworkError>)>,
    second: Seq<(ConnectionHandle, Result<T, NetworkError>)>,
)
    ensures
        deliveries(first + second) == deliveries(first) + deliveries(second),
    decreases second.len(),
{
    if second.len() == 0 {
        assert(first + second =~= first);
        assert(deliveries(first) + deliveries(second) =~= deliveries(first));
    } else {
        assert((first + second).drop_last() =~= first + second.drop_last());
        lemma_deliveries_concat(first, second.drop_last());
        assert(deliveries(first + second) =~= deliveries(first) + deliveries(second));
    }
}

/// The queue of one tag.
struct Bucket {
    tag: String,
    entries: Vec<(ConnectionHandle, Enveloppe)>,
}

/// The entries of a queue as mathematical values.
pub open spec fn queued_views(entries: Seq<(ConnectionHandle, Enveloppe)>) -> Seq<QueuedView> {
    entries.map_values(|e: (ConnectionHandle, Enveloppe)| (e.0, e.1@))
}

/// The queue of `tag` among `buckets`: that of the first bucket with the tag,
/// and the empty queue if there is none.
spec fn contents(buckets: Seq<Bucket>, tag: Seq<char>) -> Seq<QueuedView>
    decreases buckets.len(),
{
    if buckets.len() == 0 {
        Seq::empty()
    } else if buckets[0].tag@ == tag {
        queued_views(buckets[0].entries@)
    } else {
        contents(buckets.drop_first(), tag)
    }
}

/// Whether `at` is the first bucket with the tag.
spec fn first_with(buckets: Seq<Bucket>, tag: Seq<char>, at: int) -> bool {
    &&& 0 <= at < buckets.len()
    &&& buckets[at].tag@ == tag
    &&& forall|j: int| 0 <= j < at ==> buckets[j].tag@ != tag
}

proof fn lemma_contents_absent(buckets: Seq<Bucket>, tag: Seq<char>)
    requires
        forall|j: int| 0 <= j < buckets.len() ==> buckets[j].tag@ != tag,
    ensures
        contents(buckets, tag) == Seq::<QueuedView>::empty(),
    decreases buckets.len(),
{
    if buckets.len() > 0 {
        lemma_contents_absent(buckets.drop_first(), tag);
    }
}

proof fn lemma_contents_at(buckets: Seq<Bucket>, tag: Seq<char>, at: int)
    requires
        first_with(buckets, tag, at),
    ensures
        contents(buckets, tag) == queued_views(buckets[at].entries@),
    decreases buckets.len(),
{
    if at > 0 {
        lemma_contents_at(buckets.drop_first(), tag, at - 1);
    }
}

proof fn lemma_contents_update(buckets: Seq<Bucket>, at: int, bucket: Bucket, tag: Seq<char>)
    requires
        0 <= at < buckets.len(),
        buckets[at].tag@ == bucket.tag@,
        first_with(buckets, bucket.tag@, at),
    ensures
        contents(buckets.update(at, bucket), tag) == if tag == bucket.tag@ {
            queued_views(bucket.entries@)
        } else {
            contents(buckets, tag)
        },
    decreases buckets.len(),
{
    let updated = buckets.update(at, bucket);
    if at == 0 {
        assert(updated.drop_first() =~= buckets.drop_first());
    } else {
        assert(updated.drop_first() =~= buckets.drop_first().update(at - 1, bucket));
        lemma_contents_update(buckets.drop_first(), at - 1, bucket, tag);
    }
}

proof fn lemma_contents_push(buckets: Seq<Bucket>, bucket: Bucket, tag: Seq<char>)
    requires
        forall|j: int| 0 <= j < buckets.len() ==> buckets[j].tag@ != bucket.tag@,
    ensures
        contents(buckets.push(bucket), tag) == if tag == bucket.tag@ {
            queued_views(bucket.entries@)
        } else {
            contents(buckets, tag)
        },
    decreases buckets.len(),
{
    let pushed = buckets.push(bucket);
    if buckets.len() == 0 {
        assert(pushed.drop_first() =~= buckets);
    } else {
        assert(pushed.drop_first() =~= buckets.drop_first().push(bucket));
        lemma_contents_push(buckets.drop_first(), bucket, tag);
    }
}

/// Sorts the raw messages of a transport by the tag of their envelopes, and
/// hands each tag's messages to its consumer in the order in which they
/// came. Messages for a tag without a registered type are dropped on
/// arrival; transport events that are no messages are kept for a sink of
/// their own.
pub struct Dispatcher {
    parser: GenericParser,
    buckets: Vec<Bucket>,
    network_events: Vec<NetworkEvent>,
}

impl View for Dispatcher {
    type V = DispatcherView;

    closed spec fn view(&self) -> DispatcherView {
        DispatcherView {
            registry: self.parser@,
            pending: Map::total(|tag: Seq<char>| contents(self.buckets@, tag)),
            events: views(self.network_events@),
        }
    }
}

impl Dispatcher {
    /// A dispatcher with no registered type and nothing queued.
    pub fn new() -> (dispatcher: Dispatcher)
        ensures
            dispatcher@.registry == Map::<Seq<char>, Decoder>::empty(),
            dispatcher@.pending == Map::<Seq<char>, Seq<QueuedView>>::total(
                |tag: Seq<char>| Seq::<QueuedView>::empty(),
            ),
            dispatcher@.events == Seq::<EventView>::empty(),
            dispatcher@.consistent(),
    {
        let dispatcher = Dispatcher {
            parser: GenericParser::new(),
            buckets: Vec::new(),
            network_events: Vec::new(),
        };
        assert(dispatcher@.pending =~= Map::total(|tag: Seq<char>| Seq::<QueuedView>::empty()));
        assert(dispatcher@.events =~= Seq::empty());
        dispatcher
    }

    /// The registry of the dispatcher.
    pub fn parser(&self) -> (parser: &GenericParser)
        ensures
            parser@ == self@.registry,
    {
        &self.parser
    }

    /// The position of the first bucket with the tag.
    fn bucket_of(&self, tag: &str) -> (at: Option<usize>)
        ensures
            match at {
                Some(i) => first_with(self.buckets@, tag@, i as int),
                None => forall|j: int| 0 <= j < self.buckets.len() ==> self.buckets[j].tag@ != tag@,
            },
    {
        let mut i: usize = 0;
        while i < self.buckets.len()
            invariant
                i <= self.buckets.len(),
                forall|j: int| 0 <= j < i ==> self.buckets[j].tag@ != tag@,
            decreases self.buckets.len() - i,
        {
            if same_text(self.buckets[i].tag.as_str(), tag) {
                return Some(i);
            }
            i += 1;
        }
        None
    }

    /// Puts a message at the end of the queue of its tag.
    fn enqueue(&mut self, from: ConnectionHandle, envelope: Enveloppe)
        ensures
            final(self)@.registry == old(self)@.registry,
            final(self)@.events == old(self)@.events,
            final(self)@.pending == old(self)@.pending.insert(
                envelope@.tag,
                old(self)@.pending[envelope@.tag].push((from, envelope@)),
            ),
    {
        let ghost tag = envelope@.tag;
        let ghost item = (from, envelope@);
        let ghost before = self.buckets@;
        match self.bucket_of(envelope.message_type().as_str()) {
            Some(i) => {
                let mut bucket = self.buckets.remove(i);
                proof {
                    lemma_contents_at(before, tag, i as int);
                }
                bucket.entries.push((from, envelope));
                let ghost updated = bucket;
                self.buckets.insert(i, bucket);
                proof {
                    assert(self.buckets@ =~= before.update(i as int, updated));
                    assert(queued_views(updated.entries@) =~= queued_views(
                        before[i as int].entries@,
                    ).push(item));
                    assert forall|t: Seq<char>| #[trigger]
                        contents(self.buckets@, t) == old(self)@.pending.insert(
                            tag,
                            old(self)@.pending[tag].push(item),
                        )[t] by {
                        lemma_contents_update(before, i as int, updated, t);
                    }
                }
            },
            None => {
                let mut entries: Vec<(ConnectionHandle, Enveloppe)> = Vec::new();
                let name = envelope.message_type().clone();
                entries.push((from, envelope));
                let bucket = Bucket { tag: name, entries };
                let ghost added = bucket;
                self.buckets.push(bucket);
                proof {
                    lemma_contents_absent(before, tag);
                    assert(queued_views(added.entries@) =~= Seq::<QueuedView>::empty().push(item));
                    assert forall|t: Seq<char>| #[trigger]
                        contents(self.buckets@, t) == old(self)@.pending.insert(
                            tag,
                            old(self)@.pending[tag].push(item),
                        )[t] by {
                        lemma_contents_push(before, added, t);
                    }
                }
            },
        }
        assert(self@.pending =~= old(self)@.pending.insert(
            tag,
            old(self)@.pending[tag].push(item),
        ));
    }

    /// Takes one transport event. A message is read as an envelope and
    /// queued under its tag, if the tag has a registered type; a frame that
    /// is no envelope, or whose tag is unknown, is dropped and reported.
    /// Every other event is kept for the generic sink.
    pub fn accept(&mut self, event: NetworkEvent) -> (r: Result<(), NetworkError>)
        ensures
            r == old(self)@.verdict(event@),
            final(self)@ == old(self)@.accepted(event@),
    {
        match event {
            NetworkEvent::Message(from, bytes) => {
                match Enveloppe::from_bytes(bytes.as_slice()) {
                    Ok(envelope) => {
                        if self.parser.is_registered(envelope.message_type().as_str()) {
                            self.enqueue(from, envelope);
                            Ok(())
                        } else {
                            Err(NetworkError::UnknownTag)
                        }
                    },
                    Err(_) => Err(NetworkError::Decode),
                }
            },
            other => {
                let ghost before = views(self.network_events@);
                self.network_events.push(other);
                assert(views(self.network_events@) =~= before.push(other@));
                Ok(())
            },
        }
    }

    /// Hands out the events that wait for the generic sink, oldest first.
    pub fn handle_network_events(&mut self) -> (events: Vec<NetworkEvent>)
        ensures
            views(events@) == old(self)@.events,
            final(self)@ == old(self)@.flushed(),
    {
        let mut events: Vec<NetworkEvent> = Vec::new();
        std::mem::swap(&mut events, &mut self.network_events);
        assert(views(self.network_events@) =~= Seq::empty());
        events
    }

    /// Takes the queue of `tag`, oldest message first.
    pub fn take(&mut self, tag: &str) -> (entries: Vec<(ConnectionHandle, Enveloppe)>)
        ensures
            queued_views(entries@) == old(self)@.pending[tag@],
            entries@.len() == old(self)@.pending[tag@].len(),
            final(self)@ == old(self)@.drained(tag@),
    {
        let ghost before = self.buckets@;
        let mut entries: Vec<(ConnectionHandle, Enveloppe)> = Vec::new();
        match self.bucket_of(tag) {
            Some(i) => {
                let mut bucket = self.buckets.remove(i);
                proof {
                    lemma_contents_at(before, tag@, i as int);
                }
                std::mem::swap(&mut entries, &mut bucket.entries);
                let ghost emptied = bucket;
                self.buckets.insert(i, bucket);
                proof {
                    assert(self.buckets@ =~= before.update(i as int, emptied));
                    assert(queued_views(emptied.entries@) =~= Seq::empty());
                    assert forall|t: Seq<char>| #[trigger]
                        contents(self.buckets@, t) == old(self)@.pending.insert(
                            tag@,
                            Seq::empty(),
                        )[t] by {
                        lemma_contents_update(before, i as int, emptied, t);
                    }
                }
            },
            None => {
                proof {
                    lemma_contents_absent(before, tag@);
                    assert(queued_views(entries@) =~= Seq::empty());
                }
            },
        }
        assert(self@.pending =~= old(self)@.pending.insert(tag@, Seq::empty()));
        entries
    }

    /// Registers the type `T` for `tag`. A tag is registered once: a second
    /// registration fails and changes nothing.
    pub fn add_message_type<T: 'static + serde::de::DeserializeOwned + Send>(
        &mut self,
        tag: &str,
    ) -> (r: Result<(), NetworkError>)
        ensures
            r == registration_result(old(self)@.registry, tag@),
            exists|decoder: Decoder| final(self)@ == old(self)@.registered(tag@, decoder),
    {
        let r = self.parser.insert_type::<T>(tag);
        proof {
            let decoder = choose|decoder: Decoder|
                self.parser@ == registry_after(old(self).parser@, tag@, decoder);
            assert(self@ == old(self)@.registered(tag@, decoder));
        }
        r
    }

    /// Pulls events from `source` and takes each with [`Dispatcher::accept`],
    /// until the source has none to give or `budget` events were taken.
    /// Nothing is pulled from a source that was not started. Returns the
    /// number of events taken.
    pub fn consume_messages<S: EventSource>(&mut self, source: &mut S, budget: usize) -> (taken:
        usize)
        ensures
            taken <= budget,
            !old(source).active() ==> taken == 0 && final(self)@ == old(self)@,
            exists|events: Seq<EventView>|
                events.len() == taken && final(self)@ == old(self)@.accepted_all(events),
    {
        let mut taken: usize = 0;
        let ghost mut seen: Seq<EventView> = Seq::empty();
        if !source.is_active() {
            assert(seen.len() == 0 && self@ == old(self)@.accepted_all(seen));
            return 0;
        }
        while taken < budget
            invariant
                old(source).active(),
                taken <= budget,
                seen.len() == taken,
                self@ == old(self)@.accepted_all(seen),
            decreases budget - taken,
        {
            match source.next_event() {
                Some(event) => {
                    proof {
                        assert(seen.push(event@).drop_last() =~= seen);
                        seen = seen.push(event@);
                    }
                    let _ = self.accept(event);
                    taken += 1;
                },
                None => {
                    return taken;
                },
            }
        }
        taken
    }

    /// Adds to `out` what the consumer gets of one decoded message.
    pub fn deliver<T>(
        out: &mut Vec<(ConnectionHandle, T)>,
        from: ConnectionHandle,
        outcome: Result<T, NetworkError>,
    )
        ensures
            final(out)@ == old(out)@ + delivery(from, outcome),
    {
        match outcome {
            Ok(value) => {
                out.push((from, value));
                assert(out@ =~= old(out)@ + delivery(from, outcome));
            },
            Err(_) => {
                assert(out@ =~= old(out)@ + delivery(from, outcome));
            },
        }
    }

    /// Takes the queue of `tag` and decodes its messages as values of `T`,
    /// oldest first. A message that does not decode is left out, and the
    /// rest of the queue is decoded all the same.
    pub fn drain<T: 'static>(&mut self, tag: &str) -> (messages: Vec<
        (ConnectionHandle, T),
    >)
        ensures
            final(self)@ == old(self)@.drained(tag@),
            messages@.len() <= old(self)@.pending[tag@].len(),
            exists|outcomes: Seq<(ConnectionHandle, Result<T, NetworkError>)>|
                outcomes_of(outcomes, old(self)@.pending[tag@], old(self)@.registry) && messages@
                    == deliveries(outcomes),
    {
        let entries = self.take(tag);
        let ghost queue = queued_views(entries@);
        let mut messages: Vec<(ConnectionHandle, T)> = Vec::new();
        let ghost mut outcomes: Seq<(ConnectionHandle, Result<T, NetworkError>)> = Seq::empty();
        let mut i: usize = 0;
        while i < entries.len()
            invariant
                i <= entries.len(),
                queue == queued_views(entries@),
                outcomes.len() == i,
                self@.registry == old(self)@.registry,
                forall|j: int|
                    0 <= j < i ==> (#[trigger] outcomes[j]).0 == queue[j].0 && may_decode_to(
                        self@.registry,
                        queue[j].1.tag,
                        outcomes[j].1,
                    ),
                messages@ == deliveries(outcomes),
                messages@.len() <= i,
            decreases entries.len() - i,
        {
            let from = entries[i].0;
            let outcome = self.parser.decode::<T>(&entries[i].1);
            proof {
                assert(outcomes.push((from, outcome)).drop_last() =~= outcomes);
                outcomes = outcomes.push((from, outcome));
            }
            Dispatcher::deliver(&mut messages, from, outcome);
            i += 1;
        }
        messages
    }
}

} // verus!
