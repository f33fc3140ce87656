use vstd::prelude::*;
use std::any::Any;
use crate::event::NetworkError;
use crate::envelope::{Enveloppe, same_text};

verus! {

/// A decoded value whose type is no longer written in its Rust type: it is
/// kept as `Box<dyn Any + Send>` and gets its type back by a checked cast.
/// The box is hidden from the verifier, which knows no trait object of `Any`.
#[verifier::external_body]
pub struct AnyMessage {
    value: Box<dyn Any + Send>,
}

/// The decoder of one registered type: a closure from payload text to a
/// decoded value, kept as `Box<dyn Fn>`. The box is hidden from the
/// verifier, which knows no trait object of `Fn`.
#[verifier::external_body]
pub struct Decoder {
    run: Box<dyn Send + Fn(&str) -> Option<Box<dyn Any + Send>>>,
}

/// Makes the decoder of the type `T`: a closure that reads a payload with
/// `serde_json::from_str::<T>` and boxes the value, or gives nothing where
/// the parser reports an error. What the parser accepts is decided by `T`'s
/// own `Deserialize`, so nothing is claimed of the decoder.
#[verifier::external_body]
fn decoder_of<T: 'static + serde::de::DeserializeOwned + Send>() -> (decoder: Decoder) {
    Decoder {
        run: Box::new(
            |text: &str|
                match serde_json::from_str::<T>(text) {
                    Ok(value) => Some(Box::new(value) as Box<dyn Any + Send>),
                    Err(_) => None,
                },
        ),
    }
}

/// Runs a decoder on a payload text by calling the boxed closure, and wraps
/// what it gives. Nothing is claimed of the outcome.
#[verifier::external_body]
fn run_decoder(decoder: &Decoder, text: &str) -> (value: Option<AnyMessage>) {
    (decoder.run)(text).map(|value| AnyMessage { value })
}

/// Casts a decoded value to `T` with `Box<dyn Any + Send>::downcast`, which
/// gives the value where it is a `T` and nothing otherwise. The verifier has
/// no name for the type inside the box, so nothing is claimed of the outcome.
#[verifier::external_body]
fn downcast<T: 'static>(message: AnyMessage) -> (value: Option<T>) {
    message.value.downcast::<T>().ok().map(|boxed| *boxed)
}

/// One registration: a tag and the decoder of its type.
struct Registration {
    tag: String,
    decoder: Decoder,
}

/// The decoder registered for `tag` among `entries`: that of the first entry
/// with the tag.
spec fn registered_decoder(entries: Seq<Registration>, tag: Seq<char>) -> Option<Decoder>
    decreases entries.len(),
{
    if entries.len() == 0 {
        None
    } else if entries[0].tag@ == tag {
        Some(entries[0].decoder)
    } else {
        registered_decoder(entries.drop_first(), tag)
    }
}

proof fn lemma_registered_push(entries: Seq<Registration>, entry: Registration, tag: Seq<char>)
    ensures
        registered_decoder(entries.push(entry), tag) == match registered_decoder(entries, tag) {
            Some(decoder) => Some(decoder),
            None => if entry.tag@ == tag {
                Some(entry.decoder)
            } else {
                None
            },
        },
    decreases entries.len(),
{
    if entries.len() == 0 {
        assert(entries.push(entry).drop_first() =~= entries);
    } else {
        assert(entries.push(entry).drop_first() =~= entries.drop_first().push(entry));
        lemma_registered_push(entries.drop_first(), entry, tag);
    }
}

/// What a registration of `tag` answers on the registry `registry`: a tag is
/// registered once.
pub open spec fn registration_result(registry: Map<Seq<char>, Decoder>, tag: Seq<char>) -> Result<
    (),
    NetworkError,
> {
    if registry.contains_key(tag) {
        Err(NetworkError::DuplicateRegistration)
    } else {
        Ok(())
    }
}

/// The registry after a registration of `tag` with `decoder`: a tag that is
/// registered already keeps its decoder.
pub open spec fn registry_after(
    registry: Map<Seq<char>, Decoder>,
    tag: Seq<char>,
    decoder: Decoder,
) -> Map<Seq<char>, Decoder> {
    if registry.contains_key(tag) {
        registry
    } else {
        registry.insert(tag, decoder)
    }
}

/// A second registration of a tag fails, whatever type it names, and leaves
/// the registry as the first registration made it: the tag keeps the decoder
/// it got first, and no other tag is touched.
pub proof fn lemma_duplicate_registration(
    registry: Map<Seq<char>, Decoder>,
    tag: Seq<char>,
    first: Decoder,
    second: Decoder,
)
    ensures
        registration_result(registry_after(registry, tag, first), tag) == Err::<(), NetworkError>(
            NetworkError::DuplicateRegistration,
        ),
        registry_after(registry_after(registry, tag, first), tag, second) == registry_after(
            registry,
            tag,
            first,
        ),
        !registry.contains_key(tag) ==> registry_after(registry, tag, first)[tag] == first,
{
}

/// A registration changes nothing for the other tags.
pub proof fn lemma_registration_is_local(
    registry: Map<Seq<char>, Decoder>,
    tag: Seq<char>,
    decoder: Decoder,
    other: Seq<char>,
)
    requires
        other != tag,
    ensures
        registry_after(registry, tag, decoder).contains_key(other) == registry.contains_key(other),
        registry.contains_key(other) ==> registry_after(registry, tag, decoder)[other]
            == registry[other],
{
}

/// What the decoder of a registered tag made of a payload: the value it
/// gave, or a decode failure where it gave none.
pub open spec fn decoded_as(outcome: Option<AnyMessage>) -> Result<AnyMessage, NetworkError> {
    match outcome {
        Some(message) => Ok(message),
        None => Err(NetworkError::Decode),
    }
}

/// What a checked cast made of a decoded value: the value as a `T`, or a
/// mismatch where it is none.
pub open spec fn cast_as<T>(outcome: Option<T>) -> Result<T, NetworkError> {
    match outcome {
        Some(value) => Ok(value),
        None => Err(NetworkError::DowncastMismatch),
    }
}

/// What reading a payload under `tag` may give: an unknown tag where the tag
/// is not registered, and nowhere else; under a registered tag the decoded
/// value, or a decode failure.
pub open spec fn may_parse_to(
    registry: Map<Seq<char>, Decoder>,
    tag: Seq<char>,
    r: Result<AnyMessage, NetworkError>,
) -> bool {
    if registry.contains_key(tag) {
        r matches Err(e) ==> e == NetworkError::Decode
    } else {
        r == Err::<AnyMessage, NetworkError>(NetworkError::UnknownTag)
    }
}

/// What decoding a payload under `tag` as a `T` may give: an unknown tag
/// where the tag is not registered, and nowhere else; under a registered tag
/// the value, a decode failure, or a mismatch of the types.
pub open spec fn may_decode_to<T>(
    registry: Map<Seq<char>, Decoder>,
    tag: Seq<char>,
    r: Result<T, NetworkError>,
) -> bool {
    if registry.contains_key(tag) {
        r matches Err(e) ==> e == NetworkError::DowncastMismatch || e == NetworkError::Decode
    } else {
        r == Err::<T, NetworkError>(NetworkError::UnknownTag)
    }
}

/// The type registry: for each registered tag, the decoder of the type that
/// its payloads decode to. A tag is registered once.
pub struct GenericParser {
    tps: Vec<Registration>,
}

impl View for GenericParser {
    type V = Map<Seq<char>, Decoder>;

    closed spec fn view(&self) -> Map<Seq<char>, Decoder> {
        Map::new(
            |tag: Seq<char>| registered_decoder(self.tps@, tag) is Some,
            |tag: Seq<char>| registered_decoder(self.tps@, tag)->0,
        )
    }
}

impl GenericParser {
    /// A registry without registrations.
    pub fn new() -> (parser: GenericParser)
        ensures
            parser@ == Map::<Seq<char>, Decoder>::empty(),
    {
        let parser = GenericParser { tps: Vec::new() };
        assert(parser@ =~= Map::empty());
        parser
    }

    /// The decoder registered for `tag`, if there is one.
    fn find(&self, tag: &str) -> (found: Option<&Decoder>)
        ensures
            match found {
                Some(decoder) => self@.contains_key(tag@) && self@[tag@] == *decoder,
                None => !self@.contains_key(tag@),
            },
    {
        assert(self.tps@.skip(0) =~= self.tps@);
        let mut i: usize = 0;
        while i < self.tps.len()
            invariant
                i <= self.tps.len(),
                registered_decoder(self.tps@, tag@) == registered_decoder(
                    self.tps@.skip(i as int),
                    tag@,
                ),
            decreases self.tps.len() - i,
        {
            proof {
                assert(self.tps@.skip(i as int)[0] == self.tps@[i as int]);
                assert(self.tps@.skip(i as int).drop_first() =~= self.tps@.skip(i + 1));
            }
            if same_text(self.tps[i].tag.as_str(), tag) {
                return Some(&self.tps[i].decoder);
            }
            i += 1;
        }
        assert(self.tps@.skip(i as int).len() == 0);
        None
    }

    /// Whether `tag` is registered.
    pub fn is_registered(&self, tag: &str) -> (registered: bool)
        ensures
            registered == self@.contains_key(tag@),
    {
        self.find(tag).is_some()
    }

    /// Registers `decoder` for `tag`. A tag that is registered already keeps
    /// its decoder, and the call fails.
    fn insert(&mut self, tag: &str, decoder: Decoder) -> (r: Result<(), NetworkError>)
        ensures
            r == registration_result(old(self)@, tag@),
            final(self)@ == registry_after(old(self)@, tag@, decoder),
    {
        if self.is_registered(tag) {
            return Err(NetworkError::DuplicateRegistration);
        }
        let entry = Registration { tag: tag.to_owned(), decoder };
        let ghost added = entry;
        self.tps.push(entry);
        proof {
            let target = old(self)@.insert(tag@, decoder);
            assert forall|t: Seq<char>| #[trigger]
                self@.contains_key(t) == target.contains_key(t) && (self@.contains_key(t)
                    ==> self@[t] == target[t]) by {
                lemma_registered_push(old(self).tps@, added, t);
            }
            assert(self@ =~= target);
        }
        Ok(())
    }

    /// Registers the type `T` for `tag`: from now on the payloads under the
    /// tag are decoded as values of `T`. A tag that is registered already
    /// keeps its decoder, and the call fails.
    pub fn insert_type<T: 'static + serde::de::DeserializeOwned + Send>(&mut self, tag: &str) -> (r:
        Result<(), NetworkError>)
        ensures
            r == registration_result(old(self)@, tag@),
            exists|decoder: Decoder| final(self)@ == registry_after(old(self)@, tag@, decoder),
    {
        self.insert(tag, decoder_of::<T>())
    }

    /// What the outcome of a decoder becomes: the value, or a decode failure
    /// where the decoder gave none.
    pub fn decoded(outcome: Option<AnyMessage>) -> (r: Result<AnyMessage, NetworkError>)
        ensures
            r == decoded_as(outcome),
    {
        match outcome {
            Some(message) => Ok(message),
            None => Err(NetworkError::Decode),
        }
    }

    /// Decodes a payload with the decoder registered for `tag`. A tag without
    /// a decoder is unknown; a payload that the decoder refuses is a decode
    /// failure.
    pub fn parse_as_any(&self, tag: &str, payload: &str) -> (r: Result<AnyMessage, NetworkError>)
        ensures
            may_parse_to(self@, tag@, r),
    {
        match self.find(tag) {
            Some(decoder) => GenericParser::decoded(run_decoder(decoder, payload)),
            None => Err(NetworkError::UnknownTag),
        }
    }

    /// [`GenericParser::parse_as_any`] on the tag and the payload of an
    /// envelope.
    pub fn parse_enveloppe(&self, ev: &Enveloppe) -> (r: Result<AnyMessage, NetworkError>)
        ensures
            may_parse_to(self@, ev@.tag, r),
    {
        self.parse_as_any(ev.message_type().as_str(), ev.payload().as_str())
    }

    /// What the outcome of a checked cast becomes: the value, or a mismatch
    /// where the cast gave none.
    pub fn typed<T>(outcome: Option<T>) -> (r: Result<T, NetworkError>)
        ensures
            r == cast_as(outcome),
    {
        match outcome {
            Some(value) => Ok(value),
            None => Err(NetworkError::DowncastMismatch),
        }
    }

    /// Gives a decoded value its type back by a checked cast. A value that
    /// was decoded as another type is a mismatch.
    pub fn to_concrete_type<T: 'static>(d: AnyMessage) -> (r: Result<T, NetworkError>)
        ensures
            r matches Err(e) ==> e == NetworkError::DowncastMismatch,
    {
        GenericParser::typed(downcast::<T>(d))
    }

    /// Decodes the payload of an envelope with the decoder registered for
    /// its tag, and casts the value to `T`.
    pub fn decode<T: 'static>(&self, ev: &Enveloppe) -> (r: Result<T, NetworkError>)
        ensures
            may_decode_to(self@, ev@.tag, r),
    {
        match self.parse_enveloppe(ev) {
            Ok(message) => GenericParser::to_concrete_type::<T>(message),
            Err(e) => Err(e),
        }
    }
}

} // verus!
