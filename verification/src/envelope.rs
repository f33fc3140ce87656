use vstd::prelude::*;
use vstd::utf8::encode_utf8;
use crate::event::NetworkError;
use crate::json::{json_members, json_quoted, json_string, member_views, read_members, read_string,
    write_string, write_value};

verus! {

/// A message type names the tag under which its values travel.
pub trait MessageType {
    fn message_type() -> &'static str;
}

/// An envelope as a mathematical value: the tag and the text of the payload.
pub struct EnvelopeView {
    pub tag: Seq<char>,
    pub payload: Seq<char>,
}

/// The wire record of one application message: a tag, never empty, and the
/// payload as JSON text that nothing has interpreted yet.
#[derive(Debug, PartialEq, Eq)]
pub struct Enveloppe {
    message_type: String,
    payload: String,
}

impl View for Enveloppe {
    type V = EnvelopeView;

    closed spec fn view(&self) -> EnvelopeView {
        EnvelopeView { tag: self.message_type@, payload: self.payload@ }
    }
}

/// The key of the tag on the wire.
pub open spec fn tag_key() -> Seq<char> {
    seq!['t']
}

/// The key of the payload on the wire.
pub open spec fn payload_key() -> Seq<char> {
    seq!['d']
}

/// The value text of the first member of `members` whose key is `key`.
pub open spec fn member(members: Seq<(Seq<char>, Seq<char>)>, key: Seq<char>) -> Option<Seq<char>>
    decreases members.len(),
{
    if members.len() == 0 {
        None
    } else if members[0].0 == key {
        Some(members[0].1)
    } else {
        member(members.drop_first(), key)
    }
}

/// The envelope made of a tag and a payload text, where both are there and
/// the tag is not empty.
pub open spec fn envelope_of(tag: Option<Seq<char>>, payload: Option<Seq<char>>) -> Option<
    EnvelopeView,
> {
    match (tag, payload) {
        (Some(t), Some(p)) => if t.len() > 0 {
            Some(EnvelopeView { tag: t, payload: p })
        } else {
            None
        },
        _ => None,
    }
}

/// The tag that the members of an object carry: the string under `t`.
pub open spec fn tag_in(members: Seq<(Seq<char>, Seq<char>)>) -> Option<Seq<char>> {
    match member(members, tag_key()) {
        Some(text) => json_string(text),
        None => None,
    }
}

/// The envelope that the members of an object carry: the string under `t`
/// and the value text under `d`. Other members are passed over.
pub open spec fn envelope_in_members(members: Seq<(Seq<char>, Seq<char>)>) -> Option<EnvelopeView> {
    envelope_of(tag_in(members), member(members, payload_key()))
}

/// The envelope that a frame carries, if it carries one.
pub open spec fn envelope_in(bytes: Seq<u8>) -> Option<EnvelopeView> {
    match json_members(bytes) {
        Some(members) => envelope_in_members(members),
        None => None,
    }
}

/// The bytes `{"t":`.
pub open spec fn frame_head() -> Seq<u8> {
    seq![0x7bu8, 0x22u8, 0x74u8, 0x22u8, 0x3au8]
}

/// The bytes `,"d":`.
pub open spec fn frame_middle() -> Seq<u8> {
    seq![0x2cu8, 0x22u8, 0x64u8, 0x22u8, 0x3au8]
}

/// The bytes `}`.
pub open spec fn frame_tail() -> Seq<u8> {
    seq![0x7du8]
}

/// The frame for a tag literal and a payload text: `{"t":<literal>,"d":<payload>}`
/// in UTF-8.
pub open spec fn framed(literal: Seq<char>, payload: Seq<char>) -> Seq<u8> {
    frame_head() + encode_utf8(literal) + frame_middle() + encode_utf8(payload) + frame_tail()
}

/// Framing and reading are inverse to each other as far as the envelope
/// goes: where the JSON reader finds in the frame of an envelope the tag
/// literal under `t` and the payload text under `d`, and reads the literal
/// back as the tag, reading the frame gives the envelope back.
pub proof fn lemma_frame_reads_back(
    tag: Seq<char>,
    payload: Seq<char>,
    members: Seq<(Seq<char>, Seq<char>)>,
)
    requires
        tag.len() > 0,
    ensures
        json_members(framed(json_quoted(tag), payload)) == Some(members) && member(
            members,
            tag_key(),
        ) == Some(json_quoted(tag)) && member(members, payload_key()) == Some(payload)
            && json_string(json_quoted(tag)) == Some(tag) ==> envelope_in(
            framed(json_quoted(tag), payload),
        ) == Some(EnvelopeView { tag, payload }),
{
}

/// Whether two texts are the same.
pub fn same_text(a: &str, b: &str) -> (same: bool)
    ensures
        same == (a@ == b@),
{
    let x = a.to_owned();
    let y = b.to_owned();
    x == y
}

/// Appends `bytes` to `out`.
fn append_bytes(out: &mut Vec<u8>, bytes: &[u8])
    ensures
        final(out)@ == old(out)@ + bytes@,
{
    let mut i: usize = 0;
    while i < bytes.len()
        invariant
            i <= bytes.len(),
            out@ == old(out)@ + bytes@.take(i as int),
        decreases bytes.len() - i,
    {
        out.push(bytes[i]);
        assert(bytes@.take(i + 1) =~= bytes@.take(i as int).push(bytes@[i as int]));
        i += 1;
    }
    assert(bytes@.take(i as int) =~= bytes@);
}

/// The value text of the first member with the key `key`.
pub fn find_member<'a>(members: &'a Vec<(String, String)>, key: &str) -> (text: Option<&'a String>)
    ensures
        match text {
            Some(t) => member(member_views(members@), key@) == Some(t@),
            None => member(member_views(members@), key@) is None,
        },
{
    let ghost all = member_views(members@);
    assert(all.skip(0) =~= all);
    let mut i: usize = 0;
    while i < members.len()
        invariant
            i <= members.len(),
            all == member_views(members@),
            member(all, key@) == member(all.skip(i as int), key@),
        decreases members.len() - i,
    {
        proof {
            assert(all.skip(i as int)[0] == all[i as int]);
            assert(all.skip(i as int).drop_first() =~= all.skip(i + 1));
        }
        if same_text(members[i].0.as_str(), key) {
            return Some(&members[i].1);
        }
        i += 1;
    }
    assert(all.skip(i as int).len() == 0);
    None
}

impl Enveloppe {
    #[verifier::type_invariant]
    spec fn tagged(self) -> bool {
        self.message_type@.len() > 0
    }

    /// An envelope for a tag and a payload text; none for the empty tag.
    pub fn new(message_type: String, payload: String) -> (envelope: Option<Enveloppe>)
        ensures
            envelope_views(envelope) == envelope_of(Some(message_type@), Some(payload@)),
    {
        if message_type.as_str().is_empty() {
            None
        } else {
            Some(Enveloppe { message_type, payload })
        }
    }

    /// The tag.
    pub fn message_type(&self) -> (tag: &String)
        ensures
            tag@ == self@.tag,
            tag@.len() > 0,
    {
        proof {
            use_type_invariant(self);
        }
        &self.message_type
    }

    /// The text of the payload.
    pub fn payload(&self) -> (payload: &String)
        ensures
            payload@ == self@.payload,
    {
        &self.payload
    }

    /// Puts an envelope together from what was read: the tag, if the frame
    /// had a string under `t`, and the payload text, if it had a member `d`.
    /// Both must be there, and the tag must not be empty.
    pub fn from_parts(tag: Option<String>, payload: Option<String>) -> (r: Result<
        Enveloppe,
        NetworkError,
    >)
        ensures
            match r {
                Ok(envelope) => envelope_of(option_text(tag), option_text(payload)) == Some(
                    envelope@,
                ),
                Err(e) => e == NetworkError::Decode && envelope_of(
                    option_text(tag),
                    option_text(payload),
                ) is None,
            },
    {
        match (tag, payload) {
            (Some(t), Some(p)) => match Enveloppe::new(t, p) {
                Some(envelope) => Ok(envelope),
                None => Err(NetworkError::Decode),
            },
            _ => Err(NetworkError::Decode),
        }
    }

    /// Picks the envelope out of the members of a JSON object: the tag is the
    /// string under `t`, the payload the value text under `d`.
    pub fn from_members(members: &Vec<(String, String)>) -> (r: Result<Enveloppe, NetworkError>)
        ensures
            match r {
                Ok(envelope) => envelope_in_members(member_views(members@)) == Some(envelope@),
                Err(e) => e == NetworkError::Decode && envelope_in_members(
                    member_views(members@),
                ) is None,
            },
    {
        proof {
            reveal_strlit("t");
            reveal_strlit("d");
            assert("t"@ =~= tag_key());
            assert("d"@ =~= payload_key());
        }
        let tag = match find_member(members, "t") {
            Some(text) => read_string(text.as_str()),
            None => None,
        };
        let payload = match find_member(members, "d") {
            Some(text) => Some(text.clone()),
            None => None,
        };
        Enveloppe::from_parts(tag, payload)
    }

    /// Reads a frame as an envelope. A frame that is no JSON object, that
    /// lacks `t` or `d`, or whose `t` is not a non-empty string is refused.
    pub fn from_bytes(bytes: &[u8]) -> (r: Result<Enveloppe, NetworkError>)
        ensures
            match r {
                Ok(envelope) => envelope_in(bytes@) == Some(envelope@),
                Err(e) => e == NetworkError::Decode && envelope_in(bytes@) is None,
            },
    {
        match read_members(bytes) {
            Some(members) => Enveloppe::from_members(&members),
            None => Err(NetworkError::Decode),
        }
    }

    /// The frame for a tag literal and a payload text.
    pub fn frame(literal: &str, payload: &str) -> (bytes: Vec<u8>)
        ensures
            bytes@ == framed(literal@, payload@),
    {
        let mut bytes: Vec<u8> = Vec::new();
        bytes.push(0x7bu8);
        bytes.push(0x22u8);
        bytes.push(0x74u8);
        bytes.push(0x22u8);
        bytes.push(0x3au8);
        assert(bytes@ =~= frame_head());
        append_bytes(&mut bytes, literal.as_bytes());
        bytes.push(0x2cu8);
        bytes.push(0x22u8);
        bytes.push(0x64u8);
        bytes.push(0x22u8);
        bytes.push(0x3au8);
        assert(bytes@ =~= frame_head() + encode_utf8(literal@) + frame_middle());
        append_bytes(&mut bytes, payload.as_bytes());
        bytes.push(0x7du8);
        assert(bytes@ =~= framed(literal@, payload@));
        bytes
    }

    /// The frame of this envelope: the tag as a JSON string under `t`, the
    /// payload text as it is under `d`.
    pub fn to_bytes(&self) -> (bytes: Vec<u8>)
        ensures
            bytes@ == framed(json_quoted(self@.tag), self@.payload),
    {
        let literal = write_string(self.message_type.as_str()).unwrap();
        Enveloppe::frame(literal.as_str(), self.payload.as_str())
    }

    /// Wraps a value in an envelope under the tag of its type.
    pub fn wrap<T: MessageType + serde::Serialize>(message: &T) -> (r: Result<
        Enveloppe,
        NetworkError,
    >)
        ensures
            r matches Err(e) ==> e == NetworkError::Encode,
    {
        let tag = T::message_type().to_owned();
        Enveloppe::sealed(tag, write_value(message))
    }

    /// The envelope for a tag and the payload text that the serializer gave,
    /// if it gave one.
    pub fn sealed(tag: String, payload: Option<String>) -> (r: Result<Enveloppe, NetworkError>)
        ensures
            match r {
                Ok(envelope) => envelope_of(Some(tag@), option_text(payload)) == Some(envelope@),
                Err(e) => e == NetworkError::Encode && envelope_of(
                    Some(tag@),
                    option_text(payload),
                ) is None,
            },
    {
        match payload {
            Some(p) => match Enveloppe::new(tag, p) {
                Some(envelope) => Ok(envelope),
                None => Err(NetworkError::Encode),
            },
            None => Err(NetworkError::Encode),
        }
    }
}

impl Clone for Enveloppe {
    fn clone(&self) -> (copy: Enveloppe)
        ensures
            copy@ == self@,
    {
        proof {
            use_type_invariant(self);
        }
        Enveloppe { message_type: self.message_type.clone(), payload: self.payload.clone() }
    }
}

/// The text of an optional string.
pub open spec fn option_text(text: Option<String>) -> Option<Seq<char>> {
    match text {
        Some(t) => Some(t@),
        None => None,
    }
}

/// The view of an optional envelope.
pub open spec fn envelope_views(envelope: Option<Enveloppe>) -> Option<EnvelopeView> {
    match envelope {
        Some(e) => Some(e@),
        None => None,
    }
}

} // verus!
