use vstd::prelude::*;

verus! {

/// The members of the JSON object that `bytes` spell, each as its key and the
/// text of its value as written; `None` where the bytes are not one JSON
/// object. This is what `serde_json::from_slice` reads into a map from
/// strings to raw values.
pub uninterp spec fn json_members(bytes: Seq<u8>) -> Option<Seq<(Seq<char>, Seq<char>)>>;

/// The string that the JSON text `text` spells; `None` where the text is not
/// one JSON string. This is what `serde_json::from_str` reads into a `String`.
pub uninterp spec fn json_string(text: Seq<char>) -> Option<Seq<char>>;

/// The JSON string literal for `text`, as `serde_json::to_string` writes it.
pub uninterp spec fn json_quoted(text: Seq<char>) -> Seq<char>;

/// The members of an object, as mathematical values.
pub open spec fn member_views(members: Seq<(String, String)>) -> Seq<(Seq<char>, Seq<char>)> {
    members.map_values(|m: (String, String)| (m.0@, m.1@))
}

/// Reads `bytes` as one JSON object with `serde_json::from_slice`, into a
/// `BTreeMap` from `String` to `Box<RawValue>`, and hands out the entries as
/// pairs of key and value text. The raw value keeps the text of each value
/// as it stands in the input. `None` stands for any error of the parser.
#[verifier::external_body]
pub(crate) fn read_members(bytes: &[u8]) -> (members: Option<Vec<(String, String)>>)
    ensures
        match members {
            Some(list) => json_members(bytes@) == Some(member_views(list@)),
            None => json_members(bytes@) is None,
        },
{
    let object = serde_json::from_slice::<
        std::collections::BTreeMap<String, Box<serde_json::value::RawValue>>,
    >(bytes).ok()?;
    Some(object.into_iter().map(|(key, value)| (key, value.get().to_string())).collect())
}

/// Reads `text` as one JSON string with `serde_json::from_str`. `None` stands
/// for any error of the parser.
#[verifier::external_body]
pub(crate) fn read_string(text: &str) -> (string: Option<String>)
    ensures
        match string {
            Some(s) => json_string(text@) == Some(s@),
            None => json_string(text@) is None,
        },
{
    serde_json::from_str::<String>(text).ok()
}

/// Writes `text` as a JSON string literal with `serde_json::to_string`.
/// The serializer writes a `str` into a `Vec<u8>`: nothing in it refuses a
/// string, and the only error it knows there is one of the writer, which a
/// `Vec` never gives. So a literal always comes back.
#[verifier::external_body]
pub(crate) fn write_string(text: &str) -> (literal: Option<String>)
    ensures
        literal is Some,
        literal matches Some(l) ==> l@ == json_quoted(text@),
{
    serde_json::to_string(text).ok()
}

/// Writes `value` as JSON text with `serde_json::to_string`. What comes out is
/// decided by `T`'s own `Serialize`, so nothing is claimed of it.
#[verifier::external_body]
pub(crate) fn write_value<T: serde::Serialize>(value: &T) -> (text: Option<String>) {
    serde_json::to_string(value).ok()
}

} // verus!
