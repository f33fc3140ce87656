use vstd::prelude::*;

verus! {

/// Identifier of one connection: 128 bits, drawn at random when the connection
/// is accepted, and the key of every per-session table.
#[derive(Clone, Copy, Debug, PartialEq, Eq, Hash, Structural)]
pub struct ConnectionHandle {
    pub uuid: u128,
}

/// The version and variant bits of an identifier: bits 76..80 and 62..64.
pub open spec fn layout_bits(id: u128) -> u128 {
    id & 0x0000_0000_0000_f000_c000_0000_0000_0000u128
}

/// An identifier is *random* when it carries version 4 and the RFC 4122
/// variant, as every freshly drawn identifier does.
pub open spec fn is_random_id(id: u128) -> bool {
    layout_bits(id) == 0x0000_0000_0000_4000_8000_0000_0000_0000u128
}

/// Draws a random identifier with `uuid::Uuid::new_v4` and packs it with
/// `Uuid::as_u128`. The value itself is random; `new_v4` forces the version
/// nibble to 4 and the variant bits to `10`, and that is all that is claimed.
#[verifier::external_body]
fn draw_id() -> (id: u128)
    ensures
        is_random_id(id),
{
    uuid::Uuid::new_v4().as_u128()
}

impl ConnectionHandle {
    /// A fresh handle with a random identifier.
    pub fn new() -> (h: ConnectionHandle)
        ensures
            h.is_random(),
    {
        ConnectionHandle { uuid: draw_id() }
    }

    /// The placeholder handle of a client's single session: the all-zero
    /// identifier, which no accepted connection ever carries.
    pub fn nil() -> (h: ConnectionHandle)
        ensures
            h.uuid == 0,
            !h.is_random(),
    {
        assert(!is_random_id(0u128)) by (bit_vector);
        ConnectionHandle { uuid: 0 }
    }

    /// The 128-bit identifier.
    pub fn id(&self) -> (id: u128)
        ensures
            id == self.uuid,
    {
        self.uuid
    }

    /// Whether the identifier has the layout of a randomly drawn one.
    pub open spec fn is_random(&self) -> bool {
        is_random_id(self.uuid)
    }

    /// Whether this is the placeholder handle.
    pub fn is_nil(&self) -> (b: bool)
        ensures
            b == (self.uuid == 0),
    {
        self.uuid == 0
    }
}

impl Default for ConnectionHandle {
    fn default() -> (h: ConnectionHandle)
        ensures
            h.uuid == 0,
    {
        ConnectionHandle { uuid: 0 }
    }
}

/// A randomly drawn handle is never the placeholder.
pub proof fn lemma_random_is_not_nil(h: ConnectionHandle)
    requires
        h.is_random(),
    ensures
        h.uuid != 0,
{
    let id = h.uuid;
    assert(is_random_id(id) ==> id != 0u128) by (bit_vector);
}

} // verus!
