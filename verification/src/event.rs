use vstd::prelude::*;
use crate::handle::ConnectionHandle;

verus! {

/// Why `listen` was refused.
#[derive(Clone, Copy, Debug, PartialEq, Eq, Structural)]
pub enum ServerConfigError {
    /// The listening address could not be bound.
    Bind,
    /// An accept loop is already active.
    AlreadyListening,
}

/// Why `connect` was refused.
#[derive(Clone, Copy, Debug, PartialEq, Eq, Structural)]
pub enum ConnectError {
    /// The endpoint is not a URL.
    InvalidUrl,
    /// The endpoint is a URL, but neither `ws` nor `wss`.
    UnsupportedScheme,
    /// The handshake with the server failed.
    Handshake,
}

/// Per-message and registration failures. None of them ends a session.
#[derive(Clone, Copy, Debug, PartialEq, Eq, Structural)]
pub enum NetworkError {
    /// A frame is no envelope, or a payload does not have the expected shape.
    Decode,
    /// No decoder is registered for the tag.
    UnknownTag,
    /// The tag already has a decoder.
    DuplicateRegistration,
    /// The value was registered as another type than the one asked for.
    DowncastMismatch,
    /// The value cannot be written as a payload.
    Encode,
}

/// What a transport reports.
#[derive(Clone, Debug, PartialEq, Eq)]
pub enum NetworkEvent {
    Connected(ConnectionHandle),
    Disconnected(ConnectionHandle),
    Message(ConnectionHandle, Vec<u8>),
    Error(Option<ConnectionHandle>, String),
}

/// A transport event as a mathematical value.
pub enum EventView {
    Connected(ConnectionHandle),
    Disconnected(ConnectionHandle),
    Message(ConnectionHandle, Seq<u8>),
    Error(Option<ConnectionHandle>, Seq<char>),
}

impl View for NetworkEvent {
    type V = EventView;

    open spec fn view(&self) -> EventView {
        match *self {
            NetworkEvent::Connected(h) => EventView::Connected(h),
            NetworkEvent::Disconnected(h) => EventView::Disconnected(h),
            NetworkEvent::Message(h, bytes) => EventView::Message(h, bytes@),
            NetworkEvent::Error(h, description) => EventView::Error(h, description@),
        }
    }
}

impl EventView {
    /// An `Error` event ends the session that reported it.
    pub open spec fn is_fatal(self) -> bool {
        self is Error
    }
}

impl NetworkEvent {
    /// Whether this is an `Error` event.
    pub fn is_error(&self) -> (b: bool)
        ensures
            b == self@.is_fatal(),
    {
        match self {
            NetworkEvent::Error(_, _) => true,
            _ => false,
        }
    }
}

} // verus!
