//! Transport core of a multi-session WebSocket adapter: connection handles,
//! transport events, the per-session reader, the session registry with its
//! fan-in receive, the tagged envelope, the type registry and the dispatcher.

pub mod handle;
pub mod event;
pub mod reader;
pub mod session;
pub mod json;
pub mod envelope;
pub mod router;
pub mod dispatch;
pub mod server;
pub mod client;

pub use client::Client;
pub use dispatch::{Dispatcher, EventSource};
pub use envelope::{Enveloppe, MessageType};
pub use event::{ConnectError, NetworkError, NetworkEvent, ServerConfigError};
pub use handle::ConnectionHandle;
pub use reader::{Frame, Incoming, SessionReader};
pub use router::{AnyMessage, Decoder, GenericParser};
pub use server::{SendStatus, Server};
pub use session::{Polled, Session};
