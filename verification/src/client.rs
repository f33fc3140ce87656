use vstd::prelude::*;
use crate::handle::ConnectionHandle;
use crate::event::{ConnectError, NetworkError, NetworkEvent};
use crate::session::{abort_task, Session};
use crate::server::{typed_status, wrapped_status, SendStatus};
use crate::envelope::{option_text, same_text, Enveloppe, MessageType};
use crate::dispatch::EventSource;

verus! {

/// The scheme of `endpoint` read as an absolute URL, in lower case and
/// without the colon; `None` where `endpoint` is no absolute URL. This is
/// what `url::Url::parse` and `Url::scheme` give.
pub uninterp spec fn url_scheme(endpoint: Seq<char>) -> Option<Seq<char>>;

/// Parses `endpoint` with `url::Url::parse` and hands out `Url::scheme` of
/// the result; `None` stands for any error of the parser.
#[verifier::external_body]
fn parse_scheme(endpoint: &str) -> (scheme: Option<String>)
    ensures
        option_text(scheme) == url_scheme(endpoint@),
{
    match url::Url::parse(endpoint) {
        Ok(parsed) => Some(parsed.scheme().to_string()),
        Err(_) => None,
    }
}

/// The scheme `ws`.
pub open spec fn plain_scheme() -> Seq<char> {
    seq!['w', 's']
}

/// The scheme `wss`.
pub open spec fn secure_scheme() -> Seq<char> {
    seq!['w', 's', 's']
}

/// Whether an endpoint with this scheme can be connected to: it must be a
/// URL, and its scheme `ws` or `wss`.
pub open spec fn endpoint_verdict(scheme: Option<Seq<char>>) -> Result<(), ConnectError> {
    match scheme {
        None => Err(ConnectError::InvalidUrl),
        Some(s) => if s == plain_scheme() || s == secure_scheme() {
            Ok(())
        } else {
            Err(ConnectError::UnsupportedScheme)
        },
    }
}

/// The client end of one connection: its single session, once connected.
/// The handshake and the socket are served around it.
pub struct Client {
    session: Option<Session>,
}

impl Client {
    /// Whether the client has a session.
    pub closed spec fn is_running_spec(&self) -> bool {
        self.session is Some
    }

    /// A client without a session.
    pub fn new() -> (client: Client)
        ensures
            !client.is_running(),
    {
        Client { session: None }
    }

    #[verifier::when_used_as_spec(is_running_spec)]
    pub fn is_running(&self) -> (running: bool)
        ensures
            running == self.is_running_spec(),
    {
        self.session.is_some()
    }

    /// Judges the scheme that the URL parser found in an endpoint.
    pub fn check_scheme(scheme: Option<String>) -> (r: Result<(), ConnectError>)
        ensures
            r == endpoint_verdict(option_text(scheme)),
    {
        proof {
            reveal_strlit("ws");
            reveal_strlit("wss");
            assert("ws"@ =~= plain_scheme());
            assert("wss"@ =~= secure_scheme());
        }
        match scheme {
            None => Err(ConnectError::InvalidUrl),
            Some(s) => {
                if same_text(s.as_str(), "ws") || same_text(s.as_str(), "wss") {
                    Ok(())
                } else {
                    Err(ConnectError::UnsupportedScheme)
                }
            },
        }
    }

    /// Says whether `endpoint` can be connected to: it must be an absolute
    /// URL with the scheme `ws` or `wss`.
    pub fn check_endpoint(endpoint: &str) -> (r: Result<(), ConnectError>)
        ensures
            r == endpoint_verdict(url_scheme(endpoint@)),
    {
        Client::check_scheme(parse_scheme(endpoint))
    }

    /// Takes over the session of a connection whose handshake succeeded: the
    /// two channel ends and the task that serves the socket. The session goes
    /// under the placeholder handle. A session that the client had before is
    /// cancelled and replaced.
    pub fn connect(
        &mut self,
        inbound: crossbeam_channel::Receiver<NetworkEvent>,
        outbound: crossbeam_channel::Sender<Vec<u8>>,
        task: tokio::task::JoinHandle<()>,
    )
        ensures
            final(self).is_running(),
    {
        match &self.session {
            Some(previous) => {
                abort_task(&previous.task);
            },
            None => {},
        }
        self.session = Some(Session::new(ConnectionHandle::nil(), inbound, outbound, task));
    }

    /// The next event of the session, without waiting: `None` when nothing
    /// has arrived, and always `None` without a session.
    pub fn try_recv(&self) -> (event: Option<NetworkEvent>)
        ensures
            !self.is_running() ==> event is None,
    {
        match &self.session {
            Some(session) => session.poll_event().into_event(),
            None => None,
        }
    }

    /// Hands a frame to the session. Without a session the frame is dropped
    /// and the status says so.
    pub fn send_raw_message(&self, frame: Vec<u8>) -> (status: SendStatus)
        ensures
            status is NoSession <==> !self.is_running(),
    {
        match &self.session {
            Some(session) => {
                if session.enqueue(frame) {
                    SendStatus::Enqueued
                } else {
                    SendStatus::ChannelClosed
                }
            },
            None => SendStatus::NoSession,
        }
    }

    /// Sends what wrapping a message gave: the frame of the envelope goes to
    /// the session; a failure to wrap is handed on and nothing is sent.
    pub fn send_wrapped(&self, wrapped: Result<Enveloppe, NetworkError>) -> (r: Result<
        SendStatus,
        NetworkError,
    >)
        ensures
            wrapped_status(wrapped, self.is_running(), r),
    {
        match wrapped {
            Ok(envelope) => Ok(self.send_raw_message(envelope.to_bytes())),
            Err(e) => Err(e),
        }
    }

    /// Wraps `message` in an envelope under the tag of its type and hands
    /// the frame to the session. Whether the message can be written is up
    /// to its own serializer.
    pub fn send_message<T: MessageType + serde::Serialize>(&self, message: &T) -> (r: Result<
        SendStatus,
        NetworkError,
    >)
        ensures
            typed_status(r, self.is_running()),
    {
        self.send_wrapped(Enveloppe::wrap(message))
    }

    /// Cancels the session's task and forgets the session.
    pub fn stop(&mut self)
        ensures
            !final(self).is_running(),
    {
        match &self.session {
            Some(session) => {
                abort_task(&session.task);
            },
            None => {},
        }
        self.session = None;
    }
}

impl EventSource for Client {
    open spec fn active(&self) -> bool {
        self.is_running()
    }

    fn is_active(&self) -> (active: bool) {
        self.is_running()
    }

    fn next_event(&mut self) -> (event: Option<NetworkEvent>)
        ensures
            final(self).is_running() == old(self).is_running(),
            !old(self).is_running() ==> event is None,
    {
        self.try_recv()
    }
}

} // verus!
