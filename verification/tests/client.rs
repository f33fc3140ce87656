use crossbeam_channel::{unbounded, Receiver, Sender};
use serde::ser::SerializeMap;
use tokio::runtime::{Builder, Runtime};
use websocket_adapter::{
    Client, ConnectError, ConnectionHandle, Enveloppe, EventSource, MessageType, NetworkError,
    NetworkEvent, SendStatus,
};

struct Counter {
    a: u32,
}

impl MessageType for Counter {
    fn message_type() -> &'static str {
        "dummy"
    }
}

impl serde::Serialize for Counter {
    fn serialize<S: serde::Serializer>(&self, serializer: S) -> Result<S::Ok, S::Error> {
        let mut map = serializer.serialize_map(Some(1))?;
        map.serialize_entry("a", &self.a)?;
        map.end()
    }
}

struct Unwritable;

impl MessageType for Unwritable {
    fn message_type() -> &'static str {
        "broken"
    }
}

impl serde::Serialize for Unwritable {
    fn serialize<S: serde::Serializer>(&self, _serializer: S) -> Result<S::Ok, S::Error> {
        Err(serde::ser::Error::custom("cannot be written"))
    }
}

fn runtime() -> Runtime {
    Builder::new_current_thread().build().unwrap()
}

fn connected(rt: &Runtime) -> (Client, Sender<NetworkEvent>, Receiver<Vec<u8>>) {
    let (event_tx, event_rx) = unbounded();
    let (frame_tx, frame_rx) = unbounded();
    let mut client = Client::new();
    client.connect(event_rx, frame_tx, rt.spawn(async {}));
    (client, event_tx, frame_rx)
}

#[test]
fn websocket_urls_are_accepted() {
    assert_eq!(Client::check_endpoint("ws://127.0.0.1:12345"), Ok(()));
    assert_eq!(Client::check_endpoint("wss://example.org/socket?x=1"), Ok(()));
    assert_eq!(Client::check_endpoint("WS://Example.org"), Ok(()));
}

#[test]
fn other_schemes_are_refused() {
    assert_eq!(Client::check_endpoint("http://example.org"), Err(ConnectError::UnsupportedScheme));
    assert_eq!(Client::check_endpoint("wsx://example.org"), Err(ConnectError::UnsupportedScheme));
    assert_eq!(Client::check_endpoint("w://example.org"), Err(ConnectError::UnsupportedScheme));
}

#[test]
fn what_is_no_url_is_refused() {
    assert_eq!(Client::check_endpoint(""), Err(ConnectError::InvalidUrl));
    assert_eq!(Client::check_endpoint("127.0.0.1:12345"), Err(ConnectError::InvalidUrl));
    assert_eq!(Client::check_endpoint("not a url"), Err(ConnectError::InvalidUrl));
}

#[test]
fn check_scheme_judges_the_scheme() {
    assert_eq!(Client::check_scheme(None), Err(ConnectError::InvalidUrl));
    assert_eq!(Client::check_scheme(Some("ws".to_string())), Ok(()));
    assert_eq!(Client::check_scheme(Some("wss".to_string())), Ok(()));
    assert_eq!(
        Client::check_scheme(Some("https".to_string())),
        Err(ConnectError::UnsupportedScheme)
    );
    assert_eq!(Client::check_scheme(Some(String::new())), Err(ConnectError::UnsupportedScheme));
}

#[test]
fn new_client_has_no_session() {
    let client = Client::new();
    assert!(!client.is_running());
    assert_eq!(client.try_recv(), None);
    assert_eq!(client.send_raw_message(vec![1]), SendStatus::NoSession);
    assert_eq!(client.send_message(&Counter { a: 1 }), Ok(SendStatus::NoSession));
}

#[test]
fn try_recv_does_not_wait() {
    let rt = runtime();
    let (client, events, _frames) = connected(&rt);
    assert!(client.is_running());
    assert_eq!(client.try_recv(), None);
    events.send(NetworkEvent::Connected(ConnectionHandle::nil())).unwrap();
    events.send(NetworkEvent::Message(ConnectionHandle::nil(), vec![1])).unwrap();
    assert_eq!(client.try_recv(), Some(NetworkEvent::Connected(ConnectionHandle::nil())));
    assert_eq!(client.try_recv(), Some(NetworkEvent::Message(ConnectionHandle::nil(), vec![1])));
    assert_eq!(client.try_recv(), None);
}

#[test]
fn try_recv_stays_empty_after_the_end() {
    let rt = runtime();
    let (client, events, _frames) = connected(&rt);
    events.send(NetworkEvent::Error(Some(ConnectionHandle::nil()), "reset".to_string())).unwrap();
    events.send(NetworkEvent::Disconnected(ConnectionHandle::nil())).unwrap();
    drop(events);
    assert!(client.try_recv().unwrap().is_error());
    assert_eq!(client.try_recv(), Some(NetworkEvent::Disconnected(ConnectionHandle::nil())));
    assert_eq!(client.try_recv(), None);
    assert_eq!(client.try_recv(), None);
}

#[test]
fn raw_frames_go_out_in_order() {
    let rt = runtime();
    let (client, _events, frames) = connected(&rt);
    assert_eq!(client.send_raw_message(vec![1]), SendStatus::Enqueued);
    assert_eq!(client.send_raw_message(vec![2, 3]), SendStatus::Enqueued);
    assert_eq!(frames.try_iter().collect::<Vec<_>>(), vec![vec![1], vec![2, 3]]);
}

#[test]
fn typed_message_goes_out_in_an_envelope() {
    let rt = runtime();
    let (client, _events, frames) = connected(&rt);
    assert_eq!(client.send_message(&Counter { a: 2 }), Ok(SendStatus::Enqueued));
    assert_eq!(frames.try_recv(), Ok(br#"{"t":"dummy","d":{"a":2}}"#.to_vec()));
}

#[test]
fn unwritable_message_is_not_sent() {
    let rt = runtime();
    let (client, _events, frames) = connected(&rt);
    assert_eq!(client.send_message(&Unwritable), Err(NetworkError::Encode));
    assert!(frames.try_recv().is_err());
}

#[test]
fn send_reports_a_closed_writer_on_the_client() {
    let rt = runtime();
    let (client, _events, frames) = connected(&rt);
    drop(frames);
    assert_eq!(client.send_raw_message(vec![1]), SendStatus::ChannelClosed);
}

#[test]
fn connecting_again_replaces_the_session() {
    let rt = runtime();
    let (mut client, _old_events, old_frames) = connected(&rt);
    let (event_tx, event_rx) = unbounded();
    let (frame_tx, frame_rx) = unbounded();
    client.connect(event_rx, frame_tx, rt.spawn(async {}));
    assert!(client.is_running());
    client.send_raw_message(vec![9]);
    assert!(old_frames.try_recv().is_err());
    assert_eq!(frame_rx.try_recv(), Ok(vec![9]));
    event_tx.send(NetworkEvent::Connected(ConnectionHandle::nil())).unwrap();
    assert_eq!(client.try_recv(), Some(NetworkEvent::Connected(ConnectionHandle::nil())));
}

#[test]
fn stopped_client_has_no_session() {
    let rt = runtime();
    let (mut client, events, _frames) = connected(&rt);
    events.send(NetworkEvent::Connected(ConnectionHandle::nil())).unwrap();
    client.stop();
    assert!(!client.is_running());
    assert_eq!(client.try_recv(), None);
    assert_eq!(client.send_raw_message(vec![1]), SendStatus::NoSession);
    client.stop();
    assert!(!client.is_running());
}

#[test]
fn client_as_event_source() {
    let rt = runtime();
    let mut idle = Client::new();
    assert!(!idle.is_active());
    assert_eq!(idle.next_event(), None);
    let (mut client, events, _frames) = connected(&rt);
    assert!(client.is_active());
    assert_eq!(client.next_event(), None);
    events.send(NetworkEvent::Message(ConnectionHandle::nil(), vec![3])).unwrap();
    assert_eq!(client.next_event(), Some(NetworkEvent::Message(ConnectionHandle::nil(), vec![3])));
    assert_eq!(client.next_event(), None);
    assert!(client.is_active());
}

#[test]
fn send_wrapped_on_the_client() {
    let rt = runtime();
    let (client, _events, frames) = connected(&rt);
    let envelope = Enveloppe::new("ping".to_string(), "{}".to_string()).unwrap();
    assert_eq!(client.send_wrapped(Ok(envelope.clone())), Ok(SendStatus::Enqueued));
    assert_eq!(frames.try_recv(), Ok(br#"{"t":"ping","d":{}}"#.to_vec()));
    assert_eq!(client.send_wrapped(Err(NetworkError::Encode)), Err(NetworkError::Encode));
    assert!(frames.try_recv().is_err());
    assert_eq!(Client::new().send_wrapped(Ok(envelope)), Ok(SendStatus::NoSession));
}
