use websocket_adapter::{ConnectionHandle, Dispatcher, Enveloppe, NetworkError, NetworkEvent};

fn h(n: u128) -> ConnectionHandle {
    ConnectionHandle { uuid: n }
}

fn message(from: u128, text: &str) -> NetworkEvent {
    NetworkEvent::Message(h(from), text.as_bytes().to_vec())
}

#[test]
fn known_tag_is_queued() {
    let mut dispatcher = Dispatcher::new();
    dispatcher.add_message_type::<u32>("n").unwrap();
    assert_eq!(dispatcher.accept(message(1, r#"{"t":"n","d":4}"#)), Ok(()));
    let queue = dispatcher.take("n");
    assert_eq!(queue.len(), 1);
    assert_eq!(queue[0].0, h(1));
    assert_eq!(queue[0].1, Enveloppe::new("n".to_string(), "4".to_string()).unwrap());
    assert!(dispatcher.take("n").is_empty());
}

#[test]
fn unknown_tag_is_dropped() {
    let mut dispatcher = Dispatcher::new();
    dispatcher.add_message_type::<u32>("b").unwrap();
    assert_eq!(
        dispatcher.accept(message(1, r#"{"t":"a","d":1}"#)),
        Err(NetworkError::UnknownTag)
    );
    assert_eq!(dispatcher.accept(message(1, r#"{"t":"b","d":2}"#)), Ok(()));
    assert!(dispatcher.take("a").is_empty());
    assert_eq!(dispatcher.drain::<u32>("b"), vec![(h(1), 2)]);
    dispatcher.add_message_type::<u32>("a").unwrap();
    assert!(dispatcher.drain::<u32>("a").is_empty());
    assert!(dispatcher.handle_network_events().is_empty());
}

#[test]
fn malformed_frame_is_dropped() {
    let mut dispatcher = Dispatcher::new();
    dispatcher.add_message_type::<u32>("n").unwrap();
    assert_eq!(dispatcher.accept(message(1, "{")), Err(NetworkError::Decode));
    assert_eq!(dispatcher.accept(message(1, r#"{"t":"n"}"#)), Err(NetworkError::Decode));
    assert_eq!(dispatcher.accept(message(1, r#"{"t":"n","d":1}"#)), Ok(()));
    assert_eq!(dispatcher.drain::<u32>("n"), vec![(h(1), 1)]);
}

#[test]
fn other_events_go_to_the_sink_in_order() {
    let mut dispatcher = Dispatcher::new();
    let events = vec![
        NetworkEvent::Connected(h(1)),
        NetworkEvent::Error(Some(h(1)), "reset".to_string()),
        NetworkEvent::Disconnected(h(1)),
        NetworkEvent::Error(None, "lost".to_string()),
    ];
    for event in events.iter() {
        assert_eq!(dispatcher.accept(event.clone()), Ok(()));
    }
    assert_eq!(dispatcher.handle_network_events(), events);
    assert!(dispatcher.handle_network_events().is_empty());
}

#[test]
fn queues_are_first_in_first_out_per_tag() {
    let mut dispatcher = Dispatcher::new();
    dispatcher.add_message_type::<u32>("n").unwrap();
    dispatcher.add_message_type::<String>("s").unwrap();
    dispatcher.accept(message(1, r#"{"t":"n","d":1}"#)).unwrap();
    dispatcher.accept(message(2, r#"{"t":"s","d":"a"}"#)).unwrap();
    dispatcher.accept(message(2, r#"{"t":"n","d":2}"#)).unwrap();
    dispatcher.accept(message(1, r#"{"t":"s","d":"b"}"#)).unwrap();
    dispatcher.accept(message(1, r#"{"t":"n","d":3}"#)).unwrap();
    assert_eq!(dispatcher.drain::<u32>("n"), vec![(h(1), 1), (h(2), 2), (h(1), 3)]);
    assert_eq!(
        dispatcher.drain::<String>("s"),
        vec![(h(2), "a".to_string()), (h(1), "b".to_string())]
    );
}

#[test]
fn drain_empties_only_its_tag() {
    let mut dispatcher = Dispatcher::new();
    dispatcher.add_message_type::<u32>("n").unwrap();
    dispatcher.add_message_type::<u32>("m").unwrap();
    dispatcher.accept(message(1, r#"{"t":"n","d":1}"#)).unwrap();
    dispatcher.accept(message(1, r#"{"t":"m","d":2}"#)).unwrap();
    assert_eq!(dispatcher.drain::<u32>("n"), vec![(h(1), 1)]);
    assert!(dispatcher.drain::<u32>("n").is_empty());
    dispatcher.accept(message(1, r#"{"t":"n","d":5}"#)).unwrap();
    assert_eq!(dispatcher.drain::<u32>("m"), vec![(h(1), 2)]);
    assert_eq!(dispatcher.drain::<u32>("n"), vec![(h(1), 5)]);
}

#[test]
fn failures_do_not_stop_a_drain() {
    let mut dispatcher = Dispatcher::new();
    dispatcher.add_message_type::<u32>("n").unwrap();
    dispatcher.accept(message(1, r#"{"t":"n","d":1}"#)).unwrap();
    dispatcher.accept(message(2, r#"{"t":"n","d":"two"}"#)).unwrap();
    dispatcher.accept(message(3, r#"{"t":"n","d":3}"#)).unwrap();
    dispatcher.accept(message(4, r#"{"t":"n","d":-4}"#)).unwrap();
    dispatcher.accept(message(5, r#"{"t":"n","d":5}"#)).unwrap();
    assert_eq!(dispatcher.drain::<u32>("n"), vec![(h(1), 1), (h(3), 3), (h(5), 5)]);
}

#[test]
fn drain_as_another_type_delivers_nothing() {
    let mut dispatcher = Dispatcher::new();
    dispatcher.add_message_type::<u32>("n").unwrap();
    dispatcher.accept(message(1, r#"{"t":"n","d":1}"#)).unwrap();
    assert!(dispatcher.drain::<u64>("n").is_empty());
    assert!(dispatcher.drain::<u32>("n").is_empty());
}

#[test]
fn second_registration_fails_on_the_dispatcher() {
    let mut dispatcher = Dispatcher::new();
    assert_eq!(dispatcher.add_message_type::<u32>("n"), Ok(()));
    assert_eq!(
        dispatcher.add_message_type::<String>("n"),
        Err(NetworkError::DuplicateRegistration)
    );
    dispatcher.accept(message(1, r#"{"t":"n","d":9}"#)).unwrap();
    assert_eq!(dispatcher.drain::<u32>("n"), vec![(h(1), 9)]);
    assert!(dispatcher.parser().is_registered("n"));
}

#[test]
fn deliver_adds_successes_only() {
    let mut out: Vec<(ConnectionHandle, u8)> = vec![(h(1), 1)];
    Dispatcher::deliver(&mut out, h(2), Err(NetworkError::Decode));
    assert_eq!(out, vec![(h(1), 1)]);
    Dispatcher::deliver(&mut out, h(3), Ok(3));
    assert_eq!(out, vec![(h(1), 1), (h(3), 3)]);
    Dispatcher::deliver(&mut out, h(4), Err(NetworkError::DowncastMismatch));
    Dispatcher::deliver(&mut out, h(4), Err(NetworkError::UnknownTag));
    assert_eq!(out, vec![(h(1), 1), (h(3), 3)]);
}

#[test]
fn take_of_a_tag_without_queue_is_empty() {
    let mut dispatcher = Dispatcher::new();
    assert!(dispatcher.take("nothing").is_empty());
    assert!(dispatcher.drain::<u32>("nothing").is_empty());
}

#[test]
fn inactive_source_leaves_the_dispatcher_alone() {
    let mut dispatcher = Dispatcher::new();
    dispatcher.add_message_type::<u32>("n").unwrap();
    dispatcher.accept(message(1, r#"{"t":"n","d":1}"#)).unwrap();
    dispatcher.accept(NetworkEvent::Connected(h(1))).unwrap();
    let mut idle = websocket_adapter::Server::new();
    assert_eq!(dispatcher.consume_messages(&mut idle, 10), 0);
    assert_eq!(dispatcher.handle_network_events(), vec![NetworkEvent::Connected(h(1))]);
    assert_eq!(dispatcher.drain::<u32>("n"), vec![(h(1), 1)]);
}
