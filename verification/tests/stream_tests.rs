use siren::config::Config;
use siren::stream::{ProxyStream, ReadAction, StreamEvent, MAX_BUFFER_SIZE, MAX_WEBSOCKET_SIZE};

fn stream() -> ProxyStream {
    ProxyStream::new(Config::new("", "h".to_string(), "a:1", String::new(), String::new()))
}

fn ready(a: ReadAction) -> Vec<u8> {
    match a {
        ReadAction::Ready(data) => data,
        _ => panic!("not ready"),
    }
}

fn bytes(n: usize) -> Vec<u8> {
    (0..n).map(|i| (i % 251) as u8).collect()
}

/// Reads once with the given room; none, where the read waits or fails.
fn read(s: &mut ProxyStream, events: &mut Vec<StreamEvent>, room: usize) -> Option<Vec<u8>> {
    loop {
        match s.begin_read(room) {
            ReadAction::Ready(data) => return Some(data),
            ReadAction::Poll => {}
            _ => return None,
        }
        let event = if events.is_empty() { StreamEvent::Pending } else { events.remove(0) };
        match s.continue_read(event, room) {
            ReadAction::Ready(data) => return Some(data),
            ReadAction::Again => {}
            _ => return None,
        }
    }
}

#[test]
fn limits() {
    assert_eq!(MAX_WEBSOCKET_SIZE, 65536);
    assert_eq!(MAX_BUFFER_SIZE, 524288);
}

#[test]
fn new_stream_keeps_the_setup() {
    let mut s = stream();
    assert_eq!(s.config.host, "h");
    assert!(s.buffer.is_empty());
    assert!(matches!(s.begin_read(1), ReadAction::Poll));
}

#[test]
fn message_that_fits() {
    let mut s = stream();
    assert_eq!(ready(s.continue_read(StreamEvent::Message(bytes(5)), 5)), bytes(5));
    assert!(s.buffer.is_empty());
}

#[test]
fn message_that_does_not_fit_is_put_aside() {
    let mut s = stream();
    assert!(matches!(s.continue_read(StreamEvent::Message(bytes(5)), 4), ReadAction::Again));
    assert_eq!(ready(s.begin_read(3)), bytes(5)[..3]);
    assert_eq!(ready(s.begin_read(3)), bytes(5)[3..]);
    assert!(matches!(s.begin_read(3), ReadAction::Poll));
}

#[test]
fn read_without_room() {
    let mut s = stream();
    assert!(matches!(s.continue_read(StreamEvent::Message(bytes(2)), 0), ReadAction::Again));
    assert_eq!(ready(s.begin_read(0)), Vec::<u8>::new());
    assert_eq!(ready(s.begin_read(9)), bytes(2));
    assert_eq!(ready(s.continue_read(StreamEvent::Message(Vec::new()), 0)), Vec::<u8>::new());
}

#[test]
fn message_that_is_too_long() {
    let mut s = stream();
    let long = StreamEvent::Message(bytes(MAX_WEBSOCKET_SIZE + 1));
    assert!(matches!(s.continue_read(long, usize::MAX), ReadAction::TooLong));
    let most = StreamEvent::Message(bytes(MAX_WEBSOCKET_SIZE));
    assert!(matches!(s.continue_read(most, 10), ReadAction::Again));
    assert_eq!(s.buffer.len(), MAX_WEBSOCKET_SIZE);
}

#[test]
fn events_that_bring_no_bytes() {
    let mut s = stream();
    assert!(matches!(s.continue_read(StreamEvent::Text, 4), ReadAction::Again));
    assert!(matches!(s.continue_read(StreamEvent::Pending, 4), ReadAction::Pending));
    assert_eq!(ready(s.continue_read(StreamEvent::End, 4)), Vec::<u8>::new());
}

#[test]
fn bytes_come_through_in_order() {
    let whole = bytes(2000);
    let mut events = vec![
        StreamEvent::Message(whole[..10].to_vec()),
        StreamEvent::Text,
        StreamEvent::Message(whole[10..1500].to_vec()),
        StreamEvent::Message(whole[1500..1501].to_vec()),
        StreamEvent::Message(whole[1501..].to_vec()),
    ];
    let mut s = stream();
    let mut got: Vec<u8> = Vec::new();
    let mut room: usize = 1;
    while let Some(data) = read(&mut s, &mut events, room) {
        assert!(data.len() <= room);
        got.extend_from_slice(&data);
        room = room % 97 + 7;
    }
    assert_eq!(got, whole);
}

#[test]
fn buffer_is_bounded() {
    let mut events: Vec<StreamEvent> =
        (0..5).map(|_| StreamEvent::Message(bytes(MAX_WEBSOCKET_SIZE))).collect();
    let mut s = stream();
    let mut total: usize = 0;
    while let Some(data) = read(&mut s, &mut events, 1000) {
        assert!(s.buffer.len() <= MAX_WEBSOCKET_SIZE);
        total += data.len();
    }
    assert_eq!(total, 5 * MAX_WEBSOCKET_SIZE);
}
