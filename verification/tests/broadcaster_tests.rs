use mirakc::broadcaster::Broadcaster;
use mirakc::broadcaster::PacketAligner;
use mirakc::command::split_shell_words;
use mirakc::errors::CommandError;
use mirakc::errors::Error;
use mirakc::models::TunerSessionId;
use mirakc::models::TunerSubscriptionId;

fn sub_id(serial: u32) -> TunerSubscriptionId {
    TunerSubscriptionId::new(TunerSessionId::new(0, 0), serial)
}

#[test]
fn test_aligner_packet_boundaries() {
    let mut aligner = PacketAligner::new();
    // 200 bytes: one whole packet comes out, 12 bytes are carried.
    let first: Vec<u8> = (0..200u32).map(|i| (i % 251) as u8).collect();
    let out = aligner.feed(&first);
    assert_eq!(out.len(), 188);
    assert_eq!(out[..], first[..188]);
    // 176 more bytes complete the second packet: 12 + 176 = 188.
    let second: Vec<u8> = vec![7u8; 176];
    let out = aligner.feed(&second);
    assert_eq!(out.len(), 188);
    assert_eq!(out[..12], first[188..]);
    assert_eq!(out[12..], second[..]);
    // A short read stays buffered entirely.
    let out = aligner.feed(&vec![1u8; 10]);
    assert_eq!(out.len(), 0);
}

#[test]
fn test_broadcaster_isolation() {
    let mut b = Broadcaster::new(TunerSessionId::new(0, 0), 1000, 2);
    b.subscribe(sub_id(1));
    b.subscribe(sub_id(2));

    let chunk = vec![0u8; 188];
    // Fill subscriber 1's queue while subscriber 2 keeps draining.
    b.broadcast_chunk(&chunk, 0);
    b.broadcast_chunk(&chunk, 10);
    assert!(b.recv(sub_id(2)).is_some());
    assert!(b.recv(sub_id(2)).is_some());
    // Subscriber 1 is full now; subscriber 2 still receives.
    b.broadcast_chunk(&chunk, 20);
    assert_eq!(b.recv(sub_id(2)).unwrap(), chunk);
    assert_eq!(b.subscribers[0].lag_count, 1);
    assert_eq!(b.subscribers[1].lag_count, 0);
    // Subscriber 1 still hands out what it holds, in order.
    assert!(b.recv(sub_id(1)).is_some());
}

#[test]
fn test_broadcaster_eviction() {
    let mut b = Broadcaster::new(TunerSessionId::new(0, 0), 1000, 1);
    b.subscribe(sub_id(1));
    b.subscribe(sub_id(2));
    let chunk = vec![0u8; 188];
    b.broadcast_chunk(&chunk, 0);
    // Subscriber 1 never drains: its sends start failing at t=10.
    b.broadcast_chunk(&chunk, 10);
    b.evict_stalled(500);
    assert_eq!(b.subscribers.len(), 2);
    // Past the time limit the stuck subscriber is evicted; the healthy
    // one, drained meanwhile, stays.
    assert!(b.recv(sub_id(2)).is_some());
    b.broadcast_chunk(&chunk, 900);
    b.evict_stalled(1010);
    assert_eq!(b.subscribers.len(), 1);
    assert_eq!(b.subscribers[0].id, sub_id(2));
}

#[test]
fn test_broadcaster_unsubscribe() {
    let mut b = Broadcaster::new(TunerSessionId::new(0, 0), 1000, 4);
    b.subscribe(sub_id(1));
    b.subscribe(sub_id(2));
    b.unsubscribe(sub_id(1));
    assert_eq!(b.subscribers.len(), 1);
    assert_eq!(b.subscribers[0].id, sub_id(2));
    // Removing an unknown id changes nothing.
    b.unsubscribe(sub_id(1));
    assert_eq!(b.subscribers.len(), 1);
}

#[test]
fn test_split_shell_words() {
    assert_eq!(
        split_shell_words("recdvb --b25 27 - -").unwrap(),
        vec!["recdvb", "--b25", "27", "-", "-"]
    );
    assert_eq!(
        split_shell_words("sh -c 'cat; false'").unwrap(),
        vec!["sh", "-c", "cat; false"]
    );
    assert_eq!(
        split_shell_words(r#"sh -c "test $(cat) = 'x'""#).unwrap(),
        vec!["sh", "-c", "test $(cat) = 'x'"]
    );
    assert_eq!(split_shell_words(r#"a\ b"#).unwrap(), vec!["a b"]);
    assert_eq!(split_shell_words(r#""a\$b""#).unwrap(), vec!["a$b"]);
    assert_eq!(split_shell_words(r#""a\nb""#).unwrap(), vec![r#"a\nb"#]);
    assert_eq!(split_shell_words("  ").unwrap(), Vec::<String>::new());
    assert_eq!(split_shell_words("''").unwrap(), vec![""]);
    assert_eq!(
        split_shell_words("cmd '"),
        Err(Error::CommandFailed(CommandError::UnableToParse))
    );
    assert_eq!(
        split_shell_words("trailing\\"),
        Err(Error::CommandFailed(CommandError::UnableToParse))
    );
    assert_eq!(
        split_shell_words(r#"open "quote"#),
        Err(Error::CommandFailed(CommandError::UnableToParse))
    );
}
