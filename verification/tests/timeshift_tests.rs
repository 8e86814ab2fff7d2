use mirakc::errors::Error;
use mirakc::timeshift::RecorderState;
use mirakc::timeshift::TimeshiftEvent;
use mirakc::timeshift::TimeshiftRecorder;
use mirakc::timeshift::TimeshiftRing;
use mirakc::timeshift_manager::millis_until_health_check;
use mirakc::timeshift_manager::TimeshiftManager;
use mirakc::timeshift_manager::TimeshiftRecorderQuery;

#[test]
fn test_ring_round_trip() {
    let mut ring = TimeshiftRing::new(16);
    ring.write(&vec![1, 2, 3, 4, 5]);
    assert_eq!(ring.read_range(0, 5), Ok(vec![1, 2, 3, 4, 5]));
    // A second write wraps past the end of the file.
    ring.write(&b"abcdefghijklmn".to_vec());
    assert_eq!(ring.read_range(5, 19), Ok(b"abcdefghijklmn".to_vec()));
    // The first bytes are overwritten now.
    assert_eq!(ring.read_range(0, 5), Err(Error::OutOfRange));
    // Nothing past the head can be read.
    assert_eq!(ring.read_range(10, 20), Err(Error::OutOfRange));
}

#[test]
fn test_recorder_records() {
    let mut rec = TimeshiftRecorder::new("test".to_string(), 1024);
    assert!(matches!(rec.state, RecorderState::Stopped));

    rec.start();
    assert!(matches!(rec.state, RecorderState::Starting));

    let events = rec.first_chunk(&vec![0u8; 188], 100001, 1000);
    assert_eq!(
        events,
        vec![
            TimeshiftEvent::Started,
            TimeshiftEvent::RecordStarted { record_id: 0 },
        ]
    );
    assert!(matches!(rec.state, RecorderState::Started));
    assert_eq!(rec.records.len(), 1);
    assert!(rec.records[0].recording);
    assert_eq!(rec.records[0].start_pos, 0);
    assert_eq!(rec.records[0].end_pos, 188);

    rec.write_chunk(&vec![1u8; 188]);
    assert_eq!(rec.records[0].end_pos, 376);

    let events = rec.program_changed(100002, 2000);
    assert_eq!(
        events,
        vec![
            TimeshiftEvent::RecordEnded { record_id: 0 },
            TimeshiftEvent::RecordStarted { record_id: 1 },
        ]
    );
    assert_eq!(rec.records.len(), 2);
    // Each record ends exactly where the next starts.
    assert_eq!(rec.records[0].end_pos, rec.records[1].start_pos);
    assert!(!rec.records[0].recording);
    assert!(rec.records[1].recording);

    // The closed record reads back exactly what was captured.
    let mut expected = vec![0u8; 188];
    expected.extend_from_slice(&[1u8; 188]);
    assert_eq!(rec.read_record(0, 0), Ok(expected));
    assert_eq!(rec.read_record(7, 0), Err(Error::RecordNotFound));

    let events = rec.stop(3000);
    assert_eq!(
        events,
        vec![
            TimeshiftEvent::RecordEnded { record_id: 1 },
            TimeshiftEvent::Stopped,
        ]
    );
    assert!(matches!(rec.state, RecorderState::Stopping));
    rec.drained();
    assert!(matches!(rec.state, RecorderState::Stopped));
}

#[test]
fn test_recorder_eviction() {
    // A ring of 512 bytes holds fewer than three 188-byte chunks.
    let mut rec = TimeshiftRecorder::new("test".to_string(), 512);
    rec.start();
    rec.first_chunk(&vec![1u8; 188], 1, 0);
    rec.program_changed(2, 10);
    rec.write_chunk(&vec![2u8; 188]);
    rec.program_changed(3, 20);
    rec.write_chunk(&vec![3u8; 188]);
    // Writing the third chunk lapped the first record's start: it is gone.
    assert_eq!(rec.records.len(), 2);
    assert_eq!(rec.records[0].id, 1);
    assert_eq!(rec.records[1].id, 2);
    assert_eq!(rec.read_record(0, 0), Err(Error::RecordNotFound));
    // The records that remain are contiguous.
    assert_eq!(rec.records[0].end_pos, rec.records[1].start_pos);
}

#[test]
fn test_recorder_read_offset() {
    let mut rec = TimeshiftRecorder::new("test".to_string(), 1024);
    rec.start();
    let mut bytes: Vec<u8> = Vec::new();
    for i in 0..188u32 {
        bytes.push((i % 251) as u8);
    }
    rec.first_chunk(&bytes, 1, 0);
    rec.program_changed(2, 10);
    assert_eq!(rec.read_record(0, 100), Ok(bytes[100..].to_vec()));
    assert_eq!(rec.read_record(0, 1000), Err(Error::OutOfRange));
}

#[test]
fn test_manager_holders() {
    let names = vec!["a".to_string(), "b".to_string(), "a".to_string()];
    let mut manager = TimeshiftManager::new(&names);
    assert_eq!(manager.holders.len(), 2);
    assert_eq!(manager.holders[0].name, "a");
    assert_eq!(manager.holders[1].name, "b");

    manager.apply_event("a", TimeshiftEvent::Started);
    manager.apply_event("a", TimeshiftEvent::RecordStarted { record_id: 7 });
    manager.apply_event("b", TimeshiftEvent::Started);
    manager.apply_event("b", TimeshiftEvent::Stopped);
    manager.apply_event("nobody", TimeshiftEvent::Started);

    assert!(manager.holders[0].started);
    assert_eq!(manager.holders[0].current_record_id, Some(7));
    assert!(!manager.holders[1].started);

    // A fresh emitter replays the cached history in pool order.
    let replay = manager.replay_events();
    assert_eq!(
        replay,
        vec![
            ("a".to_string(), TimeshiftEvent::Started),
            ("a".to_string(), TimeshiftEvent::RecordStarted { record_id: 7 }),
        ]
    );

    manager.apply_event("a", TimeshiftEvent::RecordEnded { record_id: 7 });
    assert_eq!(manager.holders[0].current_record_id, None);

    manager.reset_holder(0);
    assert!(!manager.holders[0].started);
    assert_eq!(manager.replay_events(), vec![]);
}

#[test]
fn test_resolve_recorder() {
    let names = vec!["a".to_string(), "b".to_string()];
    let manager = TimeshiftManager::new(&names);
    assert_eq!(
        manager.resolve_recorder(&TimeshiftRecorderQuery::ByName("b".to_string())),
        Ok(1)
    );
    assert_eq!(
        manager.resolve_recorder(&TimeshiftRecorderQuery::ByIndex(0)),
        Ok(0)
    );
    assert_eq!(
        manager.resolve_recorder(&TimeshiftRecorderQuery::ByName("c".to_string())),
        Err(Error::RecordNotFound)
    );
    assert_eq!(
        manager.resolve_recorder(&TimeshiftRecorderQuery::ByIndex(2)),
        Err(Error::RecordNotFound)
    );
}

#[test]
fn test_restore() {
    // A capture interrupted mid-record comes back with that record
    // closed, and its bytes still readable.
    let mut rec = TimeshiftRecorder::new("t".to_string(), 1024);
    rec.start();
    rec.first_chunk(&vec![9u8; 188], 1, 0);
    let restored = TimeshiftRecorder::restore(
        "t".to_string(),
        1024,
        rec.ring.data.clone(),
        rec.ring.head,
        rec.records.clone(),
    )
    .unwrap();
    assert!(matches!(restored.state, RecorderState::Stopped));
    assert_eq!(restored.records.len(), 1);
    assert!(!restored.records[0].recording);
    assert_eq!(restored.next_record_id, 1);
    assert_eq!(restored.read_record(0, 0), Ok(vec![9u8; 188]));

    // Pieces no recorder could have persisted are refused.
    assert_eq!(
        TimeshiftRecorder::restore("t".to_string(), 1024, vec![0u8; 10], 0, vec![]).err(),
        Some(Error::Serialize)
    );
    let mut bad = rec.records.clone();
    bad[0].start_pos = 999;
    assert_eq!(
        TimeshiftRecorder::restore("t".to_string(), 1024, rec.ring.data.clone(), rec.ring.head, bad)
            .err(),
        Some(Error::Serialize)
    );
}

#[test]
fn test_sidecar_json() {
    let mut rec = TimeshiftRecorder::new("demo".to_string(), 1024);
    rec.start();
    rec.first_chunk(&vec![0u8; 188], 10000200003, 1500);
    rec.program_changed(10000200004, 2500);
    let expected = "{\"ring_size\":1024,\"current_point\":{\"pos\":188,\"timestamp\":3000},\"records\":[{\"id\":0,\"program\":10000200003,\"startTime\":1500,\"endTime\":2500,\"startPos\":0,\"endPos\":188,\"recording\":false},{\"id\":1,\"program\":10000200004,\"startTime\":2500,\"endTime\":2500,\"startPos\":188,\"endPos\":188,\"recording\":true}]}";
    assert_eq!(rec.to_sidecar_json(3000), expected);
}

#[test]
fn test_health_check_tick() {
    // Ten seconds past the minute: the check is due in forty seconds.
    assert_eq!(millis_until_health_check(10_000), 40_000);
    // Right on the mark, the next check is a whole minute away.
    assert_eq!(millis_until_health_check(50_000), 60_000);
    assert_eq!(millis_until_health_check(59_000), 51_000);
    let now: u64 = 1_700_000_000_000;
    let wait = millis_until_health_check(now);
    assert_eq!((now + wait) % 60_000, 50_000);
}
