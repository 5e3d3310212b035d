use chunkstream::error::Error;
use chunkstream::queue::TranslationQueue;
use chunkstream::session::CloseOutcome;
use chunkstream::session::SessionData;
use chunkstream::store::SessionStore;
use chunkstream::translate::TranslationResponse;

fn session(id: usize, uuid: &str, now: i64) -> SessionData {
    let (tx, rx) = crossbeam_channel::unbounded::<String>();
    std::mem::forget(rx);
    SessionData::new(
        id,
        tx,
        "de".to_string(),
        1000,
        None,
        Some(uuid.to_string()),
        None,
        now,
    )
}

fn frame_bytes(samples: &[f32]) -> Vec<u8> {
    let mut bytes = Vec::new();
    for s in samples {
        bytes.extend_from_slice(&s.to_le_bytes());
    }
    bytes
}

fn resp(sid: usize, seq: usize, text: &str) -> TranslationResponse {
    TranslationResponse {
        session_id: sid,
        sequence_number: seq,
        segment_number: 0,
        num_segments: 1,
        text: text.to_string(),
        is_final: true,
    }
}

#[test]
fn lookup_by_id_and_uuid() {
    let mut store = SessionStore::new();
    store.set_session(session(1, "aaa", 10));
    store.set_session(session(2, "bbb", 10));
    assert_eq!(store.len(), 2);
    assert_eq!(store.find_session_with_uuid(&"bbb".to_string()), Some(2));
    assert_eq!(store.find_session_with_uuid(&"zzz".to_string()), None);
    assert_eq!(store.session_valid(1), Some(true));
    assert_eq!(store.session_valid(3), None);
    assert!(store.remove_session(1));
    assert!(!store.remove_session(1));
    assert_eq!(store.len(), 1);
}

#[test]
fn set_session_replaces_by_id() {
    let mut store = SessionStore::new();
    assert!(!store.set_session(session(1, "aaa", 10)));
    assert!(store.set_session(session(1, "ccc", 10)));
    assert_eq!(store.len(), 1);
    assert_eq!(store.find_session_with_uuid(&"ccc".to_string()), Some(1));
    assert_eq!(store.find_session_with_uuid(&"aaa".to_string()), None);
}

#[test]
fn close_by_uuid_touches_only_that_session() {
    let queue = TranslationQueue::new().unwrap();
    let mut store = SessionStore::new();
    store.set_session(session(1, "uuid-a", 10));
    store.set_session(session(2, "uuid-b", 10));
    let out = store.mark_session_for_closure_uuid(&"uuid-a".to_string(), &queue, 20);
    assert!(matches!(out, Some(CloseOutcome::NeverUsed)));
    assert_eq!(store.session_valid(1), Some(false));
    assert_eq!(store.session_valid(2), Some(true));
    assert!(store
        .mark_session_for_closure_uuid(&"uuid-c".to_string(), &queue, 20)
        .is_none());
}

#[test]
fn streaming_through_the_store_updates_the_record() {
    let queue = TranslationQueue::new().unwrap();
    let mut store = SessionStore::new();
    store.set_session(session(1, "aaa", 10));
    let silence = vec![0.0f32; 1000];
    assert!(store.user_message(1, &queue, &frame_bytes(&silence), 11).is_some());
    assert!(store.user_message(9, &queue, &frame_bytes(&silence), 11).is_none());
    store.mark_session_for_closure(1, &queue, 12);
    assert!(store.process_transcription(1, &resp(1, 0, "gut"), 13).unwrap().is_none());
    let fin = store.process_transcription(1, &resp(1, 1, "gemacht"), 14).unwrap();
    assert!(fin.is_some());
    assert_eq!(store.transcript_of(1).unwrap(), "gut gemacht");
    let st = store.status_of(1).unwrap();
    assert_eq!(st.transcription_job_count, 2);
    assert_eq!(st.transcription_completed_count, 2);
    assert!(matches!(
        store.process_transcription(9, &resp(9, 0, "x"), 15),
        Err(Error::NotFound)
    ));
}

#[test]
fn expiry_removes_only_stale_sessions() {
    let mut store = SessionStore::new();
    store.set_session(session(1, "old", 0));
    store.set_session(session(2, "fresh", 90000));
    store.expire_sessions(90001).unwrap();
    assert_eq!(store.len(), 1);
    assert_eq!(store.find_session_with_uuid(&"fresh".to_string()), Some(2));
    // Exactly at the window's edge a session stays.
    let mut edge = SessionStore::new();
    edge.set_session(session(3, "edge", 0));
    edge.expire_sessions(86400).unwrap();
    assert_eq!(edge.len(), 1);
    edge.expire_sessions(86401).unwrap();
    assert_eq!(edge.len(), 0);
}
