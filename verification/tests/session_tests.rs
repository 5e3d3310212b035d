use chunkstream::error::Error;
use chunkstream::queue::TranslationQueue;
use chunkstream::session::CloseOutcome;
use chunkstream::session::FrameResult;
use chunkstream::session::SessionData;
use chunkstream::session::uuid_message;
use chunkstream::translate::TranslationResponse;

fn frame_bytes(samples: &[f32]) -> Vec<u8> {
    let mut bytes = Vec::new();
    for s in samples {
        bytes.extend_from_slice(&s.to_le_bytes());
    }
    bytes
}

fn resp(sid: usize, seq: usize, seg: usize, num: usize, text: &str) -> TranslationResponse {
    TranslationResponse {
        session_id: sid,
        sequence_number: seq,
        segment_number: seg,
        num_segments: num,
        text: text.to_string(),
        is_final: seg + 1 == num,
    }
}

fn new_session(rate: u32) -> (SessionData, crossbeam_channel::Receiver<String>) {
    let (tx, rx) = crossbeam_channel::unbounded::<String>();
    let s = SessionData::new(
        1,
        tx,
        "de".to_string(),
        rate,
        None,
        Some("fixed-uuid".to_string()),
        Some("recordings"),
        1000,
    );
    (s, rx)
}

#[test]
fn happy_path_two_chunks_reverse_responses() {
    let queue = TranslationQueue::new().unwrap();
    let mut queue_handle = queue.clone_handle();
    let job_rx = queue_handle.take_receiver().unwrap();
    let (mut s, out_rx) = new_session(16000);
    s.send_uuid().unwrap();
    assert_eq!(out_rx.recv().unwrap(), "{\"uuid\":\"fixed-uuid\"}");

    // Five seconds of speech: the segmenter cuts at 48000, the close
    // flushes the remaining 32000.
    let speech = vec![0.5f32; 48000];
    match s.user_message(&queue, &frame_bytes(&speech)) {
        FrameResult::Cut(payload) => assert_eq!(payload.len(), 48000),
        other => panic!("expected a cut, got {:?}", kind(&other)),
    }
    let tail = vec![0.5f32; 32000];
    match s.user_message(&queue, &frame_bytes(&tail)) {
        FrameResult::Buffered => {},
        other => panic!("expected buffering, got {:?}", kind(&other)),
    }
    match s.mark_session_for_closure(&queue) {
        CloseOutcome::Flushed(payload, accepted) => {
            assert_eq!(payload.len(), 32000);
            assert!(accepted);
        },
        _ => panic!("expected a flush"),
    }
    assert_eq!(s.last_sequence, Some(1));
    assert_eq!(s.sequence_number, 2);
    assert!(s.buffer.is_empty());

    // Both requests sit in the queue, in sequence order, gap-free.
    let r0 = job_rx.recv().unwrap();
    let r1 = job_rx.recv().unwrap();
    assert_eq!(r0.sequence_number, 0);
    assert_eq!(r0.payload.len(), 48000);
    assert_eq!(r1.sequence_number, 1);
    assert_eq!(r1.payload.len(), 32000);

    // Responses arrive in reverse order; wire order follows arrival,
    // the transcript follows the sequence numbers.
    let fin = s.process_transcription(&resp(1, 1, 0, 1, "world")).unwrap();
    assert!(fin.is_none());
    let fin = s.process_transcription(&resp(1, 0, 0, 1, "hello")).unwrap();
    let out = fin.expect("the last response must finalize the session");
    assert_eq!(out.transcript, "hello world");
    assert!(out.transcript_file.is_some());
    assert!(out.metadata_file.is_some());
    assert!(!s.valid);

    let wire1: serde_json::Value = serde_json::from_str(&out_rx.recv().unwrap()).unwrap();
    let wire2: serde_json::Value = serde_json::from_str(&out_rx.recv().unwrap()).unwrap();
    assert_eq!(wire1["text"], "world");
    assert_eq!(wire2["text"], "hello");

    // Finalization is terminal: a further response is discarded.
    let again = s.process_transcription(&resp(1, 0, 0, 1, "late")).unwrap();
    assert!(again.is_none());
    assert_eq!(s.transcript().unwrap(), "hello world");

    // The metadata JSON is written field for field.
    assert_eq!(
        out.metadata_json,
        "{\"language\":\"de\",\"uuid\":\"fixed-uuid\",\"resource\":null,\
         \"sample_rate\":16000,\"sequence_number\":2,\"updated_at\":1000,\
         \"created_at\":1000}"
    );
    assert_eq!(
        out.transcript_file.as_deref(),
        Some("recordings/fixed-uuid/fixed-uuid.txt")
    );
    assert_eq!(
        out.metadata_file.as_deref(),
        Some("recordings/fixed-uuid/metadata.json")
    );
    let v: serde_json::Value = serde_json::from_str(&out.metadata_json).unwrap();
    assert_eq!(v["uuid"], "fixed-uuid");
    assert_eq!(v["language"], "de");
    assert_eq!(v["sample_rate"], 16000);
    assert_eq!(v["sequence_number"], 2);
}

fn kind(r: &FrameResult) -> &'static str {
    match r {
        FrameResult::Ignored => "ignored",
        FrameResult::Buffered => "buffered",
        FrameResult::Cut(_) => "cut",
        FrameResult::Failed(_) => "failed",
    }
}

#[test]
fn a_fresh_uuid_is_minted_when_none_is_given() {
    let (tx, _rx) = crossbeam_channel::unbounded::<String>();
    let s = SessionData::new(3, tx, "de".to_string(), 16000, None, None, None, 0);
    assert_eq!(s.uuid.len(), 36);
    let hyphens: Vec<usize> = s.uuid.char_indices().filter(|(_, c)| *c == '-').map(|(i, _)| i).collect();
    assert_eq!(hyphens, vec![8, 13, 18, 23]);
    assert!(s.recording_file.is_none());
    assert!(s.valid);
}

#[test]
fn zero_audio_session_produces_nothing() {
    let queue = TranslationQueue::new().unwrap();
    let mut handle = queue.clone_handle();
    let job_rx = handle.take_receiver().unwrap();
    let (mut s, _out_rx) = new_session(16000);
    match s.mark_session_for_closure(&queue) {
        CloseOutcome::NeverUsed => {},
        _ => panic!("expected the never-used path"),
    }
    assert!(!s.valid);
    assert_eq!(s.send_uuid(), Err(Error::NotFound));
    assert!(job_rx.try_recv().is_err());
    assert_eq!(s.last_sequence, None);
}

#[test]
fn silence_only_session_accumulates_silence_and_still_enqueues() {
    let queue = TranslationQueue::new().unwrap();
    let mut handle = queue.clone_handle();
    let job_rx = handle.take_receiver().unwrap();
    let (mut s, _out_rx) = new_session(1000);
    let silence = vec![0.0f32; 1000];
    for expected in [1000usize, 2000, 3000] {
        match s.user_message(&queue, &frame_bytes(&silence)) {
            FrameResult::Cut(payload) => assert_eq!(payload.len(), 1000),
            _ => panic!("expected the minimum-chunk cut"),
        }
        assert_eq!(s.silence_length, expected);
    }
    assert_eq!(s.sequence_number, 3);
    for seq in 0..3 {
        assert_eq!(job_rx.recv().unwrap().sequence_number, seq);
    }
}

#[test]
fn speech_cut_resets_the_silence_account() {
    let queue = TranslationQueue::new().unwrap();
    let (mut s, _out_rx) = new_session(1000);
    let silence = vec![0.0f32; 1000];
    match s.user_message(&queue, &frame_bytes(&silence)) {
        FrameResult::Cut(_) => {},
        _ => panic!("expected a cut"),
    }
    assert_eq!(s.silence_length, 1000);
    let speech = vec![0.5f32; 3000];
    match s.user_message(&queue, &frame_bytes(&speech)) {
        FrameResult::Cut(payload) => assert_eq!(payload.len(), 3000),
        _ => panic!("expected the long-buffer cut"),
    }
    assert_eq!(s.silence_length, 0);
}

#[test]
fn close_before_any_response_then_finalize_on_last_response() {
    let queue = TranslationQueue::new().unwrap();
    let (mut s, _out_rx) = new_session(1000);
    let silence = vec![0.0f32; 1000];
    s.user_message(&queue, &frame_bytes(&silence));
    match s.mark_session_for_closure(&queue) {
        CloseOutcome::Flushed(_, accepted) => assert!(accepted),
        _ => panic!("expected a flush"),
    }
    assert_eq!(s.last_sequence, Some(1));
    assert!(s.valid);
    assert!(s.process_transcription(&resp(1, 0, 0, 1, "eins")).unwrap().is_none());
    let out = s.process_transcription(&resp(1, 1, 0, 1, "zwei")).unwrap();
    assert_eq!(out.expect("finalization must fire").transcript, "eins zwei");
    assert!(!s.valid);
}

#[test]
fn missing_response_leaves_session_incomplete_and_unwritten() {
    // Three chunks; the recognizer never answers for chunk 1.
    let queue = TranslationQueue::new().unwrap();
    let (mut s, _out_rx) = new_session(1000);
    let silence = vec![0.0f32; 1000];
    s.user_message(&queue, &frame_bytes(&silence));
    s.user_message(&queue, &frame_bytes(&silence));
    match s.mark_session_for_closure(&queue) {
        CloseOutcome::Flushed(_, _) => {},
        _ => panic!("expected a flush"),
    }
    assert_eq!(s.last_sequence, Some(2));
    assert!(s.process_transcription(&resp(1, 0, 0, 1, "a")).unwrap().is_none());
    assert!(s.process_transcription(&resp(1, 2, 0, 1, "c")).unwrap().is_none());
    assert_eq!(s.get_translation_count().unwrap(), 2);
    // Completion needs all three chunks: no transcript reaches disk.
}

#[test]
fn frames_after_close_are_ignored() {
    let queue = TranslationQueue::new().unwrap();
    let (mut s, _out_rx) = new_session(1000);
    let silence = vec![0.0f32; 1000];
    s.user_message(&queue, &frame_bytes(&silence));
    s.mark_session_for_closure(&queue);
    let before = s.sequence_number;
    match s.user_message(&queue, &frame_bytes(&silence)) {
        FrameResult::Ignored => {},
        _ => panic!("a closed session must not take audio"),
    }
    assert_eq!(s.sequence_number, before);
}

#[test]
fn closing_twice_changes_nothing() {
    let queue = TranslationQueue::new().unwrap();
    let (mut s, _out_rx) = new_session(1000);
    let silence = vec![0.0f32; 1000];
    s.user_message(&queue, &frame_bytes(&silence));
    s.mark_session_for_closure(&queue);
    let last = s.last_sequence;
    let seq = s.sequence_number;
    match s.mark_session_for_closure(&queue) {
        CloseOutcome::AlreadyClosed => {},
        _ => panic!("a second close must be a no-op"),
    }
    assert_eq!(s.last_sequence, last);
    assert_eq!(s.sequence_number, seq);
}

#[test]
fn queue_refusal_invalidates_the_session() {
    let mut queue = TranslationQueue::new().unwrap();
    let job_rx = queue.take_receiver().unwrap();
    drop(job_rx);
    let (mut s, _out_rx) = new_session(1000);
    assert_eq!(
        queue.enqueue(chunkstream::translate::TranslationRequest {
            session_id: 1,
            sequence_number: 0,
            payload: vec![],
            lang: "de".to_string(),
        }),
        Err(Error::QueueClosed)
    );
    let silence = vec![0.0f32; 1000];
    match s.user_message(&queue, &frame_bytes(&silence)) {
        FrameResult::Failed(payload) => assert_eq!(payload.len(), 1000),
        _ => panic!("the refused enqueue must surface"),
    }
    assert!(!s.valid);
    assert_eq!(s.sequence_number, 0);
}

#[test]
fn uuid_message_escapes_its_text() {
    assert_eq!(uuid_message("abc"), "{\"uuid\":\"abc\"}");
    assert_eq!(uuid_message("a\"b\\c\nd"), "{\"uuid\":\"a\\\"b\\\\c\\nd\"}");
    let v: serde_json::Value = serde_json::from_str(&uuid_message("a\"b\\c\nd")).unwrap();
    assert_eq!(v["uuid"], "a\"b\\c\nd");
}

#[test]
fn restored_session_round_trips_identity_and_transcript() {
    let s = SessionData::restored_session(
        9,
        "de".to_string(),
        "old-uuid".to_string(),
        Some("res".to_string()),
        16000,
        2,
        500,
        900,
        Some("hello world"),
        "recordings",
    );
    assert!(!s.valid);
    assert_eq!(s.uuid, "old-uuid");
    assert_eq!(s.language, "de");
    assert_eq!(s.created_at, 500);
    assert_eq!(s.updated_at, 900);
    assert_eq!(s.last_sequence, Some(1));
    assert_eq!(s.sequence_number, 2);
    assert_eq!(s.transcript().unwrap(), "hello world");
    let st = s.status().unwrap();
    assert_eq!(st.transcription_job_count, 2);
    assert_eq!(st.transcription_completed_count, 2);
    assert_eq!(
        s.recording_file.as_deref(),
        Some("recordings/old-uuid/old-uuid.wav")
    );
    assert_eq!(
        s.transcript_file.as_deref(),
        Some("recordings/old-uuid/old-uuid.txt")
    );
    assert_eq!(
        s.metadata_file.as_deref(),
        Some("recordings/old-uuid/metadata.json")
    );
}

#[test]
fn restart_after_finalize_restores_status_and_transcript() {
    // Run the happy path, persist its metadata JSON, restart from it.
    let queue = TranslationQueue::new().unwrap();
    let (mut s, _out_rx) = new_session(16000);
    let speech = vec![0.5f32; 48000];
    s.user_message(&queue, &frame_bytes(&speech));
    let tail = vec![0.5f32; 32000];
    s.user_message(&queue, &frame_bytes(&tail));
    s.mark_session_for_closure(&queue);
    s.process_transcription(&resp(1, 1, 0, 1, "world")).unwrap();
    let out = s.process_transcription(&resp(1, 0, 0, 1, "hello")).unwrap().unwrap();

    let v: serde_json::Value = serde_json::from_str(&out.metadata_json).unwrap();
    let restored = SessionData::restored_session(
        0,
        v["language"].as_str().unwrap().to_string(),
        v["uuid"].as_str().unwrap().to_string(),
        None,
        v["sample_rate"].as_u64().unwrap() as u32,
        v["sequence_number"].as_u64().unwrap() as usize,
        v["created_at"].as_i64().unwrap(),
        v["updated_at"].as_i64().unwrap(),
        Some(&out.transcript),
        "recordings",
    );
    let st = restored.status().unwrap();
    assert_eq!(st.uuid, "fixed-uuid");
    assert_eq!(st.language, "de");
    assert_eq!(st.transcription_job_count, 2);
    assert_eq!(st.transcription_completed_count, 2);
    assert_eq!(restored.transcript().unwrap(), "hello world");
    assert_eq!(restored.created_at, s.created_at);
    assert_eq!(restored.updated_at, s.updated_at);
}

#[test]
fn status_during_streaming_counts_jobs_and_completions() {
    let queue = TranslationQueue::new().unwrap();
    let (mut s, _out_rx) = new_session(1000);
    let silence = vec![0.0f32; 1000];
    for _ in 0..4 {
        s.user_message(&queue, &frame_bytes(&silence));
    }
    s.process_transcription(&resp(1, 0, 0, 1, "a")).unwrap();
    s.process_transcription(&resp(1, 1, 0, 1, "b")).unwrap();
    let st = s.status().unwrap();
    assert_eq!(st.transcription_job_count, 4);
    assert_eq!(st.transcription_completed_count, 2);
}
