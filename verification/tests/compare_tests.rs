use chunkstream::compare::changes;
use chunkstream::compare::get_comparison;
use chunkstream::error::Error;
use chunkstream::metadata::Metadata;
use chunkstream::queue::TranslationQueue;
use chunkstream::queue::dispatch_request;
use chunkstream::text::path_join;
use chunkstream::text::u64_to_string;
use chunkstream::translate::TranslationRequest;
use chunkstream::translate::Translator;

#[test]
fn identical_texts_diff_to_equal_steps_only() {
    let cs = changes("hello world", "hello world").unwrap();
    assert!(!cs.is_empty());
    let mut glued = String::new();
    for c in &cs {
        assert_eq!(c.change_type, "equal");
        glued.push_str(&c.content);
    }
    assert_eq!(glued, "hello world");
}

#[test]
fn differing_texts_carry_deletes_and_inserts() {
    let cs = changes("guten tag welt", "guten tag mond").unwrap();
    assert!(cs.iter().any(|c| c.change_type == "equal"));
    assert!(cs.iter().any(|c| c.change_type == "delete" && c.content == "welt"));
    assert!(cs.iter().any(|c| c.change_type == "insert" && c.content == "mond"));
    for c in &cs {
        assert!(matches!(c.change_type.as_str(), "equal" | "delete" | "insert"));
    }
}

#[test]
fn comparison_carries_its_identifiers() {
    let c = get_comparison("res", "some-uuid", "en");
    assert_eq!(c.resource, "res");
    assert_eq!(c.uuid, "some-uuid");
    assert_eq!(c.lang, "en");
}

#[test]
fn metadata_lookup_finds_the_first_matching_language() {
    let m = Metadata {
        name: "n".to_string(),
        description: String::new(),
        url: "u".to_string(),
        license: "l".to_string(),
        audio: "a.mp3".to_string(),
        skip: 0,
        native: "de".to_string(),
        transcript: None,
        translations: vec![
            ("en".to_string(), "en.txt".to_string()),
            ("fr".to_string(), "fr.txt".to_string()),
            ("en".to_string(), "en2.txt".to_string()),
        ],
        enclosing_directory: "assets/n".to_string(),
    };
    assert_eq!(m.translation_for(&"en".to_string()), Some(&"en.txt".to_string()));
    assert_eq!(m.translation_for(&"fr".to_string()), Some(&"fr.txt".to_string()));
    assert_eq!(m.translation_for(&"es".to_string()), None);
}

#[test]
fn decimal_rendering_is_exact() {
    assert_eq!(u64_to_string(0), "0");
    assert_eq!(u64_to_string(7), "7");
    assert_eq!(u64_to_string(1234567890), "1234567890");
    assert_eq!(u64_to_string(u64::MAX), "18446744073709551615");
}

#[test]
fn path_join_uses_single_slashes() {
    assert_eq!(path_join("recordings", "abc"), "recordings/abc");
    assert_eq!(path_join("", "x"), "/x");
}

#[test]
fn error_labels_are_stable() {
    assert_eq!(Error::IO.describe(), "io error");
    assert_eq!(Error::Decode.describe(), "decode error");
    assert_eq!(Error::NotFound.describe(), "not found");
    assert_eq!(Error::QueueClosed.describe(), "queue closed");
    assert_eq!(Error::RecognizerFailure.describe(), "recognizer failure");
}

struct CountingRecognizer {
    calls: std::cell::Cell<usize>,
    fail: bool,
}

impl Translator for CountingRecognizer {
    fn translate(&self, _request: TranslationRequest) -> Result<(), Error> {
        self.calls.set(self.calls.get() + 1);
        if self.fail {
            Err(Error::RecognizerFailure)
        } else {
            Ok(())
        }
    }
}

fn request(seq: usize) -> TranslationRequest {
    TranslationRequest {
        session_id: 1,
        sequence_number: seq,
        payload: vec![0, 1, 2],
        lang: "de".to_string(),
    }
}

#[test]
fn dispatch_skips_invalidated_sessions() {
    let t = CountingRecognizer { calls: std::cell::Cell::new(0), fail: false };
    assert_eq!(dispatch_request(&t, request(0), false), Ok(false));
    assert_eq!(t.calls.get(), 0);
    assert_eq!(dispatch_request(&t, request(0), true), Ok(true));
    assert_eq!(t.calls.get(), 1);
}

#[test]
fn dispatch_passes_the_recognizer_verdict_through() {
    let t = CountingRecognizer { calls: std::cell::Cell::new(0), fail: true };
    assert_eq!(dispatch_request(&t, request(0), true), Err(Error::RecognizerFailure));
}

#[test]
fn the_queue_hands_requests_out_in_enqueue_order() {
    let queue = TranslationQueue::new().unwrap();
    let mut handle = queue.clone_handle();
    let rx = handle.take_receiver().unwrap();
    for seq in 0..3 {
        queue.enqueue(request(seq)).unwrap();
    }
    for seq in 0..3 {
        assert_eq!(rx.recv().unwrap().sequence_number, seq);
    }
}
