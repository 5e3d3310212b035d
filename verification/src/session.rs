use vstd::prelude::*;
use vstd::string::*;
use crate::error::E;
use crate::error::Error;
use crate::queue::TranslationQueue;
use crate::queue::channel_send;
use crate::sample::decoded_samples;
use crate::sample::decode_samples;
use crate::segment::find_silence;
use crate::segment::find_silence_spec;
use crate::segment::min_chunk_samples;
use crate::segment::valid_rate;
use crate::segment::SEND_SAMPLE_MINIMUM_TIME_SECONDS;
use crate::text::append_json_quoted;
use crate::text::dec_digits;
use crate::text::json_quoted;
use crate::text::path_join;
use crate::text::path_joined;
use crate::text::u64_to_string;
use crate::translate::TranslationRequest;
use crate::translate::TranslationResponse;
use crate::translate::TranslationResponses;
use crate::translate::insert_response;
use crate::translate::is_final_response;
use crate::translate::response_message;
use crate::translate::transcript_of;

verus! {

// The per-connection session record and its life: buffer growth,
// silence cuts, the strictly monotonic chunk sequence, end-of-stream,
// response integration, finalization, and reconstruction from disk.

/// Upper bound on the timestamps the layer accepts, far beyond any
/// realistic clock, so that second arithmetic never overflows.
pub const TIMESTAMP_BOUND: i64 = 0x4000000000000000;

/// The integers `0, 1, ..., n - 1` in order.
pub open spec fn seq_range(n: int) -> Seq<int> {
    Seq::new(n as nat, |i: int| i)
}

/// Relies on `uuid::Uuid::new_v4` and its hyphenated `Display` form: a
/// fresh random UUID rendered as its 36-character text.
#[verifier::external_body]
fn fresh_uuid() -> (r: String)
    ensures
        r@.len() == 36,
{
    uuid::Uuid::new_v4().to_string()
}

/// What `GET /status` reports about a session.
pub struct Status {
    pub language: String,
    pub uuid: String,
    pub resource: Option<String>,
    pub sample_rate: u32,
    pub transcription_job_count: usize,
    pub transcription_completed_count: usize,
}

/// What finalization asks the caller to persist: the transcript text
/// and the metadata JSON, each with its destination path when the
/// session has one.
pub struct FinalizeOutput {
    pub transcript_file: Option<String>,
    pub transcript: String,
    pub metadata_file: Option<String>,
    pub metadata_json: String,
}

/// Per-connection state: audio buffer, sequence counters, persistence
/// paths, completed translations, lifecycle flags.
pub struct SessionData {
    /// Process-local identifier, assigned monotonically by the caller.
    pub id: usize,
    /// Outbound channel towards the client socket; absent after closure.
    pub transcription_sender_tx: Option<crossbeam_channel::Sender<String>>,
    pub language: String,
    /// Stable identifier used on the wire and on disk.
    pub uuid: String,
    pub resource: Option<String>,
    pub sample_rate: u32,
    /// False once the session stops accepting new chunks; never returns
    /// to true.
    pub valid: bool,
    /// Live audio buffer, one 32-bit sample bit pattern per element.
    pub buffer: Vec<u32>,
    /// Silent samples accumulated at the tail across silence cuts.
    pub silence_length: usize,
    /// Next chunk index to emit.
    pub sequence_number: usize,
    /// Index of the last chunk that will ever be emitted, set at
    /// end-of-stream.
    pub last_sequence: Option<usize>,
    pub recording: bool,
    pub recording_file: Option<String>,
    pub transcript_file: Option<String>,
    pub metadata_file: Option<String>,
    pub translations: TranslationResponses,
    pub updated_at: i64,
    pub created_at: i64,
    /// The sequence numbers of the requests this session has handed to
    /// the queue, in order.
    pub enqueued: Ghost<Seq<int>>,
}

/// The fields no session transition may touch.
pub open spec fn identity_unchanged(pre: SessionData, post: SessionData) -> bool {
    &&& post.id == pre.id
    &&& post.language == pre.language
    &&& post.uuid == pre.uuid
    &&& post.resource == pre.resource
    &&& post.sample_rate == pre.sample_rate
    &&& post.recording == pre.recording
    &&& post.recording_file == pre.recording_file
    &&& post.transcript_file == pre.transcript_file
    &&& post.metadata_file == pre.metadata_file
    &&& post.created_at == pre.created_at
}

/// The on-disk home of a session's recording.
pub open spec fn recording_path_spec(dir: Seq<char>, uuid: Seq<char>) -> Seq<char> {
    path_joined(path_joined(dir, uuid), uuid + ".wav"@)
}

/// The on-disk home of a session's transcript.
pub open spec fn transcript_path_spec(dir: Seq<char>, uuid: Seq<char>) -> Seq<char> {
    path_joined(path_joined(dir, uuid), uuid + ".txt"@)
}

/// The on-disk home of a session's metadata.
pub open spec fn metadata_path_spec(dir: Seq<char>, uuid: Seq<char>) -> Seq<char> {
    path_joined(path_joined(dir, uuid), "metadata.json"@)
}

/// The metadata JSON persisted beside a recording.
pub open spec fn metadata_json_spec(s: SessionData) -> Seq<char> {
    "{\"language\":"@ + json_quoted(s.language@)
        + ",\"uuid\":"@ + json_quoted(s.uuid@)
        + ",\"resource\":"@ + (match s.resource {
            Some(r) => json_quoted(r@),
            None => "null"@,
        })
        + ",\"sample_rate\":"@ + dec_digits(s.sample_rate as int)
        + ",\"sequence_number\":"@ + dec_digits(s.sequence_number as int)
        + ",\"updated_at\":"@ + dec_digits(s.updated_at as int)
        + ",\"created_at\":"@ + dec_digits(s.created_at as int)
        + "}"@
}

/// The first message on the wire after the socket upgrade.
pub open spec fn uuid_message_spec(u: Seq<char>) -> Seq<char> {
    "{\"uuid\":"@ + json_quoted(u) + "}"@
}

/// Renders the greeting message carrying the session's UUID.
pub fn uuid_message(uuid: &str) -> (r: String)
    ensures
        r@ == uuid_message_spec(uuid@),
{
    let mut out = String::from_str("{\"uuid\":");
    append_json_quoted(&mut out, uuid);
    out.append("}");
    proof {
        assert(out@ =~= uuid_message_spec(uuid@));
    }
    out
}

/// A session after finalization: it accepts nothing further and its
/// outbound channel is gone; everything else stands.
pub open spec fn finalized(s: SessionData) -> SessionData {
    SessionData { valid: false, transcription_sender_tx: None, ..s }
}

/// What one inbound frame does to a session.
pub enum FrameResult {
    /// The session no longer takes audio; the frame fell on the floor.
    Ignored,
    /// The frame joined the buffer; no cut yet.
    Buffered,
    /// A chunk was cut and enqueued; the payload is handed back for the
    /// caller to append to the recording.
    Cut(Vec<u32>),
    /// A chunk was cut but the queue refused it; the session is
    /// invalidated. The payload is still handed back, as it was already
    /// carved out of the stream.
    Failed(Vec<u32>),
}

/// What end-of-stream does to a session.
pub enum CloseOutcome {
    /// End-of-stream had already been processed; nothing changed.
    AlreadyClosed,
    /// The session never produced a chunk: no request, no files, just
    /// the channel dropped and the session invalidated.
    NeverUsed,
    /// The remaining buffer was flushed as the final chunk; the flag
    /// tells whether the queue accepted it.
    Flushed(Vec<u32>, bool),
}

impl SessionData {
    /// Internal consistency: an accepted rate, a well-formed response
    /// collection, sane counters and timestamps, and a ghost enqueue
    /// log that is exactly the gap-free prefix the counters promise.
    pub open spec fn wf(&self) -> bool {
        &&& valid_rate(self.sample_rate)
        &&& self.translations.wf()
        &&& 0 <= self.created_at < TIMESTAMP_BOUND
        &&& 0 <= self.updated_at < TIMESTAMP_BOUND
        &&& match self.last_sequence {
            None => self.sequence_number < usize::MAX
                && self.enqueued@ == seq_range(self.sequence_number as int),
            Some(l) => {
                &&& l < usize::MAX
                &&& self.sequence_number == l + 1
                &&& (self.enqueued@ == seq_range(l + 1) || self.enqueued@ == seq_range(l as int))
            },
        }
    }

    /// A frame can feed the pipeline only on a session that is valid,
    /// still has its outbound channel, has not seen end-of-stream, and
    /// has not exhausted the sequence counter.
    pub open spec fn accepts_frames(&self) -> bool {
        &&& self.valid
        &&& self.transcription_sender_tx is Some
        &&& self.last_sequence is None
        &&& self.sequence_number < usize::MAX - 1
    }

    /// A fresh record for a newly upgraded socket. The caller supplies
    /// the storage directory only when it exists on disk; the record
    /// then knows its three file homes. Without a UUID a fresh one is
    /// minted.
    pub fn new(
        id: usize,
        transcription_sender_tx: crossbeam_channel::Sender<String>,
        language: String,
        sample_rate: u32,
        resource: Option<String>,
        uuid: Option<String>,
        storage_dir: Option<&str>,
        now: i64,
    ) -> (s: SessionData)
        requires
            valid_rate(sample_rate),
            0 <= now < TIMESTAMP_BOUND,
        ensures
            s.wf(),
            s.id == id,
            s.language == language,
            s.sample_rate == sample_rate,
            s.resource == resource,
            uuid matches Some(u) ==> s.uuid == u,
            uuid is None ==> s.uuid@.len() == 36,
            s.valid,
            s.transcription_sender_tx is Some,
            s.buffer@.len() == 0,
            s.silence_length == 0,
            s.sequence_number == 0,
            s.last_sequence is None,
            s.translations@.len() == 0,
            s.enqueued@ == seq_range(0),
            s.created_at == now,
            s.updated_at == now,
            storage_dir is None ==> !s.recording && s.recording_file is None
                && s.transcript_file is None && s.metadata_file is None,
            storage_dir matches Some(d) ==> s.recording
                && (s.recording_file matches Some(p) && p@ == recording_path_spec(d@, s.uuid@))
                && (s.transcript_file matches Some(p) && p@ == transcript_path_spec(d@, s.uuid@))
                && (s.metadata_file matches Some(p) && p@ == metadata_path_spec(d@, s.uuid@)),
    {
        let uuid = match uuid {
            Some(u) => u,
            None => fresh_uuid(),
        };
        let mut recording_file: Option<String> = None;
        let mut transcript_file: Option<String> = None;
        let mut metadata_file: Option<String> = None;
        let recording = storage_dir.is_some();
        if let Some(d) = storage_dir {
            let sdir = path_join(d, uuid.as_str());
            let wav = uuid.clone().concat(".wav");
            let txt = uuid.clone().concat(".txt");
            recording_file = Some(path_join(sdir.as_str(), wav.as_str()));
            transcript_file = Some(path_join(sdir.as_str(), txt.as_str()));
            metadata_file = Some(path_join(sdir.as_str(), "metadata.json"));
            proof {
                assert(recording_file matches Some(p) && p@ =~= recording_path_spec(d@, uuid@));
                assert(transcript_file matches Some(p) && p@ =~= transcript_path_spec(d@, uuid@));
                assert(metadata_file matches Some(p) && p@ =~= metadata_path_spec(d@, uuid@));
            }
        }
        let s = SessionData {
            id,
            transcription_sender_tx: Some(transcription_sender_tx),
            language,
            uuid,
            resource,
            sample_rate,
            valid: true,
            buffer: Vec::new(),
            silence_length: 0,
            sequence_number: 0,
            last_sequence: None,
            recording,
            recording_file,
            transcript_file,
            metadata_file,
            translations: TranslationResponses::new(),
            updated_at: now,
            created_at: now,
            enqueued: Ghost(Seq::empty()),
        };
        proof {
            assert(s.enqueued@ =~= seq_range(0));
        }
        s
    }

    /// A record rebuilt from persisted metadata on startup: invalid,
    /// with an empty buffer, its counters as persisted, and its
    /// translations reconstructed from the persisted transcript so the
    /// transcript reads back unchanged. Without a persisted transcript
    /// a placeholder text stands in.
    pub fn restored_session(
        id: usize,
        language: String,
        uuid: String,
        resource: Option<String>,
        sample_rate: u32,
        sequence_number: usize,
        created_at: i64,
        updated_at: i64,
        transcript: Option<&str>,
        storage_dir: &str,
    ) -> (s: SessionData)
        requires
            valid_rate(sample_rate),
            1 <= sequence_number < usize::MAX,
            0 <= created_at < TIMESTAMP_BOUND,
            0 <= updated_at < TIMESTAMP_BOUND,
        ensures
            s.wf(),
            s.id == id,
            s.language == language,
            s.uuid == uuid,
            s.resource == resource,
            s.sample_rate == sample_rate,
            !s.valid,
            s.transcription_sender_tx is None,
            s.buffer@.len() == 0,
            s.silence_length == 0,
            s.sequence_number == sequence_number,
            s.last_sequence == Some((sequence_number - 1) as usize),
            s.created_at == created_at,
            s.updated_at == updated_at,
            transcript matches Some(t) ==> transcript_of(s.translations@) == t@,
            transcript is None ==> transcript_of(s.translations@)
                == "transcript not found! This is probably a bug."@,
            s.recording_file matches Some(p) && p@ == recording_path_spec(storage_dir@, uuid@),
            s.transcript_file matches Some(p) && p@ == transcript_path_spec(storage_dir@, uuid@),
            s.metadata_file matches Some(p) && p@ == metadata_path_spec(storage_dir@, uuid@),
    {
        let translations = match transcript {
            Some(t) => TranslationResponses::new_from_string(t),
            None => TranslationResponses::new_from_string(
                "transcript not found! This is probably a bug.",
            ),
        };
        let sdir = path_join(storage_dir, uuid.as_str());
        let wav = uuid.clone().concat(".wav");
        let txt = uuid.clone().concat(".txt");
        let recording_file = Some(path_join(sdir.as_str(), wav.as_str()));
        let transcript_file = Some(path_join(sdir.as_str(), txt.as_str()));
        let metadata_file = Some(path_join(sdir.as_str(), "metadata.json"));
        proof {
            assert(recording_file matches Some(p) && p@ =~= recording_path_spec(storage_dir@, uuid@));
            assert(transcript_file matches Some(p) && p@ =~= transcript_path_spec(storage_dir@, uuid@));
            assert(metadata_file matches Some(p) && p@ =~= metadata_path_spec(storage_dir@, uuid@));
        }
        let last: usize = sequence_number - 1;
        let s = SessionData {
            id,
            transcription_sender_tx: None,
            language,
            uuid,
            resource,
            sample_rate,
            valid: false,
            buffer: Vec::new(),
            silence_length: 0,
            sequence_number,
            last_sequence: Some(last),
            recording: false,
            recording_file,
            transcript_file,
            metadata_file,
            translations,
            updated_at,
            created_at,
            enqueued: Ghost(seq_range(last as int)),
        };
        s
    }

    /// Sends the UUID greeting to the client.
    pub fn send_uuid(&self) -> (r: E<()>)
        ensures
            self.transcription_sender_tx is None ==> r == Err::<(), Error>(Error::NotFound),
            self.transcription_sender_tx is Some ==> (r is Ok || r == Err::<(), Error>(Error::IO)),
    {
        match &self.transcription_sender_tx {
            None => Err(Error::NotFound),
            Some(tx) => {
                let msg = uuid_message(self.uuid.as_str());
                match channel_send(tx, msg) {
                    Ok(()) => Ok(()),
                    Err(_) => Err(Error::IO),
                }
            },
        }
    }

    /// The transcript so far, chunk-ordered.
    pub fn transcript(&self) -> (r: E<String>)
        ensures
            r matches Ok(t) && t@ == transcript_of(self.translations@),
    {
        Ok(self.translations.to_string())
    }

    /// How many chunks have completed translation.
    pub fn get_translation_count(&self) -> (r: E<usize>)
        requires
            self.wf(),
        ensures
            r matches Ok(c) && c == self.translations@.filter(
                |t: TranslationResponse| is_final_response(t),
            ).len(),
    {
        self.translations.translation_count()
    }

    /// What `GET /status` reports: identity plus the number of jobs
    /// emitted so far and the number of completed chunks.
    pub fn status(&self) -> (r: E<Status>)
        requires
            self.wf(),
        ensures
            r matches Ok(st) && st.language == self.language && st.uuid == self.uuid
                && st.resource == self.resource && st.sample_rate == self.sample_rate
                && st.transcription_job_count == self.sequence_number
                && st.transcription_completed_count
                    == self.translations@.filter(|t: TranslationResponse| is_final_response(t)).len(),
    {
        let count = match self.translations.translation_count() {
            Ok(c) => c,
            Err(_) => 0,
        };
        let resource = match &self.resource {
            Some(x) => Some(x.clone()),
            None => None,
        };
        Ok(Status {
            language: self.language.clone(),
            uuid: self.uuid.clone(),
            resource,
            sample_rate: self.sample_rate,
            transcription_job_count: self.sequence_number,
            transcription_completed_count: count,
        })
    }

    /// The metadata JSON persisted beside the recording.
    pub fn metadata_json(&self) -> (r: String)
        requires
            0 <= self.created_at,
            0 <= self.updated_at,
        ensures
            r@ == metadata_json_spec(*self),
    {
        let mut s = String::from_str("{\"language\":");
        append_json_quoted(&mut s, self.language.as_str());
        s.append(",\"uuid\":");
        append_json_quoted(&mut s, self.uuid.as_str());
        s.append(",\"resource\":");
        match &self.resource {
            Some(res) => append_json_quoted(&mut s, res.as_str()),
            None => s.append("null"),
        }
        s.append(",\"sample_rate\":");
        let d0 = u64_to_string(self.sample_rate as u64);
        s.append(d0.as_str());
        s.append(",\"sequence_number\":");
        let d1 = u64_to_string(self.sequence_number as u64);
        s.append(d1.as_str());
        s.append(",\"updated_at\":");
        let d2 = u64_to_string(self.updated_at as u64);
        s.append(d2.as_str());
        s.append(",\"created_at\":");
        let d3 = u64_to_string(self.created_at as u64);
        s.append(d3.as_str());
        s.append("}");
        proof {
            assert(s@ =~= metadata_json_spec(*self));
        }
        s
    }

    /// Finalization: compute what must reach the disk, invalidate the
    /// session, drop the outbound channel. Repeating it changes nothing
    /// further and computes the same outputs again.
    pub fn finalize_session(&mut self) -> (out: FinalizeOutput)
        requires
            old(self).wf(),
        ensures
            final(self).wf(),
            *final(self) == finalized(*old(self)),
            out.transcript_file == old(self).transcript_file,
            out.transcript@ == transcript_of(old(self).translations@),
            out.metadata_file == old(self).metadata_file,
            out.metadata_json@ == metadata_json_spec(*old(self)),
    {
        let transcript = self.translations.to_string();
        let metadata_json = self.metadata_json();
        let transcript_file = match &self.transcript_file {
            Some(p) => Some(p.clone()),
            None => None,
        };
        let metadata_file = match &self.metadata_file {
            Some(p) => Some(p.clone()),
            None => None,
        };
        self.transcription_sender_tx = None;
        self.valid = false;
        FinalizeOutput { transcript_file, transcript, metadata_file, metadata_json }
    }

    /// One inbound binary frame: decode its samples, grow the buffer,
    /// and when the segmenter finds a pivot, carve the chunk out,
    /// enqueue it under the next sequence number, and adjust the
    /// silence account. The relation between the states before and
    /// after is `frame_transition`; in particular no sample is ever
    /// lost or duplicated between the buffer and the emitted payload.
    pub fn user_message(&mut self, queue: &TranslationQueue, data: &Vec<u8>) -> (r: FrameResult)
        requires
            old(self).wf(),
        ensures
            final(self).wf(),
            frame_transition(*old(self), *final(self), decoded_samples(data@), r),
    {
        if !(self.valid && self.transcription_sender_tx.is_some() && self.last_sequence.is_none()
            && self.sequence_number < usize::MAX - 1)
        {
            return FrameResult::Ignored;
        }
        let mut samples = decode_samples(data);
        self.buffer.append(&mut samples);
        let pivot = match find_silence(&self.buffer, self.sample_rate) {
            None => {
                return FrameResult::Buffered;
            },
            Some(p) => p,
        };
        let payload = copy_range(&self.buffer, pivot);
        let queue_payload = copy_range(&self.buffer, pivot);
        let request = TranslationRequest {
            session_id: self.id,
            sequence_number: self.sequence_number,
            payload: queue_payload,
            lang: self.language.clone(),
        };
        match queue.enqueue(request) {
            Ok(_) => {
                let min_chunk = SEND_SAMPLE_MINIMUM_TIME_SECONDS * (self.sample_rate as usize);
                if pivot == min_chunk {
                    self.silence_length = if self.silence_length <= usize::MAX - pivot {
                        self.silence_length + pivot
                    } else {
                        usize::MAX
                    };
                } else {
                    self.silence_length = 0;
                }
                let tail = self.buffer.split_off(pivot);
                self.buffer = tail;
                let ghost emitted = self.sequence_number as int;
                self.sequence_number = self.sequence_number + 1;
                self.enqueued = Ghost(self.enqueued@.push(emitted));
                proof {
                    let combined = old(self).buffer@ + decoded_samples(data@);
                    assert(self.enqueued@ =~= seq_range(self.sequence_number as int));
                    assert(self.buffer@ =~= combined.skip(pivot as int));
                    assert(payload@ + self.buffer@ =~= combined);
                }
                FrameResult::Cut(payload)
            },
            Err(_) => {
                self.transcription_sender_tx = None;
                self.valid = false;
                FrameResult::Failed(payload)
            },
        }
    }

    /// End-of-stream: flush whatever the buffer holds as the final
    /// chunk, pin `last_sequence`, and reserve the sequence counter's
    /// next value as a sentinel. A session that never produced a chunk
    /// just loses its channel and its validity; a session already
    /// closed is left alone.
    pub fn mark_session_for_closure(&mut self, queue: &TranslationQueue) -> (r: CloseOutcome)
        requires
            old(self).wf(),
        ensures
            final(self).wf(),
            close_transition(*old(self), *final(self), r),
    {
        if self.last_sequence.is_some() {
            return CloseOutcome::AlreadyClosed;
        }
        if self.sequence_number == 0 {
            self.transcription_sender_tx = None;
            self.valid = false;
            return CloseOutcome::NeverUsed;
        }
        let payload = copy_range(&self.buffer, self.buffer.len());
        let queue_payload = copy_range(&self.buffer, self.buffer.len());
        let request = TranslationRequest {
            session_id: self.id,
            sequence_number: self.sequence_number,
            payload: queue_payload,
            lang: self.language.clone(),
        };
        let accepted = queue.enqueue(request).is_ok();
        let last = self.sequence_number;
        self.buffer = Vec::new();
        self.last_sequence = Some(last);
        self.sequence_number = last + 1;
        if accepted {
            let ghost emitted = last as int;
            self.enqueued = Ghost(self.enqueued@.push(emitted));
            proof {
                assert(self.enqueued@ =~= seq_range(last + 1));
            }
        }
        proof {
            assert(payload@ =~= old(self).buffer@);
        }
        CloseOutcome::Flushed(payload, accepted)
    }

    /// Integrates one recognizer response: push it to the client, file
    /// it under its chunk, and when the response completes the last
    /// chunk of a closed session, finalize. A response for an invalid
    /// session is discarded; a malformed or contradictory response is
    /// refused and changes nothing.
    pub fn process_transcription(&mut self, response: &TranslationResponse) -> (r: E<
        Option<FinalizeOutput>,
    >)
        requires
            old(self).wf(),
        ensures
            final(self).wf(),
            integrate_transition(*old(self), *final(self), *response, r),
    {
        if !self.valid {
            return Ok(None);
        }
        if let Some(tx) = &self.transcription_sender_tx {
            let msg = response_message(response);
            let _ = channel_send(tx, msg);
        }
        match self.translations.add_translation(response) {
            Err(e) => Err(e),
            Ok(()) => {
                if let Some(last) = self.last_sequence {
                    let is_final = response.segment_number == response.num_segments - 1;
                    if self.sequence_number >= last && is_final {
                        let count = match self.translations.translation_count() {
                            Ok(c) => c,
                            Err(_) => 0,
                        };
                        if count > last {
                            let out = self.finalize_session();
                            return Ok(Some(out));
                        }
                    }
                }
                Ok(None)
            },
        }
    }
}

/// The first `n` samples of a buffer, copied.
fn copy_range(v: &Vec<u32>, n: usize) -> (r: Vec<u32>)
    requires
        n <= v@.len(),
    ensures
        r@ == v@.take(n as int),
{
    let mut out: Vec<u32> = Vec::new();
    let mut i: usize = 0;
    while i < n
        invariant
            i <= n <= v@.len(),
            out@ == v@.take(i as int),
        decreases n - i,
    {
        out.push(v[i]);
        i = i + 1;
        proof {
            assert(out@ =~= v@.take(i as int));
        }
    }
    out
}

/// The silence account after a cut at `pivot`: a cut at exactly the
/// minimum-chunk pivot means the tail was silent, so the account grows
/// by the pivot (to the machine's limit); any other cut resets it.
pub open spec fn silence_after(old_len: int, pivot: int, rate: u32) -> int {
    if pivot == min_chunk_samples(rate) {
        if old_len + pivot <= usize::MAX {
            old_len + pivot
        } else {
            usize::MAX as int
        }
    } else {
        0
    }
}

/// How one inbound frame relates the session states before and after.
pub open spec fn frame_transition(
    pre: SessionData,
    post: SessionData,
    samples: Seq<u32>,
    r: FrameResult,
) -> bool {
    let combined = pre.buffer@ + samples;
    let cut = find_silence_spec(combined, pre.sample_rate);
    &&& identity_unchanged(pre, post)
    &&& post.updated_at == pre.updated_at
    &&& post.translations@ == pre.translations@
    &&& match r {
        FrameResult::Ignored => !pre.accepts_frames() && post == pre,
        FrameResult::Buffered => {
            &&& pre.accepts_frames()
            &&& cut is None
            &&& post.buffer@ == combined
            &&& post.silence_length == pre.silence_length
            &&& post.sequence_number == pre.sequence_number
            &&& post.last_sequence is None
            &&& post.valid
            &&& post.transcription_sender_tx == pre.transcription_sender_tx
            &&& post.enqueued == pre.enqueued
        },
        FrameResult::Cut(persist) => {
            &&& pre.accepts_frames()
            &&& cut matches Some(p)
            &&& persist@ == combined.take(cut->Some_0)
            &&& post.buffer@ == combined.skip(cut->Some_0)
            &&& persist@ + post.buffer@ == pre.buffer@ + samples
            &&& post.silence_length == silence_after(
                pre.silence_length as int,
                cut->Some_0,
                pre.sample_rate,
            )
            &&& post.sequence_number == pre.sequence_number + 1
            &&& post.last_sequence is None
            &&& post.valid
            &&& post.transcription_sender_tx == pre.transcription_sender_tx
            &&& post.enqueued@ == pre.enqueued@.push(pre.sequence_number as int)
        },
        FrameResult::Failed(persist) => {
            &&& pre.accepts_frames()
            &&& cut matches Some(p)
            &&& persist@ == combined.take(cut->Some_0)
            &&& post.buffer@ == combined
            &&& !post.valid
            &&& post.transcription_sender_tx is None
            &&& post.silence_length == pre.silence_length
            &&& post.sequence_number == pre.sequence_number
            &&& post.last_sequence is None
            &&& post.enqueued == pre.enqueued
        },
    }
}

/// How end-of-stream relates the session states before and after.
pub open spec fn close_transition(pre: SessionData, post: SessionData, r: CloseOutcome) -> bool {
    &&& identity_unchanged(pre, post)
    &&& post.updated_at == pre.updated_at
    &&& post.translations@ == pre.translations@
    &&& match r {
        CloseOutcome::AlreadyClosed => pre.last_sequence is Some && post == pre,
        CloseOutcome::NeverUsed => {
            &&& pre.last_sequence is None
            &&& pre.sequence_number == 0
            &&& !post.valid
            &&& post.transcription_sender_tx is None
            &&& post.buffer == pre.buffer
            &&& post.silence_length == pre.silence_length
            &&& post.sequence_number == 0
            &&& post.last_sequence is None
            &&& post.enqueued == pre.enqueued
        },
        CloseOutcome::Flushed(persist, accepted) => {
            &&& pre.last_sequence is None
            &&& pre.sequence_number >= 1
            &&& persist@ == pre.buffer@
            &&& post.buffer@.len() == 0
            &&& post.last_sequence == Some(pre.sequence_number)
            &&& post.sequence_number == pre.sequence_number + 1
            &&& post.valid == pre.valid
            &&& post.transcription_sender_tx == pre.transcription_sender_tx
            &&& post.silence_length == pre.silence_length
            &&& (accepted ==> post.enqueued@ == pre.enqueued@.push(pre.sequence_number as int))
            &&& (!accepted ==> post.enqueued == pre.enqueued)
        },
    }
}

/// After end-of-stream on a session whose final flush was accepted, the
/// sequence numbers handed to the queue are exactly
/// `{0, 1, ..., last_sequence}`: no duplicate, no gap.
pub proof fn lemma_enqueued_gapless(s: SessionData)
    requires
        s.wf(),
        s.last_sequence matches Some(l),
        s.enqueued@.len() == s.last_sequence->Some_0 + 1,
    ensures
        forall|q: int| s.enqueued@.contains(q) <==> 0 <= q <= s.last_sequence->Some_0,
        s.enqueued@.no_duplicates(),
{
    let l = s.last_sequence->Some_0 as int;
    assert(s.enqueued@ == seq_range(l + 1));
    assert forall|q: int| 0 <= q <= l implies s.enqueued@.contains(q) by {
        assert(s.enqueued@[q] == q);
    }
}

/// Finalization is idempotent: finalizing an already-finalized session
/// leaves it exactly as it stands, and the transcript and metadata it
/// would write are the same again, since neither reads the fields that
/// finalization changes.
pub proof fn lemma_finalize_idempotent(s: SessionData)
    ensures
        finalized(finalized(s)) == finalized(s),
        !finalized(s).valid,
        finalized(s).transcription_sender_tx is None,
        transcript_of(finalized(s).translations@) == transcript_of(s.translations@),
        metadata_json_spec(finalized(s)) == metadata_json_spec(s),
        finalized(s).transcript_file == s.transcript_file,
        finalized(s).metadata_file == s.metadata_file,
{
}

/// Completion: the last chunk is known, this response closes a chunk,
/// and with it every chunk up to the last one is complete.
pub open spec fn should_finalize(s: SessionData, resp: TranslationResponse) -> bool {
    match s.last_sequence {
        Some(l) => s.sequence_number >= l && is_final_response(resp)
            && s.translations@.filter(|t: TranslationResponse| is_final_response(t)).len() > l,
        None => false,
    }
}

/// How integrating one response relates the session states before and
/// after, and what the caller is asked to persist.
pub open spec fn integrate_transition(
    pre: SessionData,
    post: SessionData,
    resp: TranslationResponse,
    r: E<Option<FinalizeOutput>>,
) -> bool {
    let added = insert_response(pre.translations@, resp);
    let mid = SessionData { translations: post.translations, ..pre };
    &&& identity_unchanged(pre, post)
    &&& post.updated_at == pre.updated_at
    &&& post.buffer == pre.buffer
    &&& post.silence_length == pre.silence_length
    &&& post.sequence_number == pre.sequence_number
    &&& post.last_sequence == pre.last_sequence
    &&& post.enqueued == pre.enqueued
    &&& if !pre.valid {
        &&& r == Ok::<Option<FinalizeOutput>, Error>(None)
        &&& post.valid == pre.valid
        &&& post.transcription_sender_tx == pre.transcription_sender_tx
        &&& post.translations@ == pre.translations@
    } else if pre.translations.rejects(resp) {
        &&& r == Err::<Option<FinalizeOutput>, Error>(Error::Decode)
        &&& post.valid == pre.valid
        &&& post.transcription_sender_tx == pre.transcription_sender_tx
        &&& post.translations@ == pre.translations@
    } else {
        &&& post.translations@ == added
        &&& if should_finalize(mid, resp) {
            &&& r matches Ok(Some(out))
            &&& !post.valid
            &&& post.transcription_sender_tx is None
            &&& out.transcript_file == pre.transcript_file
            &&& out.transcript@ == transcript_of(added)
            &&& out.metadata_file == pre.metadata_file
            &&& out.metadata_json@ == metadata_json_spec(mid)
        } else {
            &&& r == Ok::<Option<FinalizeOutput>, Error>(None)
            &&& post.valid == pre.valid
            &&& post.transcription_sender_tx == pre.transcription_sender_tx
        }
    }
}

} // verus!
