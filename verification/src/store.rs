use vstd::prelude::*;
use crate::error::E;
use crate::error::Error;
use crate::queue::TranslationQueue;
use crate::sample::decoded_samples;
use crate::session::CloseOutcome;
use crate::session::FinalizeOutput;
use crate::session::FrameResult;
use crate::session::SessionData;
use crate::session::Status;
use crate::session::TIMESTAMP_BOUND;
use crate::session::close_transition;
use crate::session::frame_transition;
use crate::session::integrate_transition;
use crate::translate::TranslationResponse;
use crate::translate::is_final_response;
use crate::translate::transcript_of;

verus! {

// The process-wide table of sessions. Callers guard it with whatever
// lock their execution model needs; here it is a plain value whose
// every operation is exact. Lookups are by the process-local id;
// `find_session_with_uuid` scans for the wire identifier.

/// Seconds of inactivity after which a session expires.
pub const EXPIRY_SECONDS: i64 = 86400;

/// A session young enough to survive an expiry sweep at the given time.
pub open spec fn session_live(s: SessionData, now: i64) -> bool {
    now - s.updated_at <= EXPIRY_SECONDS
}

/// A session as it stands after a store operation stamped it.
pub open spec fn with_updated_at(s: SessionData, t: i64) -> SessionData {
    SessionData { updated_at: t, ..s }
}

/// Some session in the sequence carries the id.
pub open spec fn has_id(s: Seq<SessionData>, id: usize) -> bool {
    exists|i: int| 0 <= i < s.len() && (#[trigger] s[i]).id == id
}

/// The process-wide mapping of session id to session record.
pub struct SessionStore {
    sessions: Vec<SessionData>,
}

impl View for SessionStore {
    type V = Seq<SessionData>;

    closed spec fn view(&self) -> Seq<SessionData> {
        self.sessions@
    }
}

proof fn lemma_remove_insert(s: Seq<SessionData>, i: int, a: SessionData)
    requires
        0 <= i < s.len(),
    ensures
        s.remove(i).insert(i, a) =~= s.update(i, a),
{
    let r = s.remove(i).insert(i, a);
    assert forall|k: int| 0 <= k < s.len() implies r[k] == s.update(i, a)[k] by {
        if k < i {
        } else if k == i {
        } else {
        }
    }
}

impl SessionStore {
    /// Every record is well-formed and no id repeats.
    pub open spec fn wf(&self) -> bool {
        &&& forall|i: int| 0 <= i < self@.len() ==> (#[trigger] self@[i]).wf()
        &&& forall|i: int, j: int|
            0 <= i < j < self@.len() ==> (#[trigger] self@[i]).id != (#[trigger] self@[j]).id
    }

    /// An empty store.
    pub fn new() -> (r: Self)
        ensures
            r.wf(),
            r@ == Seq::<SessionData>::empty(),
    {
        SessionStore { sessions: Vec::new() }
    }

    /// How many sessions the store holds.
    pub fn len(&self) -> (r: usize)
        ensures
            r == self@.len(),
    {
        self.sessions.len()
    }

    /// The session at a position, for listings.
    pub fn at(&self, i: usize) -> (r: &SessionData)
        requires
            i < self@.len(),
        ensures
            *r == self@[i as int],
    {
        &self.sessions[i]
    }

    fn find_index(&self, id: usize) -> (r: Option<usize>)
        ensures
            r matches Some(i) ==> i < self@.len() && self@[i as int].id == id,
            r is None ==> !has_id(self@, id),
    {
        let mut i: usize = 0;
        while i < self.sessions.len()
            invariant
                i <= self@.len(),
                forall|k: int| 0 <= k < i ==> (#[trigger] self@[k]).id != id,
            decreases self@.len() - i,
        {
            if self.sessions[i].id == id {
                return Some(i);
            }
            i = i + 1;
        }
        None
    }

    /// The record with the given id, if one is there.
    pub fn get_session(&self, id: usize) -> (r: Option<&SessionData>)
        ensures
            r matches Some(s) ==> has_id(self@, id) && self@.contains(*s) && s.id == id,
            r is None ==> !has_id(self@, id),
    {
        match self.find_index(id) {
            Some(i) => {
                let s = &self.sessions[i];
                proof {
                    assert(self@.contains(self@[i as int]));
                }
                Some(s)
            },
            None => None,
        }
    }

    /// Puts a record in the table: replacing the one with the same id,
    /// or joining the table as a new entry.
    pub fn set_session(&mut self, session: SessionData) -> (replaced: bool)
        requires
            old(self).wf(),
            session.wf(),
        ensures
            final(self).wf(),
            replaced ==> exists|i: int|
                0 <= i < old(self)@.len() && (#[trigger] old(self)@[i]).id == session.id
                    && final(self)@ == old(self)@.update(i, session),
            !replaced ==> !has_id(old(self)@, session.id)
                && final(self)@ == old(self)@.push(session),
    {
        match self.find_index(session.id) {
            Some(i) => {
                let ghost pre = self@;
                self.sessions.remove(i);
                self.sessions.insert(i, session);
                proof {
                    lemma_remove_insert(pre, i as int, session);
                    assert(final(self).wf()) by {
                        assert(forall|k: int|
                            0 <= k < self@.len() && k != i ==> self@[k] == pre[k]);
                    }
                }
                true
            },
            None => {
                self.sessions.push(session);
                false
            },
        }
    }

    /// Removes the record with the given id, if one is there.
    pub fn remove_session(&mut self, id: usize) -> (removed: bool)
        requires
            old(self).wf(),
        ensures
            final(self).wf(),
            removed ==> exists|i: int|
                0 <= i < old(self)@.len() && (#[trigger] old(self)@[i]).id == id
                    && final(self)@ == old(self)@.remove(i),
            !removed ==> !has_id(old(self)@, id) && final(self)@ == old(self)@,
    {
        match self.find_index(id) {
            Some(i) => {
                self.sessions.remove(i);
                true
            },
            None => false,
        }
    }

    /// The id of the session carrying the given wire identifier.
    pub fn find_session_with_uuid(&self, uuid: &String) -> (r: Option<usize>)
        ensures
            r matches Some(id) ==> exists|i: int|
                0 <= i < self@.len() && (#[trigger] self@[i]).id == id
                    && self@[i].uuid@ == uuid@,
            r is None ==> forall|i: int| 0 <= i < self@.len()
                ==> (#[trigger] self@[i]).uuid@ != uuid@,
    {
        let mut i: usize = 0;
        while i < self.sessions.len()
            invariant
                i <= self@.len(),
                forall|k: int| 0 <= k < i ==> (#[trigger] self@[k]).uuid@ != uuid@,
            decreases self@.len() - i,
        {
            if self.sessions[i].uuid == *uuid {
                return Some(self.sessions[i].id);
            }
            i = i + 1;
        }
        None
    }

    /// Whether the identified session still accepts chunks.
    pub fn session_valid(&self, id: usize) -> (r: Option<bool>)
        ensures
            r matches Some(v) ==> exists|i: int|
                0 <= i < self@.len() && (#[trigger] self@[i]).id == id && self@[i].valid == v,
            r is None ==> !has_id(self@, id),
    {
        match self.find_index(id) {
            Some(i) => Some(self.sessions[i].valid),
            None => None,
        }
    }

    /// The status report of the identified session.
    pub fn status_of(&self, id: usize) -> (r: Option<Status>)
        requires
            self.wf(),
        ensures
            r matches Some(st) ==> exists|i: int|
                0 <= i < self@.len() && (#[trigger] self@[i]).id == id
                    && st.language == self@[i].language
                    && st.uuid == self@[i].uuid
                    && st.resource == self@[i].resource
                    && st.sample_rate == self@[i].sample_rate
                    && st.transcription_job_count == self@[i].sequence_number
                    && st.transcription_completed_count == self@[i].translations@.filter(
                    |t: TranslationResponse| is_final_response(t),
                ).len(),
            r is None ==> !has_id(self@, id),
    {
        match self.find_index(id) {
            Some(i) => match self.sessions[i].status() {
                Ok(st) => Some(st),
                Err(_) => None,
            },
            None => None,
        }
    }

    /// The chunk-ordered transcript of the identified session.
    pub fn transcript_of(&self, id: usize) -> (r: Option<String>)
        requires
            self.wf(),
        ensures
            r matches Some(t) ==> exists|i: int|
                0 <= i < self@.len() && (#[trigger] self@[i]).id == id
                    && t@ == transcript_of(self@[i].translations@),
            r is None ==> !has_id(self@, id),
    {
        match self.find_index(id) {
            Some(i) => match self.sessions[i].transcript() {
                Ok(t) => Some(t),
                Err(_) => None,
            },
            None => None,
        }
    }

    /// Feeds one inbound binary frame to the identified session and
    /// stamps it. `None` when no session carries the id.
    pub fn user_message(
        &mut self,
        id: usize,
        queue: &TranslationQueue,
        data: &Vec<u8>,
        now: i64,
    ) -> (r: Option<FrameResult>)
        requires
            old(self).wf(),
            0 <= now < TIMESTAMP_BOUND,
        ensures
            final(self).wf(),
            r is None ==> !has_id(old(self)@, id) && final(self)@ == old(self)@,
            r matches Some(fr) ==> exists|i: int|
                0 <= i < old(self)@.len() && (#[trigger] old(self)@[i]).id == id
                    && final(self)@ == old(self)@.update(i, final(self)@[i])
                    && final(self)@[i].updated_at == now
                    && frame_transition(
                    old(self)@[i],
                    with_updated_at(final(self)@[i], old(self)@[i].updated_at),
                    decoded_samples(data@),
                    fr,
                ),
    {
        let i = match self.find_index(id) {
            Some(i) => i,
            None => {
                return None;
            },
        };
        let ghost pre = self@;
        let mut s = self.sessions.remove(i);
        let fr = s.user_message(queue, data);
        let ghost mid = s;
        s.updated_at = now;
        self.sessions.insert(i, s);
        proof {
            lemma_remove_insert(pre, i as int, s);
            assert(with_updated_at(self@[i as int], pre[i as int].updated_at) =~= mid);
            assert(final(self).wf()) by {
                assert(forall|k: int| 0 <= k < self@.len() && k != i ==> self@[k] == pre[k]);
            }
        }
        Some(fr)
    }

    /// Marks the identified session for closure (end-of-stream) and
    /// stamps it. `None` when no session carries the id.
    pub fn mark_session_for_closure(
        &mut self,
        id: usize,
        queue: &TranslationQueue,
        now: i64,
    ) -> (r: Option<CloseOutcome>)
        requires
            old(self).wf(),
            0 <= now < TIMESTAMP_BOUND,
        ensures
            final(self).wf(),
            r is None ==> !has_id(old(self)@, id) && final(self)@ == old(self)@,
            r matches Some(c) ==> exists|i: int|
                0 <= i < old(self)@.len() && (#[trigger] old(self)@[i]).id == id
                    && final(self)@ == old(self)@.update(i, final(self)@[i])
                    && final(self)@[i].updated_at == now
                    && close_transition(
                    old(self)@[i],
                    with_updated_at(final(self)@[i], old(self)@[i].updated_at),
                    c,
                ),
    {
        let i = match self.find_index(id) {
            Some(i) => i,
            None => {
                return None;
            },
        };
        let ghost pre = self@;
        let mut s = self.sessions.remove(i);
        let c = s.mark_session_for_closure(queue);
        let ghost mid = s;
        s.updated_at = now;
        self.sessions.insert(i, s);
        proof {
            lemma_remove_insert(pre, i as int, s);
            assert(with_updated_at(self@[i as int], pre[i as int].updated_at) =~= mid);
            assert(final(self).wf()) by {
                assert(forall|k: int| 0 <= k < self@.len() && k != i ==> self@[k] == pre[k]);
            }
        }
        Some(c)
    }

    /// Marks the session with the given wire identifier for closure.
    pub fn mark_session_for_closure_uuid(
        &mut self,
        uuid: &String,
        queue: &TranslationQueue,
        now: i64,
    ) -> (r: Option<CloseOutcome>)
        requires
            old(self).wf(),
            0 <= now < TIMESTAMP_BOUND,
        ensures
            final(self).wf(),
            r is None ==> final(self)@ == old(self)@,
            r matches Some(c) ==> exists|i: int|
                0 <= i < old(self)@.len() && (#[trigger] old(self)@[i]).uuid@ == uuid@
                    && final(self)@ == old(self)@.update(i, final(self)@[i])
                    && final(self)@[i].updated_at == now
                    && close_transition(
                    old(self)@[i],
                    with_updated_at(final(self)@[i], old(self)@[i].updated_at),
                    c,
                ),
    {
        let id = match self.find_session_with_uuid(uuid) {
            Some(id) => id,
            None => {
                return None;
            },
        };
        let ghost pre = self@;
        let r = self.mark_session_for_closure(id, queue, now);
        proof {
            if r is None {
                assert(final(self)@ == pre);
            } else {
                let i = choose|i: int|
                    0 <= i < pre.len() && (#[trigger] pre[i]).id == id
                        && final(self)@ == pre.update(i, final(self)@[i])
                        && final(self)@[i].updated_at == now
                        && close_transition(
                        pre[i],
                        with_updated_at(final(self)@[i], pre[i].updated_at),
                        r->Some_0,
                    );
                let j = choose|j: int|
                    0 <= j < pre.len() && (#[trigger] pre[j]).id == id && pre[j].uuid@ == uuid@;
                assert(i == j);
            }
        }
        r
    }

    /// Integrates one recognizer response into the identified session
    /// and stamps it; hands back what finalization, if it fired, asks
    /// the caller to persist.
    pub fn process_transcription(
        &mut self,
        id: usize,
        response: &TranslationResponse,
        now: i64,
    ) -> (r: E<Option<FinalizeOutput>>)
        requires
            old(self).wf(),
            0 <= now < TIMESTAMP_BOUND,
        ensures
            final(self).wf(),
            r == Err::<Option<FinalizeOutput>, Error>(Error::NotFound) ==> !has_id(
                old(self)@,
                id,
            ) && final(self)@ == old(self)@,
            !(r == Err::<Option<FinalizeOutput>, Error>(Error::NotFound)) ==> exists|i: int|
                0 <= i < old(self)@.len() && (#[trigger] old(self)@[i]).id == id
                    && final(self)@ == old(self)@.update(i, final(self)@[i])
                    && final(self)@[i].updated_at == now
                    && integrate_transition(
                    old(self)@[i],
                    with_updated_at(final(self)@[i], old(self)@[i].updated_at),
                    *response,
                    r,
                ),
    {
        let i = match self.find_index(id) {
            Some(i) => i,
            None => {
                return Err(Error::NotFound);
            },
        };
        let ghost pre = self@;
        let mut s = self.sessions.remove(i);
        let r = s.process_transcription(response);
        let ghost mid = s;
        s.updated_at = now;
        self.sessions.insert(i, s);
        proof {
            lemma_remove_insert(pre, i as int, s);
            assert(with_updated_at(self@[i as int], pre[i as int].updated_at) =~= mid);
            assert(final(self).wf()) by {
                assert(forall|k: int| 0 <= k < self@.len() && k != i ==> self@[k] == pre[k]);
            }
            assert(!(r == Err::<Option<FinalizeOutput>, Error>(Error::NotFound))) by {
                if r is Err {
                    assert(r == Err::<Option<FinalizeOutput>, Error>(Error::Decode));
                }
            }
        }
        r
    }

    /// Removes every session that has been idle longer than the expiry
    /// window.
    pub fn expire_sessions(&mut self, now: i64) -> (r: E<()>)
        requires
            old(self).wf(),
            0 <= now < TIMESTAMP_BOUND,
        ensures
            final(self).wf(),
            r is Ok,
            final(self)@ == old(self)@.filter(|s: SessionData| session_live(s, now)),
    {
        let ghost orig = self@;
        let mut i: usize = 0;
        let ghost mut j: int = 0;
        proof {
            assert(orig.take(0).filter(|s: SessionData| session_live(s, now))
                =~= Seq::<SessionData>::empty());
            assert(self@ =~= orig.take(0).filter(|s: SessionData| session_live(s, now))
                + orig.skip(0));
        }
        while i < self.sessions.len()
            invariant
                0 <= i <= self@.len(),
                0 <= j <= orig.len(),
                i == orig.take(j).filter(|s: SessionData| session_live(s, now)).len(),
                self@ == orig.take(j).filter(|s: SessionData| session_live(s, now)) + orig.skip(j),
                forall|k: int| 0 <= k < orig.len() ==> (#[trigger] orig[k]).wf(),
                forall|a: int, b: int|
                    0 <= a < b < orig.len() ==> (#[trigger] orig[a]).id != (#[trigger] orig[b]).id,
                self.wf(),
                0 <= now < TIMESTAMP_BOUND,
            decreases orig.len() - j,
        {
            let ghost pre = self@;
            proof {
                assert(orig.take(j + 1) =~= orig.take(j) + seq![orig[j]]);
                Seq::<SessionData>::filter_distributes_over_add(
                    orig.take(j),
                    seq![orig[j]],
                    |s: SessionData| session_live(s, now),
                );
                reveal_with_fuel(Seq::filter, 2);
                assert(orig.skip(j) =~= seq![orig[j]] + orig.skip(j + 1));
                assert(self@[i as int] == orig[j]);
            }
            if now - self.sessions[i].updated_at <= EXPIRY_SECONDS {
                i = i + 1;
                proof {
                    assert(session_live(orig[j], now));
                    assert(seq![orig[j]].filter(|s: SessionData| session_live(s, now))
                        =~= seq![orig[j]]);
                    j = j + 1;
                    assert(self@ =~= orig.take(j).filter(|s: SessionData| session_live(s, now))
                        + orig.skip(j));
                }
            } else {
                self.sessions.remove(i);
                proof {
                    assert(!session_live(orig[j], now));
                    assert(seq![orig[j]].filter(|s: SessionData| session_live(s, now))
                        =~= Seq::<SessionData>::empty());
                    j = j + 1;
                    assert(self@ =~= pre.remove(i as int));
                    assert(self@ =~= orig.take(j).filter(|s: SessionData| session_live(s, now))
                        + orig.skip(j));
                    assert(self.wf()) by {
                        assert(forall|k: int|
                            0 <= k < self@.len() ==> self@[k] == (if k < i {
                                pre[k]
                            } else {
                                pre[k + 1]
                            }));
                    }
                }
            }
        }
        proof {
            assert(orig.take(orig.len() as int) =~= orig);
            assert(orig.skip(j) =~= Seq::<SessionData>::empty()) by {
                assert(self@.len() == orig.take(j).filter(
                    |s: SessionData| session_live(s, now),
                ).len() + orig.skip(j).len());
            }
            assert(j == orig.len());
            assert(final(self)@ =~= orig.filter(|s: SessionData| session_live(s, now)));
        }
        Ok(())
    }
}

} // verus!
