use vstd::prelude::*;
use vstd::string::*;
use crate::error::E;
use crate::error::Error;
use crate::text::join_texts;
use crate::text::views_of;
use crate::text::join_with_spaces;
use crate::text::split_spaces;
use crate::text::json_quoted;
use crate::text::append_json_quoted;
use crate::text::dec_digits;
use crate::text::u64_to_string;

verus! {

// Translation requests and responses, and the per-session collection of
// completed responses. The collection is append-only, keyed by
// `(sequence_number, segment_number)`, and kept in key order, so the
// transcript it yields is chunk-ordered however responses arrive.

/// One chunk of audio handed to a recognizer. Immutable once enqueued.
pub struct TranslationRequest {
    pub session_id: usize,
    pub sequence_number: usize,
    /// Sample bit patterns of the chunk, in order.
    pub payload: Vec<u32>,
    pub lang: String,
}

/// One piece of text a recognizer returns for a chunk. A chunk may be
/// split into several segments; the response with the last segment
/// number closes its chunk.
pub struct TranslationResponse {
    pub session_id: usize,
    pub sequence_number: usize,
    pub segment_number: usize,
    pub num_segments: usize,
    pub text: String,
    pub is_final: bool,
}

/// The recognizer capability: given a request, eventually push zero or
/// more responses to the integrator and report success or failure.
/// Implementations live with the caller (a local binding, a remote
/// backend); nothing is assumed of them here.
pub trait Translator {
    fn translate(&self, request: TranslationRequest) -> E<()>;
}

impl TranslationResponse {
    /// An exact copy of the response.
    pub fn clone_fields(&self) -> (r: TranslationResponse)
        ensures
            r == *self,
    {
        TranslationResponse {
            session_id: self.session_id,
            sequence_number: self.sequence_number,
            segment_number: self.segment_number,
            num_segments: self.num_segments,
            text: self.text.clone(),
            is_final: self.is_final,
        }
    }
}

/// A response closes its chunk when it carries the last segment.
pub open spec fn is_final_response(r: TranslationResponse) -> bool {
    r.segment_number + 1 == r.num_segments
}

/// A response shape the collection accepts.
pub open spec fn response_shape_ok(r: TranslationResponse) -> bool {
    1 <= r.num_segments && r.segment_number < r.num_segments
}

/// Strict order on response keys: chunk order, then segment order.
pub open spec fn key_lt(a: TranslationResponse, b: TranslationResponse) -> bool {
    a.sequence_number < b.sequence_number
        || (a.sequence_number == b.sequence_number && a.segment_number < b.segment_number)
}

/// Equal keys: same chunk, same segment.
pub open spec fn key_eq(a: TranslationResponse, b: TranslationResponse) -> bool {
    a.sequence_number == b.sequence_number && a.segment_number == b.segment_number
}

/// Responses in strictly increasing key order.
pub open spec fn sorted_responses(s: Seq<TranslationResponse>) -> bool {
    forall|i: int, j: int| 0 <= i < j < s.len() ==> key_lt(#[trigger] s[i], #[trigger] s[j])
}

/// All responses of one chunk agree on how many segments the chunk has.
pub open spec fn segments_consistent(s: Seq<TranslationResponse>) -> bool {
    forall|i: int, j: int|
        0 <= i < s.len() && 0 <= j < s.len()
            && (#[trigger] s[i]).sequence_number == (#[trigger] s[j]).sequence_number
            ==> s[i].num_segments == s[j].num_segments
}

/// Where a response lands among already-collected ones: ahead of the
/// first strictly greater key; dropped when its key is already present.
pub open spec fn insert_response(
    s: Seq<TranslationResponse>,
    r: TranslationResponse,
) -> Seq<TranslationResponse>
    decreases s.len(),
{
    if s.len() == 0 {
        seq![r]
    } else if key_lt(r, s[0]) {
        seq![r] + s
    } else if key_eq(r, s[0]) {
        s
    } else {
        seq![s[0]] + insert_response(s.drop_first(), r)
    }
}

/// The transcript a response sequence yields: each text in key order,
/// joined by single spaces.
pub open spec fn transcript_of(s: Seq<TranslationResponse>) -> Seq<char> {
    join_texts(s.map_values(|r: TranslationResponse| r.text@))
}

/// A batch of responses integrated one at a time, in arrival order.
pub open spec fn integrate_all(
    s: Seq<TranslationResponse>,
    rs: Seq<TranslationResponse>,
) -> Seq<TranslationResponse>
    decreases rs.len(),
{
    if rs.len() == 0 {
        s
    } else {
        integrate_all(insert_response(s, rs[0]), rs.drop_first())
    }
}

/// No two responses of the batch share a key.
pub open spec fn distinct_keys(rs: Seq<TranslationResponse>) -> bool {
    forall|i: int, j: int| 0 <= i < j < rs.len() ==> !key_eq(#[trigger] rs[i], #[trigger] rs[j])
}

/// The key of one batch never occurs in the other.
pub open spec fn keys_disjoint(
    s: Seq<TranslationResponse>,
    rs: Seq<TranslationResponse>,
) -> bool {
    forall|i: int, j: int|
        0 <= i < s.len() && 0 <= j < rs.len() ==> !key_eq(#[trigger] s[i], #[trigger] rs[j])
}

proof fn lemma_insert_fresh(s: Seq<TranslationResponse>, r: TranslationResponse)
    requires
        sorted_responses(s),
        forall|j: int| 0 <= j < s.len() ==> !key_eq(r, #[trigger] s[j]),
    ensures
        sorted_responses(insert_response(s, r)),
        insert_response(s, r).len() == s.len() + 1,
        forall|x: TranslationResponse|
            #[trigger] insert_response(s, r).contains(x) <==> (s.contains(x) || x == r),
    decreases s.len(),
{
    let out = insert_response(s, r);
    if s.len() == 0 {
        assert forall|x: TranslationResponse| #[trigger] out.contains(x) implies (s.contains(x)
            || x == r) by {
            let i = choose|i: int| 0 <= i < out.len() && out[i] == x;
            assert(out[0] == r);
        }
        assert(out.contains(r)) by {
            assert(out[0] == r);
        }
    } else if key_lt(r, s[0]) {
        assert(out =~= seq![r] + s);
        assert(sorted_responses(out)) by {
            assert(forall|i: int| 0 < i < out.len() ==> out[i] == s[i - 1]);
        }
        assert forall|x: TranslationResponse| #[trigger] out.contains(x) implies (s.contains(x)
            || x == r) by {
            let i = choose|i: int| 0 <= i < out.len() && out[i] == x;
            if i > 0 {
                assert(s[i - 1] == x);
            }
        }
        assert forall|x: TranslationResponse| s.contains(x) || x == r implies #[trigger] out
            .contains(x) by {
            if x == r {
                assert(out[0] == x);
            } else {
                let i = choose|i: int| 0 <= i < s.len() && s[i] == x;
                assert(out[i + 1] == x);
            }
        }
    } else {
        assert(!key_eq(r, s[0]));
        assert(key_lt(s[0], r));
        let t = s.drop_first();
        assert(forall|i: int| 0 <= i < t.len() ==> t[i] == s[i + 1]);
        assert(sorted_responses(t));
        lemma_insert_fresh(t, r);
        let sub = insert_response(t, r);
        assert(out =~= seq![s[0]] + sub);
        assert(sorted_responses(out)) by {
            assert(forall|i: int| 0 < i < out.len() ==> out[i] == sub[i - 1]);
            assert forall|i: int| 0 < i < out.len() implies key_lt(out[0], out[i]) by {
                assert(sub.contains(sub[i - 1]));
                if sub[i - 1] == r {
                } else {
                    assert(t.contains(sub[i - 1]));
                    let k = choose|k: int| 0 <= k < t.len() && t[k] == sub[i - 1];
                    assert(key_lt(s[0], s[k + 1]));
                }
            }
        }
        assert forall|x: TranslationResponse| #[trigger] out.contains(x) implies (s.contains(x)
            || x == r) by {
            let i = choose|i: int| 0 <= i < out.len() && out[i] == x;
            if i == 0 {
                assert(s[0] == x);
            } else {
                assert(sub[i - 1] == x);
                assert(sub.contains(x));
                if x != r {
                    assert(t.contains(x));
                    let k = choose|k: int| 0 <= k < t.len() && t[k] == x;
                    assert(s[k + 1] == x);
                }
            }
        }
        assert forall|x: TranslationResponse| s.contains(x) || x == r implies #[trigger] out
            .contains(x) by {
            if x == r || !s.contains(x) {
                assert(sub.contains(r));
                let k = choose|k: int| 0 <= k < sub.len() && sub[k] == r;
                assert(out[k + 1] == r);
            } else {
                let i = choose|i: int| 0 <= i < s.len() && s[i] == x;
                if i == 0 {
                    assert(out[0] == x);
                } else {
                    assert(t[i - 1] == x);
                    assert(t.contains(x));
                    assert(sub.contains(x));
                    let k = choose|k: int| 0 <= k < sub.len() && sub[k] == x;
                    assert(out[k + 1] == x);
                }
            }
        }
    }
}

proof fn lemma_integrate_all_props(s: Seq<TranslationResponse>, rs: Seq<TranslationResponse>)
    requires
        sorted_responses(s),
        distinct_keys(rs),
        keys_disjoint(s, rs),
    ensures
        sorted_responses(integrate_all(s, rs)),
        integrate_all(s, rs).len() == s.len() + rs.len(),
        forall|x: TranslationResponse|
            #[trigger] integrate_all(s, rs).contains(x) <==> (s.contains(x) || rs.contains(x)),
    decreases rs.len(),
{
    if rs.len() == 0 {
        assert forall|x: TranslationResponse| #[trigger] integrate_all(s, rs).contains(x)
            <==> (s.contains(x) || rs.contains(x)) by {
            if rs.contains(x) {
                let i = choose|i: int| 0 <= i < rs.len() && rs[i] == x;
            }
        }
    } else {
        let r0 = rs[0];
        assert(forall|j: int| 0 <= j < s.len() ==> !key_eq(r0, #[trigger] s[j]));
        lemma_insert_fresh(s, r0);
        let s1 = insert_response(s, r0);
        let t = rs.drop_first();
        assert(forall|i: int| 0 <= i < t.len() ==> t[i] == rs[i + 1]);
        assert(distinct_keys(t));
        assert(keys_disjoint(s1, t)) by {
            assert forall|i: int, j: int|
                0 <= i < s1.len() && 0 <= j < t.len() implies !key_eq(
                #[trigger] s1[i],
                #[trigger] t[j],
            ) by {
                assert(s1.contains(s1[i]));
                if s1[i] == r0 {
                    assert(!key_eq(rs[0], rs[j + 1]));
                    assert(!key_eq(r0, t[j]));
                } else {
                    assert(s.contains(s1[i]));
                    let k = choose|k: int| 0 <= k < s.len() && s[k] == s1[i];
                    assert(!key_eq(s[k], rs[j + 1]));
                }
            }
        }
        lemma_integrate_all_props(s1, t);
        assert forall|x: TranslationResponse| #[trigger] integrate_all(s, rs).contains(x)
            <==> (s.contains(x) || rs.contains(x)) by {
            assert(integrate_all(s, rs) == integrate_all(s1, t));
            if rs.contains(x) {
                let i = choose|i: int| 0 <= i < rs.len() && rs[i] == x;
                if i > 0 {
                    assert(t[i - 1] == x);
                }
            }
            if t.contains(x) {
                let i = choose|i: int| 0 <= i < t.len() && t[i] == x;
                assert(rs[i + 1] == x);
            }
            if x == r0 {
                assert(rs[0] == x);
            }
        }
    }
}

proof fn lemma_sorted_same_elements(a: Seq<TranslationResponse>, b: Seq<TranslationResponse>)
    requires
        sorted_responses(a),
        sorted_responses(b),
        a.len() == b.len(),
        forall|x: TranslationResponse| a.contains(x) <==> b.contains(x),
    ensures
        a == b,
    decreases a.len(),
{
    if a.len() == 0 {
        assert(a =~= b);
    } else {
        assert(a.contains(a[0]));
        assert(b.contains(a[0]));
        let i = choose|i: int| 0 <= i < b.len() && b[i] == a[0];
        assert(b.contains(b[0]));
        assert(a.contains(b[0]));
        let k = choose|k: int| 0 <= k < a.len() && a[k] == b[0];
        if i > 0 {
            assert(key_lt(b[0], b[i]));
            if k > 0 {
                assert(key_lt(a[0], a[k]));
                assert(false);
            } else {
                assert(false);
            }
        }
        assert(a[0] == b[0]);
        let at = a.drop_first();
        let bt = b.drop_first();
        assert(forall|n: int| 0 <= n < at.len() ==> at[n] == a[n + 1]);
        assert(forall|n: int| 0 <= n < bt.len() ==> bt[n] == b[n + 1]);
        assert forall|x: TranslationResponse| at.contains(x) <==> bt.contains(x) by {
            if at.contains(x) {
                let n = choose|n: int| 0 <= n < at.len() && at[n] == x;
                assert(a[n + 1] == x);
                assert(key_lt(a[0], x));
                assert(b.contains(x));
                let m = choose|m: int| 0 <= m < b.len() && b[m] == x;
                assert(m > 0) by {
                    if m == 0 {
                        assert(key_lt(x, x));
                    }
                }
                assert(bt[m - 1] == x);
            }
            if bt.contains(x) {
                let n = choose|n: int| 0 <= n < bt.len() && bt[n] == x;
                assert(b[n + 1] == x);
                assert(key_lt(b[0], x));
                assert(a.contains(x));
                let m = choose|m: int| 0 <= m < a.len() && a[m] == x;
                assert(m > 0) by {
                    if m == 0 {
                        assert(key_lt(x, x));
                    }
                }
                assert(at[m - 1] == x);
            }
        }
        lemma_sorted_same_elements(at, bt);
        assert forall|n: int| 0 <= n < a.len() implies a[n] == b[n] by {
            if n > 0 {
                assert(a[n] == at[n - 1]);
                assert(b[n] == bt[n - 1]);
                assert(at[n - 1] == bt[n - 1]);
            }
        }
        assert(a =~= b);
    }
}

/// However recognizer responses interleave, the collection — and with
/// it the finalized transcript — comes out the same: integrating any
/// two arrival orders of one set of distinct-keyed responses into an
/// empty collection yields the same key-ordered collection, so the
/// transcript is the concatenation of the texts in chunk order, then
/// segment order, whatever the completion order was.
pub proof fn lemma_transcript_order_independent(
    rs1: Seq<TranslationResponse>,
    rs2: Seq<TranslationResponse>,
)
    requires
        distinct_keys(rs1),
        distinct_keys(rs2),
        rs1.len() == rs2.len(),
        forall|x: TranslationResponse| rs1.contains(x) <==> rs2.contains(x),
    ensures
        integrate_all(Seq::empty(), rs1) == integrate_all(Seq::empty(), rs2),
        sorted_responses(integrate_all(Seq::empty(), rs1)),
        transcript_of(integrate_all(Seq::empty(), rs1)) == transcript_of(
            integrate_all(Seq::empty(), rs2),
        ),
{
    let empty = Seq::<TranslationResponse>::empty();
    lemma_integrate_all_props(empty, rs1);
    lemma_integrate_all_props(empty, rs2);
    lemma_sorted_same_elements(integrate_all(empty, rs1), integrate_all(empty, rs2));
}

/// A truth value as JSON writes it.
pub open spec fn bool_text(b: bool) -> Seq<char> {
    if b { "true"@ } else { "false"@ }
}

/// The JSON message a response makes on the wire to the client.
pub open spec fn response_message_spec(r: TranslationResponse) -> Seq<char> {
    "{\"session_id\":"@ + dec_digits(r.session_id as int)
        + ",\"sequence_number\":"@ + dec_digits(r.sequence_number as int)
        + ",\"segment_number\":"@ + dec_digits(r.segment_number as int)
        + ",\"num_segments\":"@ + dec_digits(r.num_segments as int)
        + ",\"text\":"@ + json_quoted(r.text@)
        + ",\"is_final\":"@ + bool_text(r.is_final)
        + "}"@
}

/// Renders a response as the JSON message sent to the client.
pub fn response_message(r: &TranslationResponse) -> (out: String)
    ensures
        out@ == response_message_spec(*r),
{
    let mut s = String::from_str("{\"session_id\":");
    let d0 = u64_to_string(r.session_id as u64);
    s.append(d0.as_str());
    s.append(",\"sequence_number\":");
    let d1 = u64_to_string(r.sequence_number as u64);
    s.append(d1.as_str());
    s.append(",\"segment_number\":");
    let d2 = u64_to_string(r.segment_number as u64);
    s.append(d2.as_str());
    s.append(",\"num_segments\":");
    let d3 = u64_to_string(r.num_segments as u64);
    s.append(d3.as_str());
    s.append(",\"text\":");
    append_json_quoted(&mut s, r.text.as_str());
    s.append(",\"is_final\":");
    if r.is_final {
        s.append("true");
    } else {
        s.append("false");
    }
    s.append("}");
    proof {
        assert(s@ =~= response_message_spec(*r));
    }
    s
}

/// The ordered collection of completed responses for one session.
pub struct TranslationResponses {
    responses: Vec<TranslationResponse>,
}

impl View for TranslationResponses {
    type V = Seq<TranslationResponse>;

    closed spec fn view(&self) -> Seq<TranslationResponse> {
        self.responses@
    }
}

proof fn lemma_insert_response_at(
    s: Seq<TranslationResponse>,
    r: TranslationResponse,
    pos: int,
)
    requires
        sorted_responses(s),
        0 <= pos <= s.len(),
        forall|k: int| 0 <= k < pos ==> key_lt(#[trigger] s[k], r),
        pos < s.len() ==> key_lt(r, s[pos]),
    ensures
        insert_response(s, r) == s.take(pos) + seq![r] + s.skip(pos),
    decreases s.len(),
{
    if s.len() == 0 {
        assert(insert_response(s, r) =~= s.take(pos) + seq![r] + s.skip(pos));
    } else if pos == 0 {
        assert(key_lt(r, s[0]));
        assert(insert_response(s, r) =~= s.take(0) + seq![r] + s.skip(0));
    } else {
        assert(key_lt(s[0], r));
        let t = s.drop_first();
        assert(sorted_responses(t)) by {
            assert(forall|i: int, j: int| 0 <= i < j < t.len()
                ==> key_lt(#[trigger] t[i], #[trigger] t[j])) by {
                assert(forall|i: int| 0 <= i < t.len() ==> t[i] == s[i + 1]);
            }
        }
        assert(forall|k: int| 0 <= k < pos - 1 ==> key_lt(#[trigger] t[k], r)) by {
            assert(forall|k: int| 0 <= k < t.len() ==> t[k] == s[k + 1]);
        }
        lemma_insert_response_at(t, r, pos - 1);
        assert(insert_response(s, r) =~= s.take(pos) + seq![r] + s.skip(pos));
    }
}

proof fn lemma_insert_response_present(
    s: Seq<TranslationResponse>,
    r: TranslationResponse,
    pos: int,
)
    requires
        sorted_responses(s),
        0 <= pos < s.len(),
        forall|k: int| 0 <= k < pos ==> key_lt(#[trigger] s[k], r),
        key_eq(r, s[pos]),
    ensures
        insert_response(s, r) == s,
    decreases s.len(),
{
    if pos == 0 {
        assert(!key_lt(r, s[0]));
    } else {
        assert(key_lt(s[0], r));
        assert(!key_lt(r, s[0]));
        assert(!key_eq(r, s[0]));
        let t = s.drop_first();
        assert(sorted_responses(t)) by {
            assert(forall|i: int| 0 <= i < t.len() ==> t[i] == s[i + 1]);
        }
        assert(forall|k: int| 0 <= k < pos - 1 ==> key_lt(#[trigger] t[k], r)) by {
            assert(forall|k: int| 0 <= k < t.len() ==> t[k] == s[k + 1]);
        }
        assert(key_eq(r, t[pos - 1]));
        lemma_insert_response_present(t, r, pos - 1);
        assert(insert_response(s, r) =~= s);
    }
}

impl TranslationResponses {
    /// No response of the collection is malformed, the keys strictly
    /// ascend, and each chunk's segment count is agreed on.
    pub open spec fn wf(&self) -> bool {
        &&& sorted_responses(self@)
        &&& segments_consistent(self@)
        &&& forall|i: int| 0 <= i < self@.len() ==> response_shape_ok(#[trigger] self@[i])
    }

    /// An empty collection.
    pub fn new() -> (r: Self)
        ensures
            r.wf(),
            r@ == Seq::<TranslationResponse>::empty(),
    {
        TranslationResponses { responses: Vec::new() }
    }

    /// A response cannot join the collection when it is malformed or
    /// contradicts an already-collected response of the same chunk on
    /// the chunk's segment count.
    pub open spec fn rejects(&self, r: TranslationResponse) -> bool {
        !response_shape_ok(r)
            || exists|j: int| 0 <= j < self@.len()
                && (#[trigger] self@[j]).sequence_number == r.sequence_number
                && self@[j].num_segments != r.num_segments
    }

    /// Files a response under its key, keeping key order. A response
    /// whose key is already present is dropped; a malformed or
    /// contradictory one is refused.
    pub fn add_translation(&mut self, r: &TranslationResponse) -> (res: E<()>)
        requires
            old(self).wf(),
        ensures
            final(self).wf(),
            res is Err <==> old(self).rejects(*r),
            res is Err ==> res == Err::<(), Error>(Error::Decode) && final(self)@ == old(self)@,
            res is Ok ==> final(self)@ == insert_response(old(self)@, *r),
    {
        if r.num_segments < 1 || r.segment_number >= r.num_segments {
            return Err(Error::Decode);
        }
        let n = self.responses.len();
        let mut pos: usize = 0;
        while pos < n
            invariant
                pos <= n,
                n == self@.len(),
                old(self).wf(),
                self@ == old(self)@,
                forall|k: int| 0 <= k < pos ==> key_lt(#[trigger] self@[k], *r),
            ensures
                pos <= n,
                self@ == old(self)@,
                forall|k: int| 0 <= k < pos ==> key_lt(#[trigger] self@[k], *r),
                pos == n || key_lt(*r, self@[pos as int]),
            decreases n - pos,
        {
            let q = &self.responses[pos];
            if r.sequence_number < q.sequence_number
                || (r.sequence_number == q.sequence_number
                    && r.segment_number < q.segment_number)
            {
                break;
            }
            if r.sequence_number == q.sequence_number
                && r.segment_number == q.segment_number
            {
                // Same key: keep the first arrival, but a contradictory
                // segment count is still refused.
                if r.num_segments != q.num_segments {
                    return Err(Error::Decode);
                }
                proof {
                    lemma_insert_response_present(self@, *r, pos as int);
                }
                return Ok(());
            }
            pos = pos + 1;
        }
        // `pos` is the insertion point: everything before is strictly
        // smaller, and the entry at `pos`, if any, strictly greater.
        proof {
            if pos < self@.len() {
                assert(key_lt(*r, self@[pos as int]));
            }
        }
        // A chunk's entries sit together, so a same-chunk entry, if one
        // exists, stands right at or right before the insertion point.
        if pos < n {
            let q = &self.responses[pos];
            if q.sequence_number == r.sequence_number && q.num_segments != r.num_segments {
                return Err(Error::Decode);
            }
        }
        if pos > 0 {
            let q = &self.responses[pos - 1];
            if q.sequence_number == r.sequence_number && q.num_segments != r.num_segments {
                return Err(Error::Decode);
            }
        }
        proof {
            assert(!old(self).rejects(*r)) by {
                if exists|j: int| 0 <= j < self@.len()
                    && (#[trigger] self@[j]).sequence_number == r.sequence_number
                    && self@[j].num_segments != r.num_segments
                {
                    let j = choose|j: int| 0 <= j < self@.len()
                        && (#[trigger] self@[j]).sequence_number == r.sequence_number
                        && self@[j].num_segments != r.num_segments;
                    if j < pos {
                        assert(key_lt(self@[j], *r));
                        assert(self@[pos - 1].sequence_number == r.sequence_number);
                    } else {
                        assert(key_lt(*r, self@[j]));
                        assert(self@[pos as int].sequence_number == r.sequence_number);
                    }
                }
            }
            lemma_insert_response_at(self@, *r, pos as int);
        }
        let c = TranslationResponse {
            session_id: r.session_id,
            sequence_number: r.sequence_number,
            segment_number: r.segment_number,
            num_segments: r.num_segments,
            text: r.text.clone(),
            is_final: r.is_final,
        };
        let ghost pre = self@;
        self.responses.insert(pos, c);
        proof {
            assert(self@ =~= pre.take(pos as int) + seq![*r] + pre.skip(pos as int));
            assert(final(self).wf()) by {
                let s = self@;
                assert(forall|i: int| 0 <= i < s.len() ==> response_shape_ok(#[trigger] s[i]));
                assert(sorted_responses(s)) by {
                    assert(forall|i: int| 0 <= i < pos ==> s[i] == pre[i]);
                    assert(s[pos as int] == *r);
                    assert(forall|i: int| pos < i < s.len() ==> s[i] == pre[i - 1]);
                }
                assert(segments_consistent(s)) by {
                    assert(forall|i: int| 0 <= i < pos ==> s[i] == pre[i]);
                    assert(forall|i: int| pos < i < s.len() ==> s[i] == pre[i - 1]);
                    assert(forall|j: int|
                        0 <= j < pre.len() && (#[trigger] pre[j]).sequence_number == r.sequence_number
                            ==> pre[j].num_segments == r.num_segments) by {
                        assert(forall|j: int|
                            0 <= j < pre.len() && (#[trigger] pre[j]).sequence_number == r.sequence_number
                                && pre[j].num_segments != r.num_segments ==> false) by {
                            assert forall|j: int|
                                0 <= j < pre.len()
                                    && (#[trigger] pre[j]).sequence_number == r.sequence_number
                                    && pre[j].num_segments != r.num_segments
                            implies false by {
                                if j < pos {
                                    assert(key_lt(pre[j], *r));
                                    assert(pre[pos - 1].sequence_number == r.sequence_number);
                                } else {
                                    assert(key_lt(*r, pre[j]));
                                    assert(pre[pos as int].sequence_number == r.sequence_number);
                                }
                            }
                        }
                    }
                }
            }
        }
        Ok(())
    }

    /// How many chunks are complete: one per final response collected.
    /// (Final responses of distinct entries have distinct chunks, since
    /// a chunk's entries agree on the segment count.)
    pub fn translation_count(&self) -> (r: E<usize>)
        requires
            self.wf(),
        ensures
            r matches Ok(c) && c == self@.filter(|t: TranslationResponse| is_final_response(t)).len(),
    {
        let mut count: usize = 0;
        let mut i: usize = 0;
        proof {
            assert(self@.take(0).filter(|t: TranslationResponse| is_final_response(t)) =~= Seq::<TranslationResponse>::empty());
        }
        while i < self.responses.len()
            invariant
                i <= self@.len(),
                self.wf(),
                count == self@.take(i as int).filter(|t: TranslationResponse| is_final_response(t)).len(),
                count <= i,
            decreases self@.len() - i,
        {
            let q = &self.responses[i];
            let ghost pre = self@.take(i as int);
            proof {
                assert(self@.take(i as int + 1) =~= pre + seq![self@[i as int]]);
                Seq::<TranslationResponse>::filter_distributes_over_add(
                    pre,
                    seq![self@[i as int]],
                    |t: TranslationResponse| is_final_response(t),
                );
                reveal_with_fuel(Seq::filter, 2);
            }
            if q.segment_number + 1 == q.num_segments {
                count = count + 1;
            }
            i = i + 1;
        }
        proof {
            assert(self@.take(self@.len() as int) =~= self@);
        }
        Ok(count)
    }

    /// The transcript so far: every collected text in chunk order, then
    /// segment order, joined by single spaces.
    pub fn to_string(&self) -> (r: String)
        ensures
            r@ == transcript_of(self@),
    {
        let mut texts: Vec<String> = Vec::new();
        let mut i: usize = 0;
        while i < self.responses.len()
            invariant
                i <= self@.len(),
                texts@.len() == i,
                forall|k: int| 0 <= k < i ==> (#[trigger] texts@[k])@ == self@[k].text@,
            decreases self@.len() - i,
        {
            texts.push(self.responses[i].text.clone());
            i = i + 1;
        }
        let r = join_with_spaces(&texts);
        proof {
            assert(views_of(texts@) =~= self@.map_values(|t: TranslationResponse| t.text@));
        }
        r
    }

    /// Rebuilds a collection from a persisted transcript: one completed
    /// single-segment chunk per space-separated piece, in order, so the
    /// transcript of the result is the persisted text again.
    pub fn new_from_string(s: &str) -> (r: Self)
        ensures
            r.wf(),
            transcript_of(r@) == s@,
            forall|i: int| 0 <= i < r@.len() ==> is_final_response(#[trigger] r@[i]),
            r@.len() >= 1,
            forall|i: int| 0 <= i < r@.len() ==> (#[trigger] r@[i]).sequence_number == i,
    {
        let pieces = split_spaces(s);
        let mut responses: Vec<TranslationResponse> = Vec::new();
        let mut i: usize = 0;
        while i < pieces.len()
            invariant
                i <= pieces@.len(),
                responses@.len() == i,
                forall|k: int| 0 <= k < i ==> (#[trigger] responses@[k]).sequence_number == k
                    && responses@[k].segment_number == 0
                    && responses@[k].num_segments == 1
                    && responses@[k].text@ == pieces@[k]@
                    && responses@[k].is_final,
            decreases pieces@.len() - i,
        {
            responses.push(TranslationResponse {
                session_id: 0,
                sequence_number: i,
                segment_number: 0,
                num_segments: 1,
                text: pieces[i].clone(),
                is_final: true,
            });
            i = i + 1;
        }
        let r = TranslationResponses { responses };
        proof {
            assert(r@.map_values(|t: TranslationResponse| t.text@) =~= views_of(pieces@));
        }
        r
    }
}

} // verus!
