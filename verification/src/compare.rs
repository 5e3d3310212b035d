use vstd::prelude::*;
use vstd::string::*;
use crate::error::E;

verus! {

// Comparison of a session's transcript against a reference
// translation. The word-level diff itself comes from an outside crate;
// its result is a pure function of the two texts and carries a name
// here, so every caller's contract is exact in that name.

/// The identifiers a comparison page is built from.
pub struct Comparison {
    pub resource: String,
    pub uuid: String,
    pub lang: String,
}

/// Bundles the identifiers of one comparison.
pub fn get_comparison(resource_path: &str, uuid: &str, lang: &str) -> (c: Comparison)
    ensures
        c.resource@ == resource_path@,
        c.uuid@ == uuid@,
        c.lang@ == lang@,
{
    Comparison {
        resource: String::from_str(resource_path),
        uuid: String::from_str(uuid),
        lang: String::from_str(lang),
    }
}

/// One step of the word diff, as the API reports it.
pub struct Change {
    pub change_type: String,
    pub content: String,
}

/// The word-level diff from the first text to the second: for each
/// step a tag (0 equal, 1 delete, 2 insert) and the words or
/// whitespace it covers. A function of the two texts alone.
pub uninterp spec fn word_diff_of(
    old_text: Seq<char>,
    new_text: Seq<char>,
) -> Seq<(u8, Seq<char>)>;

/// Relies on `similar::TextDiff::diff_words` and `iter_all_changes`:
/// a word-level diff from the first text to the second, deterministic
/// in the two texts; each change carries one of the three tags, here
/// written 0 for equal, 1 for delete, 2 for insert.
#[verifier::external_body]
fn diff_words_raw(old_text: &str, new_text: &str) -> (r: Vec<(u8, String)>)
    ensures
        r@.map_values(|p: (u8, String)| (p.0, p.1@)) == word_diff_of(old_text@, new_text@),
        forall|i: int| 0 <= i < r@.len() ==> (#[trigger] r@[i]).0 <= 2,
{
    let diff = similar::TextDiff::configure().diff_words(old_text, new_text);
    diff.iter_all_changes().map(|c| {
        let tag: u8 = match c.tag() {
            similar::ChangeTag::Equal => 0,
            similar::ChangeTag::Delete => 1,
            similar::ChangeTag::Insert => 2,
        };
        (tag, c.value().to_string())
    }).collect()
}

/// The label each diff tag carries on the API.
pub open spec fn tag_name(t: u8) -> Seq<char> {
    if t == 0 {
        "equal"@
    } else if t == 1 {
        "delete"@
    } else {
        "insert"@
    }
}

fn tag_label(t: u8) -> (r: String)
    ensures
        r@ == tag_name(t),
{
    if t == 0 {
        String::from_str("equal")
    } else if t == 1 {
        String::from_str("delete")
    } else {
        String::from_str("insert")
    }
}

/// The word-level changes between a session's transcript and the
/// reference translation, in diff order, each labelled equal, delete
/// or insert.
pub fn changes(transcript: &str, reference: &str) -> (r: E<Vec<Change>>)
    ensures
        r matches Ok(cs) && cs@.len() == word_diff_of(transcript@, reference@).len()
            && forall|i: int| 0 <= i < cs@.len()
            ==> (#[trigger] cs@[i]).change_type@ == tag_name(
                word_diff_of(transcript@, reference@)[i].0,
            ) && cs@[i].content@ == word_diff_of(transcript@, reference@)[i].1,
{
    let raw = diff_words_raw(transcript, reference);
    let ghost named = word_diff_of(transcript@, reference@);
    proof {
        assert(raw@.map_values(|p: (u8, String)| (p.0, p.1@)).len() == named.len());
    }
    let mut out: Vec<Change> = Vec::new();
    let mut i: usize = 0;
    while i < raw.len()
        invariant
            i <= raw@.len(),
            raw@.map_values(|p: (u8, String)| (p.0, p.1@)) == named,
            out@.len() == i,
            forall|k: int| 0 <= k < i ==> (#[trigger] out@[k]).change_type@ == tag_name(named[k].0)
                && out@[k].content@ == named[k].1,
        decreases raw@.len() - i,
    {
        let (tag, content) = (raw[i].0, raw[i].1.clone());
        proof {
            assert(named[i as int] == (raw@[i as int].0, raw@[i as int].1@));
        }
        out.push(Change { change_type: tag_label(tag), content });
        i = i + 1;
    }
    Ok(out)
}

} // verus!
