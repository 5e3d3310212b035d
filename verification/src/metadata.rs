use vstd::prelude::*;

verus! {

// A reference resource's descriptive metadata, as read from its
// `metadata.json`. Reading and parsing the file is the caller's work;
// here the record is plain data with an exact lookup.

/// Descriptive metadata of one reference resource.
pub struct Metadata {
    pub name: String,
    pub description: String,
    pub url: String,
    pub license: String,
    /// Filename of the resource's audio.
    pub audio: String,
    /// Seconds to skip at the start of the audio.
    pub skip: u32,
    /// The resource's native language.
    pub native: String,
    pub transcript: Option<String>,
    /// Language tag to translation filename, in file order.
    pub translations: Vec<(String, String)>,
    /// Directory the metadata file was found in.
    pub enclosing_directory: String,
}

impl Metadata {
    /// The translation filename recorded for a language: the first
    /// entry carrying the tag, if any.
    pub fn translation_for(&self, lang: &String) -> (r: Option<&String>)
        ensures
            r matches Some(f) ==> exists|i: int|
                0 <= i < self.translations@.len()
                    && (#[trigger] self.translations@[i]).0@ == lang@
                    && f@ == self.translations@[i].1@,
            r is None ==> forall|i: int|
                0 <= i < self.translations@.len()
                    ==> (#[trigger] self.translations@[i]).0@ != lang@,
    {
        let mut i: usize = 0;
        while i < self.translations.len()
            invariant
                i <= self.translations@.len(),
                forall|k: int| 0 <= k < i ==> (#[trigger] self.translations@[k]).0@ != lang@,
            decreases self.translations@.len() - i,
        {
            if self.translations[i].0 == *lang {
                return Some(&self.translations[i].1);
            }
            i = i + 1;
        }
        None
    }
}

/// What the practice page is rendered from.
pub struct PracticeData {
    pub metadata: Metadata,
    pub resource_path: String,
    pub lang: String,
}

} // verus!
