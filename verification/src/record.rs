//! The word-pair record supplied by the data source, and the prompt derived
//! from it once the blanked sentence has been computed.

use vstd::prelude::*;

verus! {

/// A sentence/word pair as delivered by the external record source.
///
/// `inflected_form` is expected to occur inside `source_sentence`; when it
/// does not, blanking falls back to appending a marker instead of failing.
pub struct WordRecord {
    /// Sentence in the language being learned.
    pub source_sentence: String,
    /// Translation of the whole sentence.
    pub translated_sentence: String,
    /// Canonical (base) form of the word; answers are checked against it.
    pub base_word: String,
    /// Translation of the word, shown as a hint.
    pub translated_word: String,
    /// The exact form of the word as it appears in the sentence.
    pub inflected_form: String,
    /// Number of successful attempts recorded so far.
    pub correct_attempts: u32,
}

/// A record together with its blanked sentence, computed once at ingestion
/// and immutable afterwards.
pub struct Prompt {
    pub source_sentence: String,
    pub translated_sentence: String,
    pub base_word: String,
    pub translated_word: String,
    pub inflected_form: String,
    pub blanked_sentence: String,
    pub correct_attempts: u32,
}

/// All fields of the placeholder prompt hold the text `"default"` and its
/// attempt count is zero; a fresh session starts on this prompt until the
/// source delivers data.
pub open spec fn is_placeholder(p: Prompt) -> bool {
    &&& p.source_sentence@ == "default"@
    &&& p.translated_sentence@ == "default"@
    &&& p.base_word@ == "default"@
    &&& p.translated_word@ == "default"@
    &&& p.inflected_form@ == "default"@
    &&& p.blanked_sentence@ == "default"@
    &&& p.correct_attempts == 0
}

impl Prompt {
    /// The synthetic prompt a session falls back to while no data has arrived.
    pub fn placeholder() -> (p: Prompt)
        ensures
            is_placeholder(p),
    {
        Prompt {
            source_sentence: String::from_str("default"),
            translated_sentence: String::from_str("default"),
            base_word: String::from_str("default"),
            translated_word: String::from_str("default"),
            inflected_form: String::from_str("default"),
            blanked_sentence: String::from_str("default"),
            correct_attempts: 0,
        }
    }

    /// A field-by-field copy of the prompt.
    pub fn duplicate(&self) -> (p: Prompt)
        ensures
            p == *self,
    {
        Prompt {
            source_sentence: self.source_sentence.clone(),
            translated_sentence: self.translated_sentence.clone(),
            base_word: self.base_word.clone(),
            translated_word: self.translated_word.clone(),
            inflected_form: self.inflected_form.clone(),
            blanked_sentence: self.blanked_sentence.clone(),
            correct_attempts: self.correct_attempts,
        }
    }
}

} // verus!
