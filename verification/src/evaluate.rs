//! Answer evaluation: a user's input is correct exactly when it equals the
//! prompt's base word after both are lowercased. No trimming is performed;
//! surrounding whitespace makes an answer wrong.

use vstd::prelude::*;
use crate::blank::lower_of;
use crate::blank::lowercase;
use crate::record::Prompt;

verus! {

/// Whether `input` names the prompt's base word, compared case-insensitively
/// and otherwise exactly.
pub fn is_correct(input: &String, prompt: &Prompt) -> (r: bool)
    ensures
        r == (lower_of(input@) == lower_of(prompt.base_word@)),
{
    let lowered_input = lowercase(input.as_str());
    let lowered_base = lowercase(prompt.base_word.as_str());
    lowered_input == lowered_base
}

} // verus!
