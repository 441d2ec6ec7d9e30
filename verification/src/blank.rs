//! Sentence blanking: hide the inflected form of a word inside its sentence.
//!
//! The search is case-insensitive: both the sentence and the inflected form
//! are lowercased, the leftmost occurrence is located in the lowercase pair,
//! and the matching span of the original sentence is replaced by underscores.
//! When no occurrence is found (or lowercasing did not keep the sentence's
//! length, so no span of the original can be pointed at), the sentence is
//! returned with a trailing blank marker appended instead.

use vstd::prelude::*;
use crate::record::Prompt;
use crate::record::WordRecord;

verus! {

/// The sequence of characters that `str::to_lowercase` produces for `s`.
pub uninterp spec fn lower_of(s: Seq<char>) -> Seq<char>;

/// Relies on str::to_lowercase: the result is a function of the characters
/// alone, and an empty string stays empty.
#[verifier::external_body]
pub(crate) fn lowercase(s: &str) -> (r: String)
    ensures
        r@ == lower_of(s@),
        s@.len() == 0 ==> r@.len() == 0,
{
    s.to_lowercase()
}

/// The needle `li` matches the haystack `ls` at position `i`.
pub open spec fn is_match_at(ls: Seq<char>, li: Seq<char>, i: int) -> bool {
    &&& 0 <= i
    &&& i + li.len() <= ls.len()
    &&& forall|k: int| 0 <= k < li.len() ==> ls[i + k] == li[k]
}

/// The needle `li` occurs somewhere in the haystack `ls`.
pub open spec fn occurs(ls: Seq<char>, li: Seq<char>) -> bool {
    exists|i: int| is_match_at(ls, li, i)
}

/// Position of the leftmost match of `li` in `ls` at or after `i`,
/// or -1 when there is none.
pub open spec fn first_match_from(ls: Seq<char>, li: Seq<char>, i: int) -> int
    decreases ls.len() - i,
{
    if i < 0 || i + li.len() > ls.len() {
        -1
    } else if is_match_at(ls, li, i) {
        i
    } else {
        first_match_from(ls, li, i + 1)
    }
}

/// Position of the leftmost match of `li` in `ls`, or -1 when there is none.
pub open spec fn first_match(ls: Seq<char>, li: Seq<char>) -> int {
    first_match_from(ls, li, 0)
}

/// `s` with the span `[i, i + n)` replaced by underscores and every other
/// character untouched.
pub open spec fn replace_span(s: Seq<char>, i: int, n: int) -> Seq<char> {
    Seq::new(s.len(), |k: int| if i <= k < i + n { '_' } else { s[k] })
}

/// The marker appended to a sentence in which the inflected form was not found.
pub open spec fn blank_marker() -> Seq<char> {
    seq![' ', '(', '_', '_', '_', ')']
}

/// The blanked sentence derived from sentence `s`, its lowercase form `ls`,
/// and the lowercase inflected form `li`: the leftmost occurrence of `li` in
/// `ls` blanked out of `s`, or `s` with the marker appended when `li` does
/// not occur or `ls` cannot index into `s`.
pub open spec fn blanked(s: Seq<char>, ls: Seq<char>, li: Seq<char>) -> Seq<char> {
    if ls.len() == s.len() && first_match(ls, li) >= 0 {
        replace_span(s, first_match(ls, li), li.len() as int)
    } else {
        s + blank_marker()
    }
}

/// A match found at or after `i` by `first_match_from` is the leftmost one
/// there; and a result of -1 means no position at or after `i` matches.
pub proof fn lemma_first_match_from(ls: Seq<char>, li: Seq<char>, i: int)
    requires
        0 <= i,
    ensures
        first_match_from(ls, li, i) >= 0 ==> {
            let r = first_match_from(ls, li, i);
            &&& i <= r
            &&& is_match_at(ls, li, r)
            &&& forall|j: int| i <= j < r ==> !is_match_at(ls, li, j)
        },
        first_match_from(ls, li, i) < 0 ==> forall|j: int| j >= i ==> !is_match_at(ls, li, j),
    decreases ls.len() - i,
{
    if i + li.len() > ls.len() {
        assert forall|j: int| j >= i implies !is_match_at(ls, li, j) by {
            assert(j + li.len() > ls.len());
        }
    } else if is_match_at(ls, li, i) {
    } else {
        lemma_first_match_from(ls, li, i + 1);
    }
}

/// `occurs` and `first_match` agree: some position matches exactly when the
/// leftmost-match search succeeds.
pub proof fn lemma_occurs_iff_found(ls: Seq<char>, li: Seq<char>)
    ensures
        occurs(ls, li) <==> first_match(ls, li) >= 0,
{
    lemma_first_match_from(ls, li, 0);
    if occurs(ls, li) {
        let i = choose|i: int| is_match_at(ls, li, i);
        assert(i >= 0);
    }
}

/// A position that matches, before which nothing matches, is the leftmost match.
proof fn lemma_first_match_is(ls: Seq<char>, li: Seq<char>, i: int)
    requires
        is_match_at(ls, li, i),
        forall|j: int| 0 <= j < i ==> !is_match_at(ls, li, j),
    ensures
        first_match(ls, li) == i,
{
    lemma_first_match_from(ls, li, 0);
    lemma_occurs_iff_found(ls, li);
}

/// Whether `li` matches `ls` at position `i`; `m` is the length of `li`.
fn match_at(ls: &String, li: &String, i: usize, m: usize) -> (r: bool)
    requires
        m == li@.len(),
        i + m <= ls@.len(),
        ls@.len() <= usize::MAX,
    ensures
        r == is_match_at(ls@, li@, i as int),
{
    let mut k: usize = 0;
    while k < m
        invariant
            m == li@.len(),
            i + m <= ls@.len(),
            ls@.len() <= usize::MAX,
            0 <= k <= m,
            forall|j: int| 0 <= j < k ==> ls@[i + j] == li@[j],
        decreases m - k,
    {
        if ls.as_str().get_char(i + k) != li.as_str().get_char(k) {
            return false;
        }
        k += 1;
    }
    true
}

/// Position of the leftmost occurrence of `li` in `ls`, if any.
fn find_first(ls: &String, li: &String) -> (r: Option<usize>)
    ensures
        r matches Some(i) ==> first_match(ls@, li@) == i,
        r is None ==> first_match(ls@, li@) < 0,
{
    let n: usize = ls.as_str().unicode_len();
    let m: usize = li.as_str().unicode_len();
    if m > n {
        proof {
            lemma_first_match_from(ls@, li@, 0);
            lemma_occurs_iff_found(ls@, li@);
        }
        return None;
    }
    let mut i: usize = 0;
    while i <= n - m
        invariant
            n == ls@.len(),
            m == li@.len(),
            m <= n,
            0 <= i <= n - m + 1,
            forall|j: int| 0 <= j < i ==> !is_match_at(ls@, li@, j),
        decreases n - m + 1 - i,
    {
        if match_at(ls, li, i, m) {
            proof {
                lemma_first_match_is(ls@, li@, i as int);
            }
            return Some(i);
        }
        proof {
            assert(!is_match_at(ls@, li@, i as int));
            assert(m >= 1) by {
                if m == 0 {
                    assert(is_match_at(ls@, li@, i as int));
                }
            }
        }
        i += 1;
    }
    proof {
        assert forall|j: int| 0 <= j implies !is_match_at(ls@, li@, j) by {
            if j + li@.len() <= ls@.len() {
                assert(j < i);
            }
        }
        lemma_first_match_from(ls@, li@, 0);
        lemma_occurs_iff_found(ls@, li@);
    }
    None
}

/// The blanked sentence computed from the sentence and the lowercase forms
/// of the sentence and of the inflected word.
pub fn blanked_sentence(sentence: &String, lower_sentence: &String, lower_inflected: &String) -> (r:
    String)
    ensures
        r@ == blanked(sentence@, lower_sentence@, lower_inflected@),
{
    let total: usize = sentence.as_str().unicode_len();
    let ls_len: usize = lower_sentence.as_str().unicode_len();
    if ls_len != total {
        return append_marker(sentence);
    }
    match find_first(lower_sentence, lower_inflected) {
        Some(i) => {
            let m: usize = lower_inflected.as_str().unicode_len();
            proof {
                lemma_first_match_from(lower_sentence@, lower_inflected@, 0);
            }
            let pre = sentence.as_str().substring_char(0, i);
            let mut r = String::from_str(pre);
            let mut k: usize = 0;
            proof {
                reveal_strlit("_");
                assert(r@ =~= sentence@.subrange(0, i as int) + Seq::<char>::empty());
            }
            while k < m
                invariant
                    i + m <= sentence@.len(),
                    "_"@.len() == 1 && "_"@[0] == '_',
                    0 <= k <= m,
                    r@ =~= sentence@.subrange(0, i as int) + Seq::new(k as nat, |j: int| '_'),
                decreases m - k,
            {
                r.append("_");
                k += 1;
                proof {
                    assert(r@ =~= sentence@.subrange(0, i as int) + Seq::new(
                        k as nat,
                        |j: int| '_',
                    ));
                }
            }
            let post = sentence.as_str().substring_char(i + m, total);
            r.append(post);
            proof {
                assert(r@ =~= replace_span(sentence@, i as int, m as int));
            }
            r
        },
        None => append_marker(sentence),
    }
}

/// The sentence with the blank marker appended.
fn append_marker(sentence: &String) -> (r: String)
    ensures
        r@ == sentence@ + blank_marker(),
{
    let r = sentence.clone().concat(" (___)");
    proof {
        reveal_strlit(" (___)");
        assert(r@ =~= sentence@ + blank_marker());
    }
    r
}

/// Whether `p` is the prompt derived from record `r`: all record fields
/// carried over and the blanked sentence computed from the record.
pub open spec fn prompt_for(p: Prompt, r: WordRecord) -> bool {
    &&& p.source_sentence@ == r.source_sentence@
    &&& p.translated_sentence@ == r.translated_sentence@
    &&& p.base_word@ == r.base_word@
    &&& p.translated_word@ == r.translated_word@
    &&& p.inflected_form@ == r.inflected_form@
    &&& p.blanked_sentence@ == blanked(
        r.source_sentence@,
        lower_of(r.source_sentence@),
        lower_of(r.inflected_form@),
    )
    &&& p.correct_attempts == r.correct_attempts
}

/// Turn a record into its prompt: carry every field over and derive the
/// blanked sentence by the case-insensitive search.
pub fn blank(record: &WordRecord) -> (p: Prompt)
    ensures
        prompt_for(p, *record),
{
    let ls = lowercase(record.source_sentence.as_str());
    let li = lowercase(record.inflected_form.as_str());
    let blanked_text = blanked_sentence(&record.source_sentence, &ls, &li);
    Prompt {
        source_sentence: record.source_sentence.clone(),
        translated_sentence: record.translated_sentence.clone(),
        base_word: record.base_word.clone(),
        translated_word: record.translated_word.clone(),
        inflected_form: record.inflected_form.clone(),
        blanked_sentence: blanked_text,
        correct_attempts: record.correct_attempts,
    }
}

/// When the lowercase forms keep both lengths and the inflected form occurs,
/// the blanked sentence keeps the sentence's length, carries underscores over
/// exactly the leftmost matching span, whose length is the inflected form's
/// length, and leaves every character outside that span unchanged.
pub proof fn lemma_blank_found(s: Seq<char>, ls: Seq<char>, li: Seq<char>, f: Seq<char>)
    requires
        ls.len() == s.len(),
        li.len() == f.len(),
        occurs(ls, li),
    ensures
        blanked(s, ls, li).len() == s.len(),
        ({
            let i = first_match(ls, li);
            &&& 0 <= i
            &&& i + f.len() <= s.len()
            &&& is_match_at(ls, li, i)
            &&& forall|j: int| 0 <= j < i ==> !is_match_at(ls, li, j)
            &&& forall|k: int| i <= k < i + f.len() ==> blanked(s, ls, li)[k] == '_'
            &&& forall|k: int|
                0 <= k < s.len() && !(i <= k < i + f.len()) ==> blanked(s, ls, li)[k] == s[k]
        }),
{
    lemma_occurs_iff_found(ls, li);
    lemma_first_match_from(ls, li, 0);
}

/// When the inflected form does not occur in the sentence, or the lowercase
/// sentence cannot index into the original, the blanked sentence is the
/// sentence with the marker appended.
pub proof fn lemma_blank_absent(s: Seq<char>, ls: Seq<char>, li: Seq<char>)
    requires
        !occurs(ls, li) || ls.len() != s.len(),
    ensures
        blanked(s, ls, li) == s + blank_marker(),
{
    lemma_occurs_iff_found(ls, li);
}

} // verus!
