//! The quiz session: a never-empty, cyclically indexed sequence of prompts,
//! an input buffer, and the reveal/feedback state machine.
//!
//! The session starts on a single placeholder prompt. When the external
//! source delivers records they replace the sequence; an empty delivery
//! leaves the session untouched. Submitting an answer reveals the outcome,
//! and advancing moves to the next prompt cyclically. Issuing the
//! progress-update request for a correct answer is the caller's job: `submit`
//! returns the base word to report, and observes nothing of that request.

use vstd::prelude::*;
use crate::blank::blank;
use crate::blank::lower_of;
use crate::blank::prompt_for;
use crate::evaluate::is_correct;
use crate::record::Prompt;
use crate::record::WordRecord;
use crate::record::is_placeholder;

verus! {

/// Outcome of the most recent submission, cleared when the session advances.
#[derive(Clone, Copy, PartialEq, Eq, Structural, Debug)]
pub enum LastResult {
    /// Nothing has been submitted since the last advance.
    NoneYet,
    Correct,
    Incorrect,
}

/// The in-progress quiz state. The fields are exposed for observation; the
/// rendering layer is expected to mutate the session only through its
/// methods, which keep the sequence non-empty.
pub struct Session {
    /// The prompts, in source order; never empty.
    pub sequence: Vec<Prompt>,
    /// Position in the sequence; read modulo the sequence's length.
    pub current_index: usize,
    /// The user's pending input.
    pub input_buffer: String,
    /// Whether the answer is currently shown (`Revealed`); a session with
    /// `revealed == false` is `Active`.
    pub revealed: bool,
    /// Outcome of the most recent submission.
    pub last_result: LastResult,
    /// Whether a non-empty data delivery has been applied already.
    pub refreshed: bool,
}

/// While the sequence is still the default singleton — as after any run of
/// interactions during which the source delivered nothing — the active
/// prompt is the placeholder, whatever the position: the single prompt of a
/// session the source never fed has all placeholder field values.
pub proof fn lemma_placeholder_active(s: Session)
    requires
        s.sequence@.len() == 1,
        is_placeholder(s.sequence@[0]),
    ensures
        is_placeholder(s.sequence@[s.current_index as int % s.sequence@.len() as int]),
{
    vstd::arithmetic::div_mod::lemma_mod_division_less_than_divisor(s.current_index as int, 1);
}

/// The prompt a session at position `index` is showing: the sequence is read
/// cyclically, so the effective position is `index` modulo the length.
pub fn prompt_at(prompts: &Vec<Prompt>, index: usize) -> (p: &Prompt)
    requires
        prompts@.len() >= 1,
    ensures
        *p == prompts@[index as int % prompts@.len() as int],
{
    let i: usize = index % prompts.len();
    &prompts[i]
}

impl Session {
    /// The sequence is never empty, so an active prompt always exists.
    pub open spec fn wf(self) -> bool {
        self.sequence@.len() >= 1
    }

    /// A fresh session: active, at position zero, with an empty input buffer
    /// and the single placeholder prompt.
    pub fn new() -> (s: Session)
        ensures
            s.wf(),
            s.sequence@.len() == 1,
            is_placeholder(s.sequence@[0]),
            s.current_index == 0,
            s.input_buffer@ == Seq::<char>::empty(),
            !s.revealed,
            s.last_result == LastResult::NoneYet,
            !s.refreshed,
    {
        Session {
            sequence: vec![Prompt::placeholder()],
            current_index: 0,
            input_buffer: String::new(),
            revealed: false,
            last_result: LastResult::NoneYet,
            refreshed: false,
        }
    }

    /// The prompt the session is currently showing.
    pub fn active_prompt(&self) -> (p: &Prompt)
        requires
            self.wf(),
        ensures
            *p == self.sequence@[self.current_index as int % self.sequence@.len() as int],
    {
        prompt_at(&self.sequence, self.current_index)
    }

    /// Record an edit of the input buffer; nothing else changes.
    pub fn set_input(&mut self, input: String)
        ensures
            final(self).input_buffer == input,
            final(self).sequence == old(self).sequence,
            final(self).current_index == old(self).current_index,
            final(self).revealed == old(self).revealed,
            final(self).last_result == old(self).last_result,
            final(self).refreshed == old(self).refreshed,
    {
        self.input_buffer = input;
    }

    /// Submit an answer for the active prompt. While the session is active,
    /// this evaluates the input and reveals the outcome: a correct answer
    /// clears the input buffer and returns the base word for which a
    /// progress update should be issued; a wrong answer leaves the buffer
    /// untouched and returns nothing. While the answer is already revealed,
    /// submitting changes nothing.
    pub fn submit(&mut self, input: &String) -> (issue: Option<String>)
        requires
            old(self).wf(),
        ensures
            final(self).wf(),
            final(self).sequence == old(self).sequence,
            final(self).current_index == old(self).current_index,
            final(self).refreshed == old(self).refreshed,
            old(self).revealed ==> *final(self) == *old(self) && issue is None,
            !old(self).revealed ==> ({
                let active = old(self).sequence@[old(self).current_index as int % old(
                    self,
                ).sequence@.len() as int];
                let correct = lower_of(input@) == lower_of(active.base_word@);
                &&& final(self).revealed
                &&& correct ==> final(self).last_result == LastResult::Correct
                &&& !correct ==> final(self).last_result == LastResult::Incorrect
                &&& correct ==> final(self).input_buffer@ == Seq::<char>::empty()
                &&& !correct ==> final(self).input_buffer == old(self).input_buffer
                &&& correct ==> (issue matches Some(w) && w@ == active.base_word@)
                &&& !correct ==> issue is None
            }),
    {
        if self.revealed {
            return None;
        }
        let active = prompt_at(&self.sequence, self.current_index);
        let correct = is_correct(input, active);
        let word = if correct {
            Some(active.base_word.clone())
        } else {
            None
        };
        self.revealed = true;
        if correct {
            self.last_result = LastResult::Correct;
            self.input_buffer = String::new();
        } else {
            self.last_result = LastResult::Incorrect;
        }
        word
    }

    /// Move on after a reveal: while the answer is shown, step to the next
    /// prompt cyclically, clear the input buffer and the feedback, and
    /// become active again. While the session is active this is a no-op.
    pub fn advance(&mut self)
        requires
            old(self).wf(),
        ensures
            final(self).wf(),
            !old(self).revealed ==> *final(self) == *old(self),
            old(self).revealed ==> ({
                let n = old(self).sequence@.len() as int;
                &&& final(self).sequence == old(self).sequence
                &&& final(self).current_index as int == (old(self).current_index as int + 1) % n
                &&& !final(self).revealed
                &&& final(self).input_buffer@ == Seq::<char>::empty()
                &&& final(self).last_result == LastResult::NoneYet
                &&& final(self).refreshed == old(self).refreshed
            }),
    {
        if !self.revealed {
            return;
        }
        let n: usize = self.sequence.len();
        let effective: usize = self.current_index % n;
        let next: usize = (effective + 1) % n;
        proof {
            let a = self.current_index as int;
            let m = n as int;
            let r = a % m;
            vstd::arithmetic::div_mod::lemma_mod_division_less_than_divisor(a, m);
            vstd::arithmetic::div_mod::lemma_fundamental_div_mod(a, m);
            if r + 1 < m {
                vstd::arithmetic::div_mod::lemma_small_mod((r + 1) as nat, m as nat);
                vstd::arithmetic::div_mod::lemma_mod_multiples_vanish(a / m, r + 1, m);
                assert(a + 1 == m * (a / m) + (r + 1));
            } else {
                assert(r + 1 == m);
                vstd::arithmetic::div_mod::lemma_mod_self_0(m);
                vstd::arithmetic::div_mod::lemma_mod_multiples_vanish(a / m + 1, 0, m);
                vstd::arithmetic::div_mod::lemma_small_mod(0nat, m as nat);
                assert(m * (a / m + 1) == m * (a / m) + m) by (nonlinear_arith);
                assert(a + 1 == m * (a / m + 1));
            }
        }
        self.current_index = next;
        self.input_buffer = String::new();
        self.revealed = false;
        self.last_result = LastResult::NoneYet;
    }

    /// Apply a data delivery. A non-empty batch replaces the sequence with
    /// the records' prompts in source order, and the first such delivery
    /// also rewinds the position to the start; an empty batch (the source
    /// had nothing) leaves the session exactly as it was.
    pub fn on_data_refresh(&mut self, records: &Vec<WordRecord>)
        requires
            old(self).wf(),
        ensures
            final(self).wf(),
            records@.len() == 0 ==> *final(self) == *old(self),
            records@.len() > 0 ==> ({
                &&& final(self).sequence@.len() == records@.len()
                &&& forall|k: int|
                    0 <= k < records@.len() ==> prompt_for(
                        #[trigger] final(self).sequence@[k],
                        records@[k],
                    )
                &&& final(self).current_index == (if old(self).refreshed {
                    old(self).current_index
                } else {
                    0
                })
                &&& final(self).refreshed
                &&& final(self).input_buffer == old(self).input_buffer
                &&& final(self).revealed == old(self).revealed
                &&& final(self).last_result == old(self).last_result
            }),
    {
        if records.len() == 0 {
            return;
        }
        let mut prompts: Vec<Prompt> = Vec::new();
        let mut i: usize = 0;
        while i < records.len()
            invariant
                0 <= i <= records@.len(),
                prompts@.len() == i,
                forall|k: int| 0 <= k < i ==> prompt_for(#[trigger] prompts@[k], records@[k]),
            decreases records@.len() - i,
        {
            prompts.push(blank(&records[i]));
            i += 1;
        }
        self.sequence = prompts;
        if !self.refreshed {
            self.current_index = 0;
            self.refreshed = true;
        }
    }
}

} // verus!
