use husker::LastResult;
use husker::Prompt;
use husker::Session;
use husker::WordRecord;
use husker::blank;
use husker::is_correct;
use husker::prompt_at;

fn record(
    source: &str,
    translated: &str,
    base: &str,
    hint: &str,
    inflected: &str,
    attempts: u32,
) -> WordRecord {
    WordRecord {
        source_sentence: String::from(source),
        translated_sentence: String::from(translated),
        base_word: String::from(base),
        translated_word: String::from(hint),
        inflected_form: String::from(inflected),
        correct_attempts: attempts,
    }
}

fn forlot_record() -> WordRecord {
    record(
        "De forlot huset i all hast.",
        "They left the house in a hurry.",
        "forlot",
        "left",
        "forlot",
        0,
    )
}

#[test]
fn blank_replaces_first_span_with_underscores() {
    let p = blank(&forlot_record());
    assert_eq!(p.blanked_sentence, "De ______ huset i all hast.");
}

#[test]
fn blank_keeps_length_and_other_characters() {
    let p = blank(&forlot_record());
    let source: Vec<char> = p.source_sentence.chars().collect();
    let blanked: Vec<char> = p.blanked_sentence.chars().collect();
    assert_eq!(source.len(), blanked.len());
    for (i, (s, b)) in source.iter().zip(blanked.iter()).enumerate() {
        if (3..9).contains(&i) {
            assert_eq!(*b, '_');
        } else {
            assert_eq!(s, b);
        }
    }
}

#[test]
fn blank_appends_marker_when_absent() {
    let p = blank(&record(
        "Han løp fort.",
        "He ran fast.",
        "løpe",
        "run",
        "løper",
        0,
    ));
    assert_eq!(p.blanked_sentence, "Han løp fort. (___)");
}

#[test]
fn blank_search_is_case_insensitive() {
    let p = blank(&record(
        "De Forlot huset i all hast.",
        "They left the house in a hurry.",
        "forlate",
        "leave",
        "forlot",
        0,
    ));
    assert_eq!(p.blanked_sentence, "De ______ huset i all hast.");
}

#[test]
fn blank_handles_non_ascii_spans() {
    let p = blank(&record(
        "Han løp fort.",
        "He ran fast.",
        "løpe",
        "run",
        "løp",
        0,
    ));
    assert_eq!(p.blanked_sentence, "Han ___ fort.");
}

#[test]
fn blank_takes_leftmost_occurrence_only() {
    let p = blank(&record("ha ha", "ha ha", "ha", "ha", "ha", 0));
    assert_eq!(p.blanked_sentence, "__ ha");
}

#[test]
fn blank_carries_record_fields_over() {
    let p = blank(&record("a b", "x y", "base", "hint", "b", 3));
    assert_eq!(p.source_sentence, "a b");
    assert_eq!(p.translated_sentence, "x y");
    assert_eq!(p.base_word, "base");
    assert_eq!(p.translated_word, "hint");
    assert_eq!(p.inflected_form, "b");
    assert_eq!(p.correct_attempts, 3);
    assert_eq!(p.blanked_sentence, "a _");
}

#[test]
fn evaluation_ignores_case() {
    let p = blank(&record("x", "y", "forlot", "left", "x", 0));
    assert!(is_correct(&String::from("FORLOT"), &p));
    assert!(is_correct(&String::from("forlot"), &p));
    assert!(is_correct(&String::from("ForLot"), &p));
}

#[test]
fn evaluation_rejects_other_words_and_whitespace() {
    let p = blank(&record("x", "y", "forlot", "left", "x", 0));
    assert!(!is_correct(&String::from("forla"), &p));
    assert!(!is_correct(&String::from(" forlot"), &p));
    assert!(!is_correct(&String::from("forlot "), &p));
    assert!(!is_correct(&String::from(""), &p));
}

#[test]
fn evaluation_handles_non_ascii_case() {
    let p = blank(&record("x", "y", "løpe", "run", "x", 0));
    assert!(is_correct(&String::from("LØPE"), &p));
}

#[test]
fn index_wraps_around_the_sequence() {
    let prompts: Vec<Prompt> = vec![
        blank(&record("first a", "t", "a", "h", "a", 0)),
        blank(&record("second b", "t", "b", "h", "b", 0)),
    ];
    let p = prompt_at(&prompts, 5);
    assert_eq!(p.source_sentence, "second b");
    let p0 = prompt_at(&prompts, 4);
    assert_eq!(p0.source_sentence, "first a");
}

#[test]
fn new_session_shows_the_placeholder() {
    let s = Session::new();
    assert_eq!(s.sequence.len(), 1);
    let p = s.active_prompt();
    assert_eq!(p.source_sentence, "default");
    assert_eq!(p.translated_sentence, "default");
    assert_eq!(p.base_word, "default");
    assert_eq!(p.translated_word, "default");
    assert_eq!(p.inflected_form, "default");
    assert_eq!(p.blanked_sentence, "default");
    assert_eq!(p.correct_attempts, 0);
    assert_eq!(s.current_index, 0);
    assert_eq!(s.input_buffer, "");
    assert!(!s.revealed);
    assert_eq!(s.last_result, LastResult::NoneYet);
}

#[test]
fn empty_delivery_leaves_the_placeholder_active() {
    let mut s = Session::new();
    s.on_data_refresh(&vec![]);
    assert_eq!(s.sequence.len(), 1);
    assert_eq!(s.active_prompt().base_word, "default");
    assert_eq!(s.active_prompt().correct_attempts, 0);
}

#[test]
fn delivery_replaces_sequence_in_source_order() {
    let mut s = Session::new();
    s.on_data_refresh(&vec![
        record("first a", "t", "a", "h", "a", 1),
        record("second b", "t", "b", "h", "b", 2),
    ]);
    assert_eq!(s.sequence.len(), 2);
    assert_eq!(s.sequence[0].source_sentence, "first a");
    assert_eq!(s.sequence[0].blanked_sentence, "first _");
    assert_eq!(s.sequence[1].source_sentence, "second b");
    assert_eq!(s.current_index, 0);
}

#[test]
fn only_the_first_delivery_rewinds_the_position() {
    let mut s = Session::new();
    s.on_data_refresh(&vec![
        record("first a", "t", "a", "h", "a", 0),
        record("second b", "t", "b", "h", "b", 0),
    ]);
    assert_eq!(s.current_index, 0);
    s.submit(&String::from("a"));
    s.advance();
    assert_eq!(s.current_index, 1);
    s.on_data_refresh(&vec![
        record("third c", "t", "c", "h", "c", 0),
        record("fourth d", "t", "d", "h", "d", 0),
    ]);
    assert_eq!(s.current_index, 1);
    assert_eq!(s.active_prompt().source_sentence, "fourth d");
}

#[test]
fn correct_submission_reveals_and_reports_the_word() {
    let mut s = Session::new();
    s.on_data_refresh(&vec![
        forlot_record(),
        record("second b", "t", "b", "h", "b", 0),
    ]);
    s.set_input(String::from("forlot"));
    let issued = s.submit(&String::from("forlot"));
    assert!(s.revealed);
    assert_eq!(s.last_result, LastResult::Correct);
    assert_eq!(issued, Some(String::from("forlot")));
    assert_eq!(s.input_buffer, "");
    s.advance();
    assert!(!s.revealed);
    assert_eq!(s.last_result, LastResult::NoneYet);
    assert_eq!(s.current_index, 1);
}

#[test]
fn wrong_submission_keeps_the_buffer() {
    let mut s = Session::new();
    s.on_data_refresh(&vec![forlot_record()]);
    s.set_input(String::from("huset"));
    let issued = s.submit(&String::from("huset"));
    assert!(s.revealed);
    assert_eq!(s.last_result, LastResult::Incorrect);
    assert_eq!(issued, None);
    assert_eq!(s.input_buffer, "huset");
}

#[test]
fn submitting_while_revealed_changes_nothing() {
    let mut s = Session::new();
    s.on_data_refresh(&vec![forlot_record()]);
    s.submit(&String::from("wrong"));
    assert!(s.revealed);
    let issued = s.submit(&String::from("forlot"));
    assert_eq!(issued, None);
    assert!(s.revealed);
    assert_eq!(s.last_result, LastResult::Incorrect);
}

#[test]
fn advancing_while_active_is_a_no_op() {
    let mut s = Session::new();
    s.on_data_refresh(&vec![
        forlot_record(),
        record("second b", "t", "b", "h", "b", 0),
    ]);
    s.set_input(String::from("half an answer"));
    s.advance();
    assert_eq!(s.current_index, 0);
    assert!(!s.revealed);
    assert_eq!(s.input_buffer, "half an answer");
}

#[test]
fn advancing_wraps_to_the_start() {
    let mut s = Session::new();
    s.on_data_refresh(&vec![
        record("first a", "t", "a", "h", "a", 0),
        record("second b", "t", "b", "h", "b", 0),
    ]);
    s.submit(&String::from("a"));
    s.advance();
    assert_eq!(s.current_index, 1);
    s.submit(&String::from("b"));
    s.advance();
    assert_eq!(s.current_index, 0);
}

#[test]
fn editing_the_buffer_touches_nothing_else() {
    let mut s = Session::new();
    s.set_input(String::from("for"));
    assert_eq!(s.input_buffer, "for");
    assert_eq!(s.current_index, 0);
    assert!(!s.revealed);
    assert_eq!(s.last_result, LastResult::NoneYet);
    assert_eq!(s.sequence.len(), 1);
}

#[test]
fn blank_of_empty_inflected_form_keeps_the_sentence() {
    let p = blank(&record("abc", "t", "b", "h", "", 0));
    assert_eq!(p.blanked_sentence, "abc");
}

#[test]
fn duplicate_copies_every_field() {
    let p = blank(&forlot_record());
    let q = p.duplicate();
    assert_eq!(q.source_sentence, p.source_sentence);
    assert_eq!(q.blanked_sentence, p.blanked_sentence);
    assert_eq!(q.base_word, p.base_word);
    assert_eq!(q.correct_attempts, p.correct_attempts);
}
