use rustypex::session::{Directive, Key, SessionState, TestSession};

fn session_on(words: &[&str]) -> TestSession {
    let words: Vec<String> = words.iter().map(|w| w.to_string()).collect();
    TestSession::new(&words)
}

fn type_str(s: &mut TestSession, text: &str, start: u64) -> u64 {
    let mut now = start;
    for c in text.chars() {
        s.process_key(Key::Char(c), now);
        now += 100;
    }
    now
}

#[test]
fn target_joins_words_with_single_spaces() {
    let s = session_on(&["cat", "dog"]);
    let expected: Vec<char> = "cat dog".chars().collect();
    assert_eq!(s.target(), &expected);
    assert_eq!(s.state(), SessionState::AwaitingInput);
    assert_eq!(s.chars_typed(), 0);
    assert_eq!(s.errors(), 0);
    assert_eq!(s.started_at(), None);
}

#[test]
fn exact_typing_of_two_words() {
    let mut s = session_on(&["cat", "dog"]);
    type_str(&mut s, "cat dog", 1000);
    assert_eq!(s.state(), SessionState::Done);
    assert_eq!(s.chars_typed(), 7);
    assert_eq!(s.errors(), 0);
    let r = s.results().unwrap();
    assert_eq!(r.accuracy_ratio(), (7, 7));
    assert_eq!(r.final_uncorrected_errors, 0);
    assert_eq!(r.final_chars_typed_correctly, 7);
    assert_eq!(r.total_words, 2);
    assert_eq!(r.started_at, 1000);
    assert_eq!(r.ended_at, 1600);
    assert_eq!(r.duration(), 600);
}

#[test]
fn uncorrected_wrong_middle_char() {
    let mut s = session_on(&["cat"]);
    type_str(&mut s, "cbt", 0);
    assert_eq!(s.state(), SessionState::Done);
    assert_eq!(s.chars_typed(), 3);
    assert_eq!(s.errors(), 1);
    let r = s.results().unwrap();
    assert_eq!(r.accuracy_ratio(), (2, 3));
    let acc = r.accuracy_ratio();
    assert!((acc.0 as f64 / acc.1 as f64 - 0.667).abs() < 0.001);
    assert_eq!(r.final_uncorrected_errors, 1);
    assert_eq!(r.final_chars_typed_correctly, 2);
}

#[test]
fn corrected_mistake_counts_but_leaves_no_final_error() {
    let mut s = session_on(&["cat"]);
    type_str(&mut s, "cx", 0);
    let d = s.process_key(Key::Backspace, 300);
    assert_eq!(d, vec![Directive::Restore('a'), Directive::Flush]);
    assert_eq!(s.chars_typed(), 2);
    assert_eq!(s.errors(), 1);
    type_str(&mut s, "at", 400);
    let input: Vec<char> = "cat".chars().collect();
    assert_eq!(s.input(), &input);
    assert_eq!(s.state(), SessionState::Done);
    assert_eq!(s.chars_typed(), 4);
    assert_eq!(s.errors(), 1);
    let r = s.results().unwrap();
    assert_eq!(r.final_uncorrected_errors, 0);
    assert_eq!(r.final_chars_typed_correctly, 3);
}

#[test]
fn word_delete_removes_word_and_its_boundary_space() {
    let mut s = session_on(&["cat", "dog", "fox"]);
    type_str(&mut s, "cat dog fo", 0);
    let typed = s.chars_typed();
    let errors = s.errors();
    let d = s.process_key(Key::WordDelete, 5000);
    let input: Vec<char> = "cat dog".chars().collect();
    assert_eq!(s.input(), &input);
    assert_eq!(
        d,
        vec![
            Directive::Restore('o'),
            Directive::Restore('f'),
            Directive::Restore(' '),
            Directive::Flush
        ]
    );
    assert_eq!(s.chars_typed(), typed);
    assert_eq!(s.errors(), errors);
    assert_eq!(s.state(), SessionState::InProgress);
}

#[test]
fn word_delete_after_space_removes_only_the_space() {
    let mut s = session_on(&["cat", "dog"]);
    type_str(&mut s, "cat ", 0);
    s.process_key(Key::WordDelete, 1000);
    let input: Vec<char> = "cat".chars().collect();
    assert_eq!(s.input(), &input);
}

#[test]
fn word_delete_on_first_word_empties_input() {
    let mut s = session_on(&["cat", "dog"]);
    type_str(&mut s, "ca", 0);
    s.process_key(Key::WordDelete, 1000);
    assert!(s.input().is_empty());
    assert_eq!(s.chars_typed(), 2);
}

#[test]
fn corrections_on_empty_input_change_nothing() {
    let mut s = session_on(&["cat"]);
    let d = s.process_key(Key::Backspace, 10);
    assert_eq!(d, vec![Directive::Flush]);
    s.process_key(Key::WordDelete, 20);
    assert!(s.input().is_empty());
    assert_eq!(s.chars_typed(), 0);
    assert_eq!(s.started_at(), Some(10));
    assert_eq!(s.state(), SessionState::InProgress);
}

#[test]
fn wrong_key_advances_and_marks_expected_char() {
    let mut s = session_on(&["cat"]);
    let d = s.process_key(Key::Char('z'), 0);
    assert_eq!(d, vec![Directive::MarkIncorrect('c'), Directive::Flush]);
    assert_eq!(s.input(), &vec!['z']);
    let d = s.process_key(Key::Char('a'), 1);
    assert_eq!(d, vec![Directive::MarkCorrect('a'), Directive::Flush]);
}

#[test]
fn completing_key_ends_the_test() {
    let mut s = session_on(&["ab"]);
    s.process_key(Key::Char('a'), 5);
    let d = s.process_key(Key::Char('b'), 9);
    assert_eq!(d, vec![Directive::MarkCorrect('b')]);
    assert_eq!(s.ended_at(), Some(9));
    assert_eq!(s.started_at(), Some(5));
}

#[test]
fn quit_and_restart_end_the_session() {
    let mut s = session_on(&["cat"]);
    s.process_key(Key::Char('c'), 0);
    assert!(s.process_key(Key::Quit, 1).is_empty());
    assert_eq!(s.state(), SessionState::Quit);
    assert!(s.results().is_none());
    s.process_key(Key::Char('a'), 2);
    assert_eq!(s.chars_typed(), 1);

    let mut s = session_on(&["cat"]);
    s.process_key(Key::Restart, 7);
    assert_eq!(s.state(), SessionState::Restart);
    assert_eq!(s.started_at(), Some(7));
}

#[test]
fn first_key_of_any_kind_starts_the_timer() {
    let mut s = session_on(&["cat"]);
    let d = s.process_key(Key::Other, 42);
    assert_eq!(d, vec![Directive::Flush]);
    assert_eq!(s.started_at(), Some(42));
    s.process_key(Key::Char('c'), 50);
    assert_eq!(s.started_at(), Some(42));
}

#[test]
fn counters_keep_their_bounds_over_a_session() {
    let mut s = session_on(&["ab", "cd"]);
    let keys = [
        Key::Char('x'),
        Key::Backspace,
        Key::Char('a'),
        Key::Char('q'),
        Key::WordDelete,
        Key::Char('a'),
        Key::Char('b'),
        Key::Char(' '),
        Key::Char('c'),
    ];
    for (i, k) in keys.iter().enumerate() {
        s.process_key(*k, i as u64);
        assert!(s.input().len() <= s.target().len());
        assert!(s.errors() <= s.chars_typed());
    }
    assert_eq!(s.chars_typed(), 7);
    assert_eq!(s.errors(), 2);
}

#[test]
fn empty_text_is_done_on_first_char() {
    let mut s = session_on(&[]);
    assert!(s.target().is_empty());
    let d = s.process_key(Key::Char('a'), 3);
    assert!(d.is_empty());
    assert_eq!(s.state(), SessionState::Done);
    assert!(s.input().is_empty());
    let r = s.results().unwrap();
    assert_eq!(r.total_chars_in_text, 0);
}
