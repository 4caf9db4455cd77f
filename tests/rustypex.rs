use rustypex::error::ErrorKind;
use rustypex::results::RustypexResults;
use rustypex::session::{Key, SessionState};
use rustypex::{Rustypex, RustypexConfig, WordList};

fn config(list: Option<WordList>, n: usize) -> RustypexConfig {
    RustypexConfig { wordlist: list, num_words: n }
}

#[test]
fn no_word_list_is_a_source_error() {
    let e = Rustypex::new(config(None, 5)).err().unwrap();
    assert_eq!(e.kind, ErrorKind::Source);
    assert_eq!(e.message(), "Undefined word list or path.");
}

#[test]
fn blank_word_list_is_a_source_error() {
    let e = Rustypex::new(config(Some(WordList::Text(" \n ".to_string())), 5)).err().unwrap();
    assert_eq!(e.kind, ErrorKind::Source);
}

#[test]
fn new_draws_the_configured_number_of_words() {
    let x = Rustypex::new(config(Some(WordList::Text("red green".to_string())), 4)).ok().unwrap();
    assert_eq!(x.words().len(), 4);
    assert!(x.words().iter().all(|w| w == "red" || w == "green"));
    let joined = x.words().join(" ");
    assert_eq!(x.session().target().iter().collect::<String>(), joined);
    assert_eq!(x.session().state(), SessionState::AwaitingInput);
}

#[test]
fn builtin_words() {
    let x = Rustypex::new(config(Some(WordList::BuiltIn), 3)).ok().unwrap();
    assert_eq!(x.words().len(), 3);
}

#[test]
fn restart_gives_a_fresh_session() {
    let mut x = Rustypex::new(config(Some(WordList::Text("ab".to_string())), 2)).ok().unwrap();
    for (i, c) in "ax ab".chars().enumerate() {
        x.process_key(Key::Char(c), i as u64);
    }
    assert_eq!(x.session().state(), SessionState::Done);
    assert!(x.results().is_some());
    x.restart();
    let s = x.session();
    assert_eq!(s.state(), SessionState::AwaitingInput);
    assert_eq!(s.chars_typed(), 0);
    assert_eq!(s.errors(), 0);
    assert!(s.input().is_empty());
    assert_eq!(s.started_at(), None);
    assert!(x.results().is_none());

    x.process_key(Key::Char('a'), 0);
    x.process_key(Key::Quit, 1);
    x.restart();
    assert_eq!(x.session().state(), SessionState::AwaitingInput);
    assert_eq!(x.session().chars_typed(), 0);
}

#[test]
fn classify_results_gives_the_remark() {
    let x = Rustypex::new(config(Some(WordList::Text("ab".to_string())), 1)).ok().unwrap();
    let r = RustypexResults {
        total_words: 1,
        total_chars_typed: 200,
        total_chars_in_text: 200,
        total_char_errors: 0,
        final_chars_typed_correctly: 200,
        final_uncorrected_errors: 0,
        started_at: 0,
        ended_at: 60000,
    };
    assert_eq!(x.classify_results(&r), "Great job, you're above average!");
}
