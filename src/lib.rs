//! A terminal typing-speed test: a word source that supplies the text, a
//! keystroke state machine that scores the typing, and the statistics drawn
//! from a finished test.
pub mod error;
pub mod results;
pub mod session;
pub mod words;

use vstd::prelude::*;
use vstd::string::StringExecFns;
use crate::error::{ErrorKind, RustypexError};
use crate::results::RustypexResults;
use crate::session::{Directive, Key, SessionModel, SessionState, TestSession};
use crate::words::{join_words, tokens, views, WordSource, BUILTIN_WORDS};

verus! {

/// Where the words of a test come from.
pub enum WordList {
    /// Words separated by white space, such as the contents of a word file.
    Text(String),
    /// The list that ships with the library.
    BuiltIn,
}

/// How tests are set up.
pub struct RustypexConfig {
    pub wordlist: Option<WordList>,
    pub num_words: usize,
}

/// The tokens that a configuration offers, if it names a list at all.
pub open spec fn config_tokens(config: RustypexConfig) -> Option<Seq<Seq<char>>> {
    match config.wordlist {
        None => None,
        Some(WordList::Text(s)) => Some(tokens(s@)),
        Some(WordList::BuiltIn) => Some(tokens(BUILTIN_WORDS@)),
    }
}

/// The mathematical state of the test runner.
pub struct RustypexModel {
    /// The words that can be drawn.
    pub source: Seq<Seq<char>>,
    /// How many words a test has.
    pub num_words: nat,
    /// The words of the current test.
    pub words: Seq<Seq<char>>,
    /// The current test.
    pub session: SessionModel,
}

impl RustypexModel {
    /// The current test is a test on the current words, each drawn from the source.
    pub open spec fn wf(self) -> bool {
        &&& self.source.len() > 0
        &&& self.words.len() == self.num_words
        &&& forall|i: int| 0 <= i < self.words.len() ==> self.source.contains(#[trigger] self.words[i])
        &&& self.session.inv()
        &&& self.session.target == join_words(self.words)
        &&& self.session.total_words == self.num_words
    }

    /// A test that has not seen a key.
    pub open spec fn is_fresh(self) -> bool {
        self.session == SessionModel::fresh(join_words(self.words), self.num_words)
    }
}

/// Runs typing tests: draws the words and holds the current test.
pub struct Rustypex {
    words: Vec<String>,
    word_source: WordSource,
    num_words: usize,
    session: TestSession,
}

impl View for Rustypex {
    type V = RustypexModel;

    closed spec fn view(&self) -> RustypexModel {
        RustypexModel {
            source: self.word_source@,
            num_words: self.num_words as nat,
            words: views(self.words@),
            session: self.session@,
        }
    }
}

impl Rustypex {
    /// Builds the word source that `config` names and starts a first test.
    /// Fails when no list is named or the list holds no word.
    pub fn new(config: RustypexConfig) -> (r: Result<Rustypex, RustypexError>)
        ensures
            match r {
                Ok(x) => {
                    &&& config_tokens(config) is Some
                    &&& x@.wf()
                    &&& x@.source == config_tokens(config).unwrap()
                    &&& x@.num_words == config.num_words
                    &&& x@.is_fresh()
                },
                Err(e) => {
                    &&& e.kind == ErrorKind::Source
                    &&& (config_tokens(config) is None || config_tokens(config).unwrap().len()
                        == 0)
                },
            },
    {
        let num_words = config.num_words;
        let src = match config.wordlist {
            None => {
                return Err(RustypexError::source(String::from_str("Undefined word list or path.")));
            },
            Some(WordList::Text(s)) => WordSource::from_string(s.as_str()),
            Some(WordList::BuiltIn) => WordSource::builtin(),
        };
        let word_source = match src {
            Ok(w) => w,
            Err(e) => {
                return Err(e);
            },
        };
        let words = word_source.next_words(num_words);
        let session = TestSession::new(&words);
        let x = Rustypex { words, word_source, num_words, session };
        proof {
            assert(x@.words.len() == num_words);
            assert(x@.source == config_tokens(config).unwrap());
            assert(x@.is_fresh());
            assert(x@.session.inv());
            assert forall|i: int| 0 <= i < x@.words.len() implies x@.source.contains(
                #[trigger] x@.words[i],
            ) by {
                assert(x@.words[i] == x.words@[i]@);
            }
        }
        Ok(x)
    }

    /// Throws the current test away and starts a fresh one on newly drawn
    /// words: counters zero, no key seen.
    pub fn restart(&mut self)
        requires
            old(self)@.wf(),
        ensures
            final(self)@.wf(),
            final(self)@.source == old(self)@.source,
            final(self)@.num_words == old(self)@.num_words,
            final(self)@.is_fresh(),
            final(self)@.session.chars_typed == 0,
            final(self)@.session.errors == 0,
            final(self)@.session.input.len() == 0,
            final(self)@.session.state == SessionState::AwaitingInput,
    {
        let words = self.word_source.next_words(self.num_words);
        self.session = TestSession::new(&words);
        self.words = words;
        proof {
            assert forall|i: int| 0 <= i < self@.words.len() implies self@.source.contains(
                #[trigger] self@.words[i],
            ) by {
                assert(self@.words[i] == self.words@[i]@);
            }
        }
    }

    /// Hands one key, arrived at time `now`, to the current test.
    pub fn process_key(&mut self, key: Key, now: u64) -> (r: Vec<Directive>)
        requires
            old(self)@.wf(),
            old(self)@.session.chars_typed < usize::MAX,
        ensures
            final(self)@.wf(),
            final(self)@ == (RustypexModel { session: old(self)@.session.step(key, now), ..old(self)@ }),
            r@ == old(self)@.session.directives(key),
    {
        let r = self.session.process_key(key, now);
        r
    }

    /// The current test.
    pub fn session(&self) -> (r: &TestSession)
        ensures
            r@ == self@.session,
    {
        &self.session
    }

    /// The words of the current test.
    pub fn words(&self) -> (r: &Vec<String>)
        ensures
            views(r@) == self@.words,
    {
        &self.words
    }

    /// The snapshot of the current test once it is done.
    pub fn results(&self) -> (r: Option<RustypexResults>)
        requires
            self@.wf(),
        ensures
            r == (if self@.session.state == SessionState::Done {
                Some(self@.session.result())
            } else {
                None
            }),
    {
        self.session.results()
    }

    /// The remark for the speed of `results`.
    pub fn classify_results(&self, results: &RustypexResults) -> (r: String)
        ensures
            r@ == results.remark_spec().text_spec(),
    {
        results.remark().text()
    }
}

} // verus!
