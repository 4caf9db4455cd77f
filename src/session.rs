use vstd::prelude::*;
use crate::results::RustypexResults;
use crate::words::{join_words, target_text, views};

verus! {

/// A key event, as the terminal classifies it.
#[derive(Clone, Copy, Debug, PartialEq, Eq, Structural)]
pub enum Key {
    /// A printable character.
    Char(char),
    /// Delete the last typed character.
    Backspace,
    /// Delete back to the previous word boundary.
    WordDelete,
    /// Abort the test.
    Quit,
    /// Throw the test away and start a fresh one.
    Restart,
    /// Any other key: it starts the timer and does nothing else.
    Other,
}

/// Where a test stands.
#[derive(Clone, Copy, Debug, PartialEq, Eq, Structural)]
pub enum SessionState {
    /// No key has been processed yet; the timer has not started.
    AwaitingInput,
    /// The timer runs and the text is not complete.
    InProgress,
    /// The whole text has been typed.
    Done,
    /// The user aborted.
    Quit,
    /// The user asked for a fresh test.
    Restart,
}

/// What the terminal has to draw for one processed key, in order.
#[derive(Clone, Copy, Debug, PartialEq, Eq, Structural)]
pub enum Directive {
    /// Draw the typed character as correct at the cursor and advance.
    MarkCorrect(char),
    /// Draw the expected character as a mistake at the cursor and advance.
    MarkIncorrect(char),
    /// Step the cursor back one position and draw the expected character
    /// there as not yet typed.
    Restore(char),
    /// Flush the drawing to the screen.
    Flush,
}

/// The mathematical state of a test.
pub struct SessionModel {
    /// The text to type.
    pub target: Seq<char>,
    /// What has been typed and not deleted.
    pub input: Seq<char>,
    /// Forward keystrokes.
    pub chars_typed: nat,
    /// Forward keystrokes that did not match the text.
    pub errors: nat,
    /// Time of the first key.
    pub started_at: Option<u64>,
    /// Time of the completing key.
    pub ended_at: Option<u64>,
    pub state: SessionState,
    /// Words in the text.
    pub total_words: nat,
}

pub open spec fn is_active(s: SessionState) -> bool {
    s == SessionState::AwaitingInput || s == SessionState::InProgress
}

/// The length that the input keeps after a word delete: characters are
/// popped until the popped one was a space or nothing is left.
pub open spec fn word_delete_len(input: Seq<char>) -> nat
    decreases input.len(),
{
    if input.len() == 0 {
        0
    } else if input.last() == ' ' {
        (input.len() - 1) as nat
    } else {
        word_delete_len(input.drop_last())
    }
}

/// One `Restore` for each position from `from - 1` down to `to`.
pub open spec fn restores(target: Seq<char>, from: nat, to: nat) -> Seq<Directive>
    decreases from - to,
{
    if to >= from {
        Seq::empty()
    } else {
        restores(target, from, to + 1).push(Directive::Restore(target[to as int]))
    }
}

/// How many of the first `n` positions hold the same character in `a` and `b`.
pub open spec fn matches_upto(a: Seq<char>, b: Seq<char>, n: nat) -> nat
    decreases n,
{
    if n == 0 {
        0
    } else {
        matches_upto(a, b, (n - 1) as nat) + if a[n - 1] == b[n - 1] {
            1nat
        } else {
            0nat
        }
    }
}

/// The test after each of `events` (a key and its time), in order.
pub open spec fn run(m: SessionModel, events: Seq<(Key, u64)>) -> SessionModel
    decreases events.len(),
{
    if events.len() == 0 {
        m
    } else {
        run(m, events.drop_last()).step(events.last().0, events.last().1)
    }
}

pub open spec fn char_event(c: char, now: u64) -> (Key, u64) {
    (Key::Char(c), now)
}

/// Typing each character of `t` once, the `i`-th at `times[i]`.
pub open spec fn exact_events(t: Seq<char>, times: Seq<u64>) -> Seq<(Key, u64)> {
    Seq::new(t.len(), |i: int| char_event(t[i], times[i]))
}

impl SessionModel {
    /// Positions of the final input that match the text.
    pub open spec fn final_correct(self) -> nat {
        matches_upto(self.input, self.target, self.input.len())
    }

    /// The snapshot of a finished test.
    pub open spec fn result(self) -> RustypexResults {
        RustypexResults {
            total_words: self.total_words as usize,
            total_chars_typed: self.chars_typed as usize,
            total_chars_in_text: self.input.len() as usize,
            total_char_errors: self.errors as usize,
            final_chars_typed_correctly: self.final_correct() as usize,
            final_uncorrected_errors: (self.input.len() - self.final_correct()) as usize,
            started_at: self.started_at.unwrap(),
            ended_at: self.ended_at.unwrap(),
        }
    }

    /// A test on `target` before its first key.
    pub open spec fn fresh(target: Seq<char>, total_words: nat) -> SessionModel {
        SessionModel {
            target,
            input: Seq::empty(),
            chars_typed: 0,
            errors: 0,
            started_at: None,
            ended_at: None,
            state: SessionState::AwaitingInput,
            total_words,
        }
    }

    /// What holds of a test at every observable point.
    pub open spec fn inv(self) -> bool {
        &&& self.input.len() <= self.target.len()
        &&& self.errors <= self.chars_typed
        &&& (self.state == SessionState::AwaitingInput <==> self.started_at is None)
        &&& (self.state == SessionState::AwaitingInput ==> self.input.len() == 0 && self.chars_typed
            == 0)
        &&& (self.state == SessionState::Done <==> self.ended_at is Some)
        &&& (self.state == SessionState::Done ==> self.input.len() == self.target.len())
        &&& (is_active(self.state) ==> self.input.len() < self.target.len() || self.target.len()
            == 0)
    }

    /// The test as a key finds it: the timer started by the first key.
    pub open spec fn begun(self, now: u64) -> SessionModel {
        SessionModel {
            started_at: if self.started_at is None {
                Some(now)
            } else {
                self.started_at
            },
            state: SessionState::InProgress,
            ..self
        }
    }

    /// A character typed forward at the cursor.
    pub open spec fn typed(self, c: char, now: u64) -> SessionModel {
        let p = self.input.len();
        let completes = p + 1 >= self.target.len();
        SessionModel {
            input: self.input.push(c),
            chars_typed: self.chars_typed + 1,
            errors: if c == self.target[p as int] {
                self.errors
            } else {
                self.errors + 1
            },
            state: if completes {
                SessionState::Done
            } else {
                SessionState::InProgress
            },
            ended_at: if completes {
                Some(now)
            } else {
                None
            },
            ..self
        }
    }

    /// The test after `key` arrives at time `now`; a finished test ignores keys.
    pub open spec fn step(self, key: Key, now: u64) -> SessionModel {
        if !is_active(self.state) {
            self
        } else {
            let s = self.begun(now);
            match key {
                Key::Quit => SessionModel { state: SessionState::Quit, ..s },
                Key::Restart => SessionModel { state: SessionState::Restart, ..s },
                Key::Backspace => if s.input.len() > 0 {
                    SessionModel { input: s.input.drop_last(), ..s }
                } else {
                    s
                },
                Key::WordDelete => SessionModel {
                    input: s.input.take(word_delete_len(s.input) as int),
                    ..s
                },
                Key::Char(c) => if s.target.len() == 0 {
                    SessionModel { state: SessionState::Done, ended_at: Some(now), ..s }
                } else {
                    s.typed(c, now)
                },
                Key::Other => s,
            }
        }
    }

    /// The drawing that `key` asks for.
    pub open spec fn directives(self, key: Key) -> Seq<Directive> {
        if !is_active(self.state) {
            Seq::empty()
        } else {
            let p = self.input.len();
            match key {
                Key::Quit => Seq::empty(),
                Key::Restart => Seq::empty(),
                Key::Backspace => restores(self.target, p, if p > 0 {
                    (p - 1) as nat
                } else {
                    0
                }).push(Directive::Flush),
                Key::WordDelete => restores(self.target, p, word_delete_len(self.input)).push(
                    Directive::Flush,
                ),
                Key::Char(c) => if self.target.len() == 0 {
                    Seq::empty()
                } else {
                    let expected = self.target[p as int];
                    let mark = if c == expected {
                        Directive::MarkCorrect(c)
                    } else {
                        Directive::MarkIncorrect(expected)
                    };
                    if p + 1 >= self.target.len() {
                        seq![mark]
                    } else {
                        seq![mark, Directive::Flush]
                    }
                },
                Key::Other => seq![Directive::Flush],
            }
        }
    }
}

/// One typing test: the text to type, what has been typed, the counters and
/// the two timestamps (in milliseconds).
pub struct TestSession {
    target: Vec<char>,
    input: Vec<char>,
    chars_typed: usize,
    errors: usize,
    started_at: Option<u64>,
    ended_at: Option<u64>,
    state: SessionState,
    total_words: usize,
}

impl View for TestSession {
    type V = SessionModel;

    closed spec fn view(&self) -> SessionModel {
        SessionModel {
            target: self.target@,
            input: self.input@,
            chars_typed: self.chars_typed as nat,
            errors: self.errors as nat,
            started_at: self.started_at,
            ended_at: self.ended_at,
            state: self.state,
            total_words: self.total_words as nat,
        }
    }
}

proof fn lemma_matches_upto_bound(a: Seq<char>, b: Seq<char>, n: nat)
    ensures
        matches_upto(a, b, n) <= n,
    decreases n,
{
    if n > 0 {
        lemma_matches_upto_bound(a, b, (n - 1) as nat);
    }
}

proof fn lemma_matches_upto_same(a: Seq<char>, n: nat)
    requires
        n <= a.len(),
    ensures
        matches_upto(a, a, n) == n,
    decreases n,
{
    if n > 0 {
        lemma_matches_upto_same(a, (n - 1) as nat);
    }
}

proof fn lemma_word_delete_len(input: Seq<char>)
    ensures
        word_delete_len(input) <= input.len(),
        input.len() > 0 ==> word_delete_len(input) < input.len(),
    decreases input.len(),
{
    if input.len() > 0 && input.last() != ' ' {
        lemma_word_delete_len(input.drop_last());
    }
}

/// The character at `i`, as a value of its own.
pub(crate) fn char_at(v: &Vec<char>, i: usize) -> (c: char)
    requires
        i < v.len(),
    ensures
        c == v@[i as int],
{
    v[i]
}

impl TestSession {
    /// A fresh test on `target`, made of `total_words` words.
    pub fn from_text(target: Vec<char>, total_words: usize) -> (r: TestSession)
        ensures
            r@ == SessionModel::fresh(target@, total_words as nat),
            r@.inv(),
    {
        TestSession {
            target,
            input: Vec::new(),
            chars_typed: 0,
            errors: 0,
            started_at: None,
            ended_at: None,
            state: SessionState::AwaitingInput,
            total_words,
        }
    }

    /// A fresh test whose text is `words` joined by single spaces.
    pub fn new(words: &Vec<String>) -> (r: TestSession)
        ensures
            r@ == SessionModel::fresh(join_words(views(words@)), words@.len()),
            r@.inv(),
            r@.chars_typed == 0,
            r@.errors == 0,
            r@.input.len() == 0,
            r@.state == SessionState::AwaitingInput,
    {
        TestSession::from_text(target_text(words), words.len())
    }

    /// The snapshot of the test once it is done, and nothing before.
    pub fn results(&self) -> (r: Option<RustypexResults>)
        requires
            self@.inv(),
        ensures
            r == (if self@.state == SessionState::Done {
                Some(self@.result())
            } else {
                None
            }),
    {
        if self.state != SessionState::Done {
            return None;
        }
        let mut correct: usize = 0;
        let mut i: usize = 0;
        while i < self.input.len()
            invariant
                i <= self.input@.len() <= self.target@.len(),
                correct == matches_upto(self.input@, self.target@, i as nat),
            decreases self.input@.len() - i,
        {
            proof {
                lemma_matches_upto_bound(self.input@, self.target@, i as nat);
            }
            if char_at(&self.input, i) == char_at(&self.target, i) {
                correct = correct + 1;
            }
            i = i + 1;
        }
        proof {
            lemma_matches_upto_bound(self.input@, self.target@, i as nat);
        }
        let started_at = match self.started_at {
            Some(t) => t,
            None => 0,
        };
        let ended_at = match self.ended_at {
            Some(t) => t,
            None => 0,
        };
        Some(
            RustypexResults {
                total_words: self.total_words,
                total_chars_typed: self.chars_typed,
                total_chars_in_text: self.input.len(),
                total_char_errors: self.errors,
                final_chars_typed_correctly: correct,
                final_uncorrected_errors: self.input.len() - correct,
                started_at,
                ended_at,
            },
        )
    }

    pub fn state(&self) -> (r: SessionState)
        ensures
            r == self@.state,
    {
        self.state
    }

    pub fn chars_typed(&self) -> (r: usize)
        ensures
            r == self@.chars_typed,
    {
        self.chars_typed
    }

    pub fn errors(&self) -> (r: usize)
        ensures
            r == self@.errors,
    {
        self.errors
    }

    pub fn started_at(&self) -> (r: Option<u64>)
        ensures
            r == self@.started_at,
    {
        self.started_at
    }

    pub fn ended_at(&self) -> (r: Option<u64>)
        ensures
            r == self@.ended_at,
    {
        self.ended_at
    }

    pub fn target(&self) -> (r: &Vec<char>)
        ensures
            r@ == self@.target,
    {
        &self.target
    }

    pub fn input(&self) -> (r: &Vec<char>)
        ensures
            r@ == self@.input,
    {
        &self.input
    }

    /// A forward keystroke on a non-empty text, timer already started.
    fn type_char(&mut self, c: char, now: u64) -> (r: Vec<Directive>)
        requires
            old(self)@.inv(),
            old(self)@.state == SessionState::InProgress,
            old(self)@.target.len() > 0,
            old(self)@.chars_typed < usize::MAX,
        ensures
            final(self)@ == old(self)@.typed(c, now),
            r@ == old(self)@.directives(Key::Char(c)),
    {
        let ghost m = self@;
        let n = self.target.len();
        let p = self.input.len();
        let expected = char_at(&self.target, p);
        let mut out: Vec<Directive> = Vec::new();
        if c == expected {
            out.push(Directive::MarkCorrect(c));
        } else {
            out.push(Directive::MarkIncorrect(expected));
        }
        if p + 1 < n {
            out.push(Directive::Flush);
        }
        proof {
            assert(out@ =~= m.directives(Key::Char(c)));
        }
        self.input.push(c);
        self.chars_typed = self.chars_typed + 1;
        if c != expected {
            self.errors = self.errors + 1;
        }
        if p + 1 >= n {
            self.state = SessionState::Done;
            self.ended_at = Some(now);
        }
        proof {
            assert(self.input@ =~= m.input.push(c));
        }
        out
    }

    /// Processes one key that arrived at time `now` and says what to draw.
    pub fn process_key(&mut self, key: Key, now: u64) -> (r: Vec<Directive>)
        requires
            old(self)@.inv(),
            old(self)@.chars_typed < usize::MAX,
        ensures
            final(self)@ == old(self)@.step(key, now),
            final(self)@.inv(),
            r@ == old(self)@.directives(key),
    {
        let ghost m = self@;
        let mut out: Vec<Directive> = Vec::new();
        if !(self.state == SessionState::AwaitingInput || self.state == SessionState::InProgress) {
            return out;
        }
        if self.started_at.is_none() {
            self.started_at = Some(now);
        }
        self.state = SessionState::InProgress;
        match key {
            Key::Quit => {
                self.state = SessionState::Quit;
            },
            Key::Restart => {
                self.state = SessionState::Restart;
            },
            Key::Backspace => {
                if self.input.len() > 0 {
                    self.input.pop();
                    out.push(Directive::Restore(char_at(&self.target, self.input.len())));
                    assert(self.input@ =~= m.input.drop_last());
                    assert(restores(m.target, m.input.len(), m.input.len()) =~= Seq::empty());
                }
                out.push(Directive::Flush);
                proof {
                    assert(out@ =~= m.directives(key));
                }
            },
            Key::WordDelete => {
                proof {
                    lemma_word_delete_len(m.input);
                }
                let mut done = false;
                while !done && self.input.len() > 0
                    invariant
                        self.input@.len() <= m.input.len() <= self.target@.len(),
                        self@ == (SessionModel { input: self.input@, ..m.begun(now) }),
                        self.input@ == m.input.take(self.input@.len() as int),
                        !done ==> word_delete_len(self.input@) == word_delete_len(m.input),
                        done ==> self.input@.len() == word_delete_len(m.input),
                        out@ =~= restores(m.target, m.input.len(), self.input@.len() as nat),
                    decreases self.input@.len(),
                {
                    let ghost before = self.input@;
                    let last = self.input.pop();
                    if let Some(c) = last {
                        assert(before.drop_last() =~= self.input@);
                        assert(self.input@ =~= m.input.take(self.input@.len() as int));
                        out.push(Directive::Restore(char_at(&self.target, self.input.len())));
                        if c == ' ' {
                            done = true;
                        }
                    }
                }
                proof {
                    assert(self.input@ =~= m.input.take(word_delete_len(m.input) as int));
                }
                out.push(Directive::Flush);
            },
            Key::Char(c) => {
                if self.target.len() == 0 {
                    self.state = SessionState::Done;
                    self.ended_at = Some(now);
                } else {
                    out = self.type_char(c, now);
                }
            },
            Key::Other => {
                out.push(Directive::Flush);
            },
        }
        proof {
            assert(self@ == m.step(key, now));
            assert(out@ =~= m.directives(key));
        }
        out
    }
}

/// A key never breaks the invariant: the input never outgrows the text,
/// errors never outnumber forward keystrokes, and neither counter goes down.
pub proof fn lemma_step_keeps_inv(m: SessionModel, key: Key, now: u64)
    requires
        m.inv(),
    ensures
        m.step(key, now).inv(),
        m.step(key, now).chars_typed >= m.chars_typed,
        m.step(key, now).errors >= m.errors,
        m.step(key, now).target == m.target,
{
    lemma_word_delete_len(m.input);
}

/// Every state that a sequence of keys reaches keeps the invariant, in
/// particular `input.len() <= target.len()` and `errors <= chars_typed`.
pub proof fn lemma_run_keeps_inv(m: SessionModel, events: Seq<(Key, u64)>)
    requires
        m.inv(),
    ensures
        run(m, events).inv(),
        run(m, events).chars_typed >= m.chars_typed,
        run(m, events).errors >= m.errors,
    decreases events.len(),
{
    if events.len() > 0 {
        lemma_run_keeps_inv(m, events.drop_last());
        lemma_step_keeps_inv(run(m, events.drop_last()), events.last().0, events.last().1);
    }
}

/// A fresh test satisfies the invariant, so every state reached from it does.
pub proof fn lemma_sessions_keep_inv(target: Seq<char>, total_words: nat, events: Seq<(Key, u64)>)
    ensures
        run(SessionModel::fresh(target, total_words), events).inv(),
{
    lemma_run_keeps_inv(SessionModel::fresh(target, total_words), events);
}

/// Backspace and word delete leave both counters as they were, however many
/// characters they remove.
pub proof fn lemma_corrections_keep_counters(m: SessionModel, key: Key, now: u64)
    requires
        key == Key::Backspace || key == Key::WordDelete,
    ensures
        m.step(key, now).chars_typed == m.chars_typed,
        m.step(key, now).errors == m.errors,
{
}

proof fn lemma_exact_prefix(t: Seq<char>, total_words: nat, times: Seq<u64>, k: nat)
    requires
        t.len() > 0,
        times.len() == t.len(),
        k <= t.len(),
    ensures
        ({
            let mk = run(SessionModel::fresh(t, total_words), exact_events(t, times).take(k as int));
            &&& mk.target == t
            &&& mk.total_words == total_words
            &&& mk.input == t.take(k as int)
            &&& mk.chars_typed == k
            &&& mk.errors == 0
            &&& (k > 0 ==> mk.started_at is Some)
            &&& mk.state == (if k == 0 {
                SessionState::AwaitingInput
            } else if k == t.len() {
                SessionState::Done
            } else {
                SessionState::InProgress
            })
            &&& (k == t.len() ==> mk.ended_at is Some)
        }),
    decreases k,
{
    let evs = exact_events(t, times);
    if k == 0 {
        assert(evs.take(0) =~= Seq::<(Key, u64)>::empty());
        assert(t.take(0) =~= Seq::<char>::empty());
    } else {
        lemma_exact_prefix(t, total_words, times, (k - 1) as nat);
        assert(evs.take(k as int).drop_last() =~= evs.take(k - 1));
        assert(evs.take(k as int).last() == char_event(t[k - 1], times[k - 1]));
        assert(t.take(k - 1).push(t[k - 1]) =~= t.take(k as int));
    }
}

/// Typing the text exactly, with no mistake, finishes the test with full
/// accuracy and no uncorrected error.
pub proof fn lemma_exact_typing(t: Seq<char>, total_words: nat, times: Seq<u64>)
    requires
        t.len() > 0,
        t.len() <= usize::MAX,
        times.len() == t.len(),
    ensures
        ({
            let m = run(SessionModel::fresh(t, total_words), exact_events(t, times));
            &&& m.state == SessionState::Done
            &&& m.errors == 0
            &&& m.chars_typed == t.len()
            &&& m.input == t
            &&& m.result().accuracy_num() == m.result().accuracy_den()
            &&& m.result().final_uncorrected_errors == 0
        }),
{
    let evs = exact_events(t, times);
    lemma_exact_prefix(t, total_words, times, t.len());
    assert(evs.take(t.len() as int) =~= evs);
    assert(t.take(t.len() as int) =~= t);
    lemma_matches_upto_same(t, t.len());
}

} // verus!
