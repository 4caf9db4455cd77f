use vstd::prelude::*;
use rand::Rng;
use crate::error::RustypexError;
use crate::session::char_at;
use vstd::string::StringExecFns;

verus! {

/// A small list of common English words, for when no list is given.
pub const BUILTIN_WORDS: &'static str =
    "the be to of and a in that have it for not on with he as you do at this but his by from they we say her she or an will my one all would there their what so up out if about who get which go me when make can like time no just him know take people into year your good some could them see other than then now look only come its over think also back after use two how our work first well way even new want because any these give day most us";

/// Unicode's White_Space property: the characters that separate words.
pub open spec fn is_white_space(c: char) -> bool {
    let u = c as u32;
    (0x09 <= u <= 0x0d) || u == 0x20 || u == 0x85 || u == 0xa0 || u == 0x1680 || (0x2000 <= u
        <= 0x200a) || u == 0x2028 || u == 0x2029 || u == 0x202f || u == 0x205f || u == 0x3000
}

/// The maximal runs of non-white-space characters of `s`, in order.
pub open spec fn tokens(s: Seq<char>) -> Seq<Seq<char>>
    decreases s.len(),
{
    if s.len() == 0 {
        Seq::empty()
    } else {
        let init = tokens(s.drop_last());
        let c = s.last();
        if is_white_space(c) {
            init
        } else if s.len() >= 2 && !is_white_space(s[s.len() - 2]) {
            init.drop_last().push(init.last().push(c))
        } else {
            init.push(seq![c])
        }
    }
}

/// The words joined by single spaces.
pub open spec fn join_words(ws: Seq<Seq<char>>) -> Seq<char>
    decreases ws.len(),
{
    if ws.len() == 0 {
        Seq::empty()
    } else if ws.len() == 1 {
        ws[0]
    } else {
        join_words(ws.drop_last()) + seq![' '] + ws.last()
    }
}

pub open spec fn views(ws: Seq<String>) -> Seq<Seq<char>> {
    ws.map_values(|w: String| w@)
}

/// Whether `c` separates words.
pub fn is_white_space_char(c: char) -> (r: bool)
    ensures
        r == is_white_space(c),
{
    let u = c as u32;
    (0x09 <= u && u <= 0x0d) || u == 0x20 || u == 0x85 || u == 0xa0 || u == 0x1680 || (0x2000
        <= u && u <= 0x200a) || u == 0x2028 || u == 0x2029 || u == 0x202f || u == 0x205f || u
        == 0x3000
}

/// Relies on `str::chars`: the characters of `s`, in order.
#[verifier::external_body]
fn chars_of(s: &str) -> (r: Vec<char>)
    ensures
        r@ == s@,
{
    s.chars().collect()
}

/// Relies on `String`'s `FromIterator<&char>`: the string of these characters.
#[verifier::external_body]
fn string_of(cs: &Vec<char>) -> (r: String)
    ensures
        r@ == cs@,
{
    cs.iter().collect()
}

/// Relies on `rand::Rng::gen_range` over `rand::thread_rng()`: a value drawn
/// uniformly from `0..n`; it panics on an empty range, which `requires` rules out.
#[verifier::external_body]
fn random_index(n: usize) -> (r: usize)
    requires
        n > 0,
    ensures
        r < n,
{
    rand::thread_rng().gen_range(0..n)
}

/// The text of a test: the words joined by single spaces.
pub fn target_text(words: &Vec<String>) -> (r: Vec<char>)
    ensures
        r@ == join_words(views(words@)),
{
    let mut out: Vec<char> = Vec::new();
    let mut i: usize = 0;
    while i < words.len()
        invariant
            i <= words@.len(),
            out@ == join_words(views(words@).take(i as int)),
        decreases words@.len() - i,
    {
        let ghost ws = views(words@);
        proof {
            assert(ws.take(i + 1).drop_last() =~= ws.take(i as int));
            assert(ws.take(i + 1).last() == words@[i as int]@);
        }
        if i > 0 {
            out.push(' ');
        }
        let mut cs = chars_of(words[i].as_str());
        out.append(&mut cs);
        proof {
            if i == 0 {
                assert(out@ =~= join_words(ws.take(1)));
            } else {
                assert(out@ =~= join_words(ws.take(i + 1)));
            }
        }
        i = i + 1;
    }
    proof {
        assert(views(words@).take(words@.len() as int) =~= views(words@));
    }
    out
}

/// An ordered list of words to draw from; it is never empty.
pub struct WordSource {
    words: Vec<String>,
}

impl View for WordSource {
    type V = Seq<Seq<char>>;

    closed spec fn view(&self) -> Seq<Seq<char>> {
        views(self.words@)
    }
}

impl WordSource {
    /// The source's words: the white-space separated tokens of `text`.
    /// Fails when there are none.
    pub fn from_string(text: &str) -> (r: Result<WordSource, RustypexError>)
        ensures
            match r {
                Ok(src) => src@ == tokens(text@) && src@.len() > 0,
                Err(e) => tokens(text@).len() == 0 && e.kind == crate::error::ErrorKind::Source,
            },
    {
        let cs = chars_of(text);
        let mut words: Vec<String> = Vec::new();
        let mut cur: Vec<char> = Vec::new();
        let mut i: usize = 0;
        while i < cs.len()
            invariant
                i <= cs@.len(),
                cs@ == text@,
                cur@.len() > 0 <==> (i > 0 && !is_white_space(cs@[i - 1])),
                tokens(cs@.take(i as int)) == (if cur@.len() > 0 {
                    views(words@).push(cur@)
                } else {
                    views(words@)
                }),
            decreases cs@.len() - i,
        {
            let c = char_at(&cs, i);
            let ghost s = cs@.take(i + 1);
            proof {
                assert(s.drop_last() =~= cs@.take(i as int));
                assert(s.last() == c);
            }
            if is_white_space_char(c) {
                if cur.len() > 0 {
                    let w = string_of(&cur);
                    let ghost before = words@;
                    words.push(w);
                    proof {
                        assert(views(words@) =~= views(before).push(cur@));
                    }
                    cur = Vec::new();
                }
            } else {
                let ghost before = cur@;
                cur.push(c);
                proof {
                    if before.len() > 0 {
                        assert(views(words@).push(before).drop_last() =~= views(words@));
                        assert(tokens(s) =~= views(words@).push(cur@));
                    } else {
                        assert(cur@ =~= seq![c]);
                        if i > 0 {
                            assert(s[s.len() - 2] == cs@[i - 1]);
                        }
                        assert(tokens(s) =~= views(words@).push(cur@));
                    }
                }
            }
            i = i + 1;
        }
        if cur.len() > 0 {
            let w = string_of(&cur);
            let ghost before = words@;
            words.push(w);
            proof {
                assert(views(words@) =~= views(before).push(cur@));
            }
        }
        proof {
            assert(cs@.take(cs@.len() as int) =~= cs@);
        }
        if words.len() == 0 {
            Err(RustypexError::source(String::from_str("Word list is empty.")))
        } else {
            Ok(WordSource { words })
        }
    }

    /// The built-in list.
    pub fn builtin() -> (r: Result<WordSource, RustypexError>)
        ensures
            match r {
                Ok(src) => src@ == tokens(BUILTIN_WORDS@) && src@.len() > 0,
                Err(e) => tokens(BUILTIN_WORDS@).len() == 0 && e.kind
                    == crate::error::ErrorKind::Source,
            },
    {
        WordSource::from_string(BUILTIN_WORDS)
    }

    pub fn len(&self) -> (r: usize)
        ensures
            r == self@.len(),
    {
        self.words.len()
    }

    /// The word at position `i` of the list.
    pub fn next_word_at(&self, i: usize) -> (r: String)
        requires
            i < self@.len(),
        ensures
            r@ == self@[i as int],
    {
        self.words[i].clone()
    }

    /// The words at the given positions, in the order given.
    pub fn words_at(&self, picks: &Vec<usize>) -> (r: Vec<String>)
        requires
            forall|k: int| 0 <= k < picks@.len() ==> picks@[k] < self@.len(),
        ensures
            r@.len() == picks@.len(),
            forall|k: int| 0 <= k < picks@.len() ==> #[trigger] r@[k]@ == self@[picks@[k] as int],
    {
        let mut out: Vec<String> = Vec::new();
        let mut k: usize = 0;
        while k < picks.len()
            invariant
                k <= picks@.len(),
                out@.len() == k,
                forall|j: int| 0 <= j < picks@.len() ==> picks@[j] < self@.len(),
                forall|j: int| 0 <= j < k ==> #[trigger] out@[j]@ == self@[picks@[j] as int],
            decreases picks@.len() - k,
        {
            out.push(self.next_word_at(picks[k]));
            k = k + 1;
        }
        out
    }

    /// One word drawn at random, with replacement.
    pub fn next_word(&self) -> (r: String)
        requires
            self@.len() > 0,
        ensures
            self@.contains(r@),
    {
        let i = random_index(self.words.len());
        let w = self.next_word_at(i);
        proof {
            assert(self@[i as int] == w@);
        }
        w
    }

    /// `n` words drawn independently at random.
    pub fn next_words(&self, n: usize) -> (r: Vec<String>)
        requires
            self@.len() > 0,
        ensures
            r@.len() == n,
            forall|k: int| 0 <= k < n ==> self@.contains(#[trigger] r@[k]@),
    {
        let mut out: Vec<String> = Vec::new();
        let mut k: usize = 0;
        while k < n
            invariant
                k <= n,
                self@.len() > 0,
                out@.len() == k,
                forall|j: int| 0 <= j < k ==> self@.contains(#[trigger] out@[j]@),
            decreases n - k,
        {
            out.push(self.next_word());
            k = k + 1;
        }
        out
    }
}

} // verus!
