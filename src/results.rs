use vstd::prelude::*;
use vstd::string::StringExecFns;

verus! {

/// Milliseconds in a minute.
pub const MS_PER_MINUTE: u64 = 60000;

/// Characters in one standard word.
pub const CHARS_PER_WORD: u64 = 5;

/// A verdict on a typing speed, by ascending speed bucket.
#[derive(Clone, Copy, Debug, PartialEq, Eq, Structural)]
pub enum Remark {
    /// Under 10 wpm.
    Turtle,
    /// Under 20 wpm.
    NotBad,
    /// Under 30 wpm.
    BelowAverage,
    /// Under 40 wpm.
    Average,
    /// Under 50 wpm.
    AboveAverage,
    /// Under 70 wpm.
    Pro,
    /// 70 wpm and more.
    God,
}

impl Remark {
    pub open spec fn text_spec(self) -> Seq<char> {
        match self {
            Remark::Turtle => "A turtle could type faster."@,
            Remark::NotBad => "Not bad."@,
            Remark::BelowAverage => "Just a tad below average."@,
            Remark::Average => "You're right at the average speed."@,
            Remark::AboveAverage => "Great job, you're above average!"@,
            Remark::Pro => "You type like a pro!"@,
            Remark::God => "You're a typing god!"@,
        }
    }

    /// The message shown for this verdict.
    pub fn text(&self) -> (r: String)
        ensures
            r@ == self.text_spec(),
    {
        match self {
            Remark::Turtle => String::from_str("A turtle could type faster."),
            Remark::NotBad => String::from_str("Not bad."),
            Remark::BelowAverage => String::from_str("Just a tad below average."),
            Remark::Average => String::from_str("You're right at the average speed."),
            Remark::AboveAverage => String::from_str("Great job, you're above average!"),
            Remark::Pro => String::from_str("You type like a pro!"),
            Remark::God => String::from_str("You're a typing god!"),
        }
    }
}

/// The snapshot of a finished test; timestamps are in milliseconds.
#[derive(Clone, Copy, Debug, PartialEq, Eq)]
pub struct RustypexResults {
    pub total_words: usize,
    pub total_chars_typed: usize,
    pub total_chars_in_text: usize,
    pub total_char_errors: usize,
    pub final_chars_typed_correctly: usize,
    pub final_uncorrected_errors: usize,
    pub started_at: u64,
    pub ended_at: u64,
}

impl RustypexResults {
    /// Every counted error belongs to a counted keystroke.
    pub open spec fn wf(self) -> bool {
        self.total_char_errors <= self.total_chars_typed
    }

    /// Elapsed time of the typing phase; a clock that went back gives zero.
    pub open spec fn duration_ms(self) -> nat {
        if self.ended_at >= self.started_at {
            (self.ended_at - self.started_at) as nat
        } else {
            0
        }
    }

    /// Accuracy is `accuracy_num / accuracy_den`: the share of forward
    /// keystrokes that were right, and zero when nothing was typed.
    pub open spec fn accuracy_num(self) -> int {
        if self.total_chars_typed == 0 {
            0
        } else {
            self.total_chars_typed - self.total_char_errors
        }
    }

    pub open spec fn accuracy_den(self) -> int {
        if self.total_chars_typed == 0 {
            1
        } else {
            self.total_chars_typed as int
        }
    }

    /// Correct characters net of the penalty for uncorrected errors, floored
    /// at zero, in characters (five make a word).
    pub open spec fn net_chars(self) -> int {
        let n = self.final_chars_typed_correctly - CHARS_PER_WORD * self.final_uncorrected_errors;
        if n >= 0 {
            n
        } else {
            0
        }
    }

    /// Words per minute is `wpm_num / wpm_den`:
    /// `(net_chars / 5) / (duration_ms / 60000)`.
    pub open spec fn wpm_num(self) -> int {
        self.net_chars() * MS_PER_MINUTE
    }

    pub open spec fn wpm_den(self) -> int {
        CHARS_PER_WORD * self.duration_ms()
    }

    /// The speed is under `t` words per minute; a zero duration makes the
    /// speed unbounded.
    pub open spec fn wpm_below(self, t: int) -> bool {
        self.wpm_den() > 0 && self.wpm_num() < t * self.wpm_den()
    }

    pub open spec fn remark_spec(self) -> Remark {
        if self.wpm_below(10) {
            Remark::Turtle
        } else if self.wpm_below(20) {
            Remark::NotBad
        } else if self.wpm_below(30) {
            Remark::BelowAverage
        } else if self.wpm_below(40) {
            Remark::Average
        } else if self.wpm_below(50) {
            Remark::AboveAverage
        } else if self.wpm_below(70) {
            Remark::Pro
        } else {
            Remark::God
        }
    }

    /// Elapsed milliseconds between the first key and the completing key.
    pub fn duration(&self) -> (r: u64)
        ensures
            r == self.duration_ms(),
    {
        if self.ended_at >= self.started_at {
            self.ended_at - self.started_at
        } else {
            0
        }
    }

    /// Accuracy as a fraction `(numerator, denominator)`.
    pub fn accuracy_ratio(&self) -> (r: (usize, usize))
        requires
            self.wf(),
        ensures
            r.0 == self.accuracy_num(),
            r.1 == self.accuracy_den(),
    {
        if self.total_chars_typed == 0 {
            (0, 1)
        } else {
            (self.total_chars_typed - self.total_char_errors, self.total_chars_typed)
        }
    }

    /// Words per minute as a fraction `(numerator, denominator)`.
    pub fn wpm_ratio(&self) -> (r: (u128, u128))
        ensures
            r.0 == self.wpm_num(),
            r.1 == self.wpm_den(),
    {
        let correct = self.final_chars_typed_correctly as u128;
        let penalty = CHARS_PER_WORD as u128 * self.final_uncorrected_errors as u128;
        let net: u128 = if correct >= penalty {
            correct - penalty
        } else {
            0
        };
        assert(net * 60000 <= 0xffff_ffff_ffff_ffffu128 * 60000) by (nonlinear_arith)
            requires
                net <= 0xffff_ffff_ffff_ffffu128,
        ;
        (net * MS_PER_MINUTE as u128, CHARS_PER_WORD as u128 * self.duration() as u128)
    }

    /// Whether the speed is under `t` words per minute.
    fn is_wpm_below(&self, t: u64) -> (r: bool)
        requires
            t <= 100,
        ensures
            r == self.wpm_below(t as int),
    {
        let (num, den) = self.wpm_ratio();
        proof {
            assert(t * den <= 100 * 5 * 0xffff_ffff_ffff_ffffu128) by (nonlinear_arith)
                requires
                    den <= 5 * 0xffff_ffff_ffff_ffffu128,
                    t <= 100,
            ;
        }
        den > 0 && num < t as u128 * den
    }

    /// The verdict on this test's speed.
    pub fn remark(&self) -> (r: Remark)
        ensures
            r == self.remark_spec(),
    {
        if self.is_wpm_below(10) {
            Remark::Turtle
        } else if self.is_wpm_below(20) {
            Remark::NotBad
        } else if self.is_wpm_below(30) {
            Remark::BelowAverage
        } else if self.is_wpm_below(40) {
            Remark::Average
        } else if self.is_wpm_below(50) {
            Remark::AboveAverage
        } else if self.is_wpm_below(70) {
            Remark::Pro
        } else {
            Remark::God
        }
    }
}

/// Accuracy lies in `[0, 1]` once something was typed, and is zero before.
pub proof fn lemma_accuracy_in_unit_range(r: RustypexResults)
    requires
        r.wf(),
    ensures
        r.accuracy_den() > 0,
        r.total_chars_typed > 0 ==> 0 <= r.accuracy_num() <= r.accuracy_den(),
        r.total_chars_typed == 0 ==> r.accuracy_num() == 0,
{
}

/// Words per minute is never negative.
pub proof fn lemma_wpm_not_negative(r: RustypexResults)
    ensures
        r.wpm_num() >= 0,
        r.wpm_den() >= 0,
{
}

} // verus!
