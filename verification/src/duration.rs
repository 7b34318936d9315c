//! Lengths of time with nanosecond resolution, and their human-readable
//! forms.

use vstd::prelude::*;
use vstd::string::*;
use crate::text::{chars_of, decimal, push_decimal};

verus! {

/// Nanoseconds in one second.
pub const NANOS_PER_SEC: u32 = 1_000_000_000;

/// A non-negative length of time: whole seconds and the nanoseconds of the
/// second that has begun.
#[derive(Clone, Copy, Debug, PartialEq, Eq, Structural)]
pub struct TimeSpan {
    secs: u64,
    nanos: u32,
}

impl View for TimeSpan {
    type V = nat;

    /// The length in nanoseconds.
    closed spec fn view(&self) -> nat {
        (self.secs as nat) * 1_000_000_000 + self.nanos as nat
    }
}

/// Why a text was not read as a span.
#[derive(Clone, Copy, Debug, PartialEq, Eq, Structural)]
pub enum SpanParseError {
    /// The numbers of the text have more digits between them than can be
    /// read safely, zeros in front of a number not counted.
    TooManyDigits,
    /// The text is not a sequence of numbers with time units.
    Invalid,
}

/// The most digits that may count in a text that is read as a span.
pub const MAX_SPAN_DIGITS: usize = 11;

/// The error of `humantime::parse_duration`.
#[verifier::external_type_specification]
#[verifier::external_body]
pub struct ExDurationError(humantime::DurationError);

/// What `humantime::parse_duration` reads from a text: the length in
/// nanoseconds, or nothing where it reports an error.
pub uninterp spec fn parsed_duration(text: Seq<char>) -> Option<nat>;

/// What `humantime::format_duration` displays for a length in nanoseconds.
pub uninterp spec fn formatted_duration(nanos: nat) -> Seq<char>;

/// What reading a text as a span comes to: its length in nanoseconds, or
/// the reason it is turned down.
pub open spec fn parse_outcome(text: Seq<char>) -> Result<nat, SpanParseError> {
    if digit_count(text) > MAX_SPAN_DIGITS {
        Err(SpanParseError::TooManyDigits)
    } else {
        match parsed_duration(text) {
            Some(nanos) => Ok(nanos),
            None => Err(SpanParseError::Invalid),
        }
    }
}

/// Whether `c` is one of `0` to `9`.
pub open spec fn is_digit(c: char) -> bool {
    '0' <= c <= '9'
}

/// Whether a number ends at `c`: at a letter, with which a unit begins, or
/// at the dot before a fraction. White space does not end a number.
pub open spec fn ends_number(c: char) -> bool {
    ('a' <= c <= 'z') || ('A' <= c <= 'Z') || c == 'µ' || c == '.'
}

/// The digits of `text[i..]` that count towards the size of its numbers:
/// all but the zeros in front of a number. `fresh` tells that the number at
/// hand has shown nothing but zeros so far.
pub open spec fn weight_from(text: Seq<char>, i: int, fresh: bool) -> nat
    decreases text.len() - i,
{
    if i < 0 || i >= text.len() {
        0
    } else if is_digit(text[i]) {
        if fresh && text[i] == '0' {
            weight_from(text, i + 1, true)
        } else {
            1 + weight_from(text, i + 1, false)
        }
    } else if ends_number(text[i]) {
        weight_from(text, i + 1, true)
    } else {
        weight_from(text, i + 1, fresh)
    }
}

/// The number of digits in `text`, not counting the zeros that a number
/// begins with.
pub open spec fn digit_count(text: Seq<char>) -> nat {
    weight_from(text, 0, true)
}

/// Counts the digits in `text`, leaving out the zeros that a number begins
/// with.
pub fn count_digits(text: &str) -> (count: usize)
    ensures
        count == digit_count(text@),
{
    let chars = chars_of(text);
    let mut count: usize = 0;
    let mut fresh = true;
    let mut i: usize = 0;
    while i < chars.len()
        invariant
            0 <= i <= chars.len(),
            count <= i,
            digit_count(chars@) == count + weight_from(chars@, i as int, fresh),
        decreases chars.len() - i,
    {
        let c = chars[i];
        if '0' <= c && c <= '9' {
            if !(fresh && c == '0') {
                count += 1;
                fresh = false;
            }
        } else if ('a' <= c && c <= 'z') || ('A' <= c && c <= 'Z') || c == 'µ' || c == '.' {
            fresh = true;
        }
        i += 1;
    }
    count
}

/// `humantime::parse_duration`, which reads numbers with time units
/// (`1h 30min`, `4.2s`). The outcome depends on the text alone. Its seconds
/// are summed with overflow checks, its nanoseconds are always handed on
/// below a second but for one case: a total of exactly one second's worth of
/// nanoseconds on top of `u64::MAX` seconds, where the final carry aborts.
/// A number, before or behind the dot, takes in digits across white space,
/// ends where a letter or a dot comes, and is below ten to the power of the
/// count of its digits from the first that is not zero. The longest unit,
/// the year, is worth 31 557 600 seconds. So a text in which at most eleven
/// digits count stays below 3.2 * 10^18 seconds, a sixth of what that case
/// needs.
#[verifier::external_body]
fn parse_duration(text: &str) -> (parsed: Result<TimeSpan, humantime::DurationError>)
    requires
        digit_count(text@) <= MAX_SPAN_DIGITS,
    ensures
        parsed matches Ok(span) ==> parsed_duration(text@) == Some(span@),
        parsed is Err ==> parsed_duration(text@) is None,
{
    match humantime::parse_duration(text) {
        Ok(d) => Ok(TimeSpan { secs: d.as_secs(), nanos: d.subsec_nanos() }),
        Err(e) => Err(e),
    }
}

/// `humantime::format_duration`, displayed: the text depends on the length
/// alone.
#[verifier::external_body]
fn format_duration(span: TimeSpan) -> (out: String)
    ensures
        out@ == formatted_duration(span@),
{
    humantime::format_duration(std::time::Duration::new(span.secs, span.nanos)).to_string()
}

/// The longest span that can be represented, in nanoseconds.
pub open spec fn max_span() -> nat {
    (u64::MAX as nat) * 1_000_000_000 + 999_999_999
}

impl TimeSpan {
    #[verifier::type_invariant]
    spec fn well_formed(self) -> bool {
        self.nanos < NANOS_PER_SEC
    }

    /// The span of `secs` seconds and `nanos` nanoseconds. A nanosecond part
    /// of a second or more cannot be stored and gives `None`.
    pub fn new(secs: u64, nanos: u32) -> (span: Option<TimeSpan>)
        ensures
            nanos < NANOS_PER_SEC ==> span is Some && span.unwrap()@ == secs as nat * 1_000_000_000
                + nanos as nat,
            nanos >= NANOS_PER_SEC ==> span is None,
    {
        if nanos < NANOS_PER_SEC {
            Some(TimeSpan { secs, nanos })
        } else {
            None
        }
    }

    /// The span of `secs` whole seconds.
    pub fn from_secs(secs: u64) -> (span: TimeSpan)
        ensures
            span@ == secs as nat * 1_000_000_000,
    {
        TimeSpan { secs, nanos: 0 }
    }

    /// The whole seconds in the span.
    pub fn as_secs(&self) -> (secs: u64)
        ensures
            secs as nat == self@ / 1_000_000_000,
    {
        proof {
            use_type_invariant(self);
        }
        self.secs
    }

    /// The nanoseconds beyond the whole seconds.
    pub fn subsec_nanos(&self) -> (nanos: u32)
        ensures
            nanos as nat == self@ % 1_000_000_000,
    {
        proof {
            use_type_invariant(self);
        }
        self.nanos
    }

    /// Reads a span in human form, such as `1m30s` or `10s`.
    pub fn parse(text: &str) -> (parsed: Result<TimeSpan, SpanParseError>)
        ensures
            match parse_outcome(text@) {
                Ok(nanos) => parsed is Ok && parsed.unwrap()@ == nanos,
                Err(e) => parsed == Err::<TimeSpan, SpanParseError>(e),
            },
    {
        if count_digits(text) > MAX_SPAN_DIGITS {
            return Err(SpanParseError::TooManyDigits);
        }
        match parse_duration(text) {
            Ok(span) => Ok(span),
            Err(_) => Err(SpanParseError::Invalid),
        }
    }

    /// The span in human form, such as `1m 30s`.
    pub fn format(&self) -> (out: String)
        ensures
            out@ == formatted_duration(self@),
    {
        format_duration(*self)
    }

    /// The sum of two spans, or `None` where it is longer than any span.
    pub fn checked_add(self, other: TimeSpan) -> (sum: Option<TimeSpan>)
        ensures
            self@ + other@ <= max_span() ==> sum is Some && sum.unwrap()@ == self@ + other@,
            self@ + other@ > max_span() ==> sum is None,
    {
        proof {
            use_type_invariant(self);
            use_type_invariant(other);
        }
        let mut nanos: u32 = self.nanos + other.nanos;
        let mut carry: u64 = 0;
        if nanos >= NANOS_PER_SEC {
            nanos = nanos - NANOS_PER_SEC;
            carry = 1;
        }
        match self.secs.checked_add(other.secs) {
            None => None,
            Some(secs) => match secs.checked_add(carry) {
                None => None,
                Some(secs) => Some(TimeSpan { secs, nanos }),
            },
        }
    }

    /// The difference of two spans, or zero where `other` is the longer.
    pub fn saturating_sub(self, other: TimeSpan) -> (diff: TimeSpan)
        ensures
            diff@ == if other@ > self@ {
                0
            } else {
                self@ - other@
            },
    {
        proof {
            use_type_invariant(self);
            use_type_invariant(other);
        }
        if other.secs > self.secs || (other.secs == self.secs && other.nanos > self.nanos) {
            TimeSpan { secs: 0, nanos: 0 }
        } else if self.nanos >= other.nanos {
            TimeSpan { secs: self.secs - other.secs, nanos: self.nanos - other.nanos }
        } else {
            TimeSpan {
                secs: self.secs - other.secs - 1,
                nanos: self.nanos + NANOS_PER_SEC - other.nanos,
            }
        }
    }
}

/// `n` in decimal, with a leading zero where it has one digit.
pub open spec fn two_digits(n: nat) -> Seq<char> {
    if n < 10 {
        seq!['0'] + decimal(n)
    } else {
        decimal(n)
    }
}

/// The clock text of a track length: minutes and seconds, `--:--` where the
/// length is unknown.
pub open spec fn clock_text(duration: Option<TimeSpan>) -> Seq<char> {
    match duration {
        Some(span) => {
            let secs = span@ / 1_000_000_000;
            two_digits(secs / 60) + seq![':'] + two_digits(secs % 60)
        },
        None => "--:--"@,
    }
}

fn push_two_digits(out: &mut String, n: u64)
    ensures
        final(out)@ == old(out)@ + two_digits(n as nat),
{
    if n < 10 {
        out.append("0");
        proof {
            reveal_strlit("0");
        }
    }
    push_decimal(out, n);
    proof {
        if n < 10 {
            assert(old(out)@ + (seq!['0'] + decimal(n as nat)) =~= old(out)@ + seq!['0'] + decimal(
                n as nat,
            ));
            assert("0"@ =~= seq!['0']);
        }
    }
}

/// Formats a track length as `MM:SS`.
pub fn fmt_duration(duration: &Option<TimeSpan>) -> (out: String)
    ensures
        out@ == clock_text(*duration),
{
    match duration {
        Some(span) => {
            let secs = span.as_secs();
            let mut out = String::new();
            push_two_digits(&mut out, secs / 60);
            out.append(":");
            push_two_digits(&mut out, secs % 60);
            proof {
                reveal_strlit(":");
                assert(":"@ =~= seq![':']);
                assert(out@ =~= clock_text(*duration));
            }
            out
        },
        None => String::from_str("--:--"),
    }
}

} // verus!
