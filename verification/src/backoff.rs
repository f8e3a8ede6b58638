//! The waits between attempts, as `backon` computes them.

use backon::{BackoffBuilder, ExponentialBackoff, ExponentialBuilder};
use vstd::prelude::*;
use vstd::string::*;

use crate::time::Duration;

verus! {

/// `backon::ExponentialBackoff`: the waits that are still to come.
#[verifier::external_type_specification]
#[verifier::external_body]
pub struct ExExponentialBackoff(ExponentialBackoff);

/// The waits that a backoff has still to give, in order, each as seconds and
/// nanoseconds.
pub uninterp spec fn waits_left(backoff: ExponentialBackoff) -> Seq<(u64, u32)>;

/// Whether a backoff draws no random part for its waits and has no limit on
/// their sum, so that it gives out its waits as they stand.
pub uninterp spec fn is_plain(backoff: ExponentialBackoff) -> bool;

/// The waits of a backoff that starts at `min`, grows by `factor` up to
/// `max`, and gives `times` waits; each wait as seconds and nanoseconds, the
/// factor as a decimal text.
pub uninterp spec fn exponential_waits(
    min: (u64, u32),
    max: (u64, u32),
    times: u32,
    factor: Seq<char>,
) -> Seq<(u64, u32)>;

/// Seconds and nanoseconds as nanoseconds.
pub open spec fn wait_nanos(wait: (u64, u32)) -> nat {
    wait.0 as nat * 1_000_000_000 + wait.1 as nat
}

/// A span as seconds and nanoseconds.
pub open spec fn wait_of(span: Duration) -> (u64, u32) {
    (span.secs(), span.nanos())
}

/// Whether Rust reads a text as a floating-point number.
pub uninterp spec fn is_number(text: Seq<char>) -> bool;

/// Whether a text is made of decimal digits, at least one.
pub open spec fn all_digits(text: Seq<char>) -> bool {
    &&& text.len() > 0
    &&& forall|i: int| 0 <= i < text.len() ==> '0' <= #[trigger] text[i] && text[i] <= '9'
}

/// `str::parse` to the floating-point type that a factor of
/// `backon::ExponentialBuilder` has: decimal digits, with or without a point
/// and further digits after it, are a number. Which other texts are is left
/// to the standard library and only named.
#[verifier::external_body]
fn reads_as_number(text: &str) -> (r: bool)
    ensures
        r == is_number(text@),
        all_digits(text@) ==> r,
        forall|i: int|
            0 < i < text@.len() - 1 && #[trigger] text@[i] == '.' && all_digits(text@.take(i))
                && all_digits(text@.skip(i + 1)) ==> r,
{
    match text.parse() {
        Ok(factor) => {
            // Called only for the type of its parameter, which the text is read as.
            let _ = ExponentialBuilder::default().with_factor(factor);
            true
        },
        Err(_) => false,
    }
}

/// The factor by which waits grow: a number by its text.
#[derive(Debug)]
pub struct RetryFactor {
    text: String,
}

impl RetryFactor {
    #[verifier::type_invariant]
    spec fn wf(self) -> bool {
        is_number(self.text@)
    }

    /// The text of the number.
    pub closed spec fn text(self) -> Seq<char> {
        self.text@
    }

    /// The factor of a text, if the text is a number.
    pub fn from_text(text: &str) -> (r: Option<Self>)
        ensures
            r is Some <==> is_number(text@),
            r is Some ==> r->0.text() == text@,
            all_digits(text@) ==> r is Some,
            forall|i: int|
                0 < i < text@.len() - 1 && #[trigger] text@[i] == '.' && all_digits(text@.take(i))
                    && all_digits(text@.skip(i + 1)) ==> r is Some,
    {
        if reads_as_number(text) {
            Some(RetryFactor { text: text.to_owned() })
        } else {
            None
        }
    }

    /// The factor of two.
    pub fn two() -> (r: Self)
        ensures
            r.text() == "2"@,
    {
        let number = reads_as_number("2");
        proof {
            reveal_strlit("2");
        }
        assert(number);
        RetryFactor { text: "2".to_owned() }
    }

    /// The text of the number.
    pub fn as_str(&self) -> (r: &str)
        ensures
            r@ == self.text(),
            is_number(r@),
    {
        proof {
            use_type_invariant(self);
        }
        self.text.as_str()
    }
}

impl Clone for RetryFactor {
    fn clone(&self) -> (r: Self)
        ensures
            r.text() == self.text(),
    {
        proof {
            use_type_invariant(self);
        }
        RetryFactor { text: self.text.clone() }
    }
}

/// `backon::ExponentialBuilder` with the smallest and largest wait, the
/// number of waits and the factor set, then `build`. It gives as many waits
/// as asked for, without a random part or a limit on their sum, which the
/// builder has only where they are asked for; the first is the smallest wait as it stands, even above the
/// largest; each later one is at most the largest. How the waits grow between
/// is `backon`'s floating-point arithmetic and only named.
#[verifier::external_body]
fn build_backoff(min: Duration, max: Duration, times: u32, factor: &str) -> (r: ExponentialBackoff)
    requires
        is_number(factor@),
    ensures
        is_plain(r),
        waits_left(r) == exponential_waits(wait_of(min), wait_of(max), times, factor@),
        waits_left(r).len() == times,
        times > 0 ==> waits_left(r)[0] == wait_of(min),
        forall|i: int|
            0 < i < times ==> wait_nanos(#[trigger] waits_left(r)[i]) <= wait_nanos(wait_of(max)),
{
    ExponentialBuilder::default()
        .with_min_delay(std::time::Duration::new(min.as_secs(), min.subsec_nanos()))
        .with_max_delay(std::time::Duration::new(max.as_secs(), max.subsec_nanos()))
        .with_max_times(times as usize)
        .with_factor(factor.parse().expect("the factor is a number"))
        .build()
}

/// `ExponentialBackoff::next` of a backoff without a random part or a limit
/// on the sum of its waits: hands out the first wait that is left, or nothing
/// when none is, and leaves the backoff such a one.
#[verifier::external_body]
fn next_wait(backoff: &mut ExponentialBackoff) -> (r: Option<Duration>)
    requires
        is_plain(*old(backoff)),
    ensures
        is_plain(*final(backoff)),
        r is Some <==> waits_left(*old(backoff)).len() > 0,
        r is Some ==> wait_of(r->0) == waits_left(*old(backoff))[0],
        waits_left(*final(backoff)) == if waits_left(*old(backoff)).len() > 0 {
            waits_left(*old(backoff)).drop_first()
        } else {
            waits_left(*old(backoff))
        },
{
    backoff.next().map(|wait| Duration::new(wait.as_secs(), wait.subsec_nanos()))
}

/// The waits between the attempts of one command.
pub struct Waits {
    backoff: ExponentialBackoff,
}

impl View for Waits {
    type V = Seq<(u64, u32)>;

    closed spec fn view(&self) -> Seq<(u64, u32)> {
        waits_left(self.backoff)
    }
}

impl Waits {
    #[verifier::type_invariant]
    spec fn wf(self) -> bool {
        is_plain(self.backoff)
    }

    /// `times` waits: the first is `min`, the others grow by `factor` and
    /// stay within `max`.
    pub fn new(min: Duration, max: Duration, times: u32, factor: &RetryFactor) -> (r: Self)
        ensures
            r@ == exponential_waits(wait_of(min), wait_of(max), times, factor.text()),
            r@.len() == times,
            times > 0 ==> r@[0] == wait_of(min),
            forall|i: int|
                0 < i < times ==> wait_nanos(#[trigger] r@[i]) <= wait_nanos(wait_of(max)),
    {
        Waits { backoff: build_backoff(min, max, times, factor.as_str()) }
    }

    /// Takes the next wait, if one is left.
    pub fn take_next(self) -> (r: (Option<Duration>, Self))
        ensures
            r.0 is Some <==> self@.len() > 0,
            r.0 is Some ==> wait_of(r.0->0) == self@[0],
            r.1@ == if self@.len() > 0 {
                self@.drop_first()
            } else {
                self@
            },
    {
        proof {
            use_type_invariant(&self);
        }
        let mut backoff = self.backoff;
        let wait = next_wait(&mut backoff);
        (wait, Waits { backoff })
    }
}

/// A wait is its whole seconds and the nanoseconds beyond them.
pub proof fn law_length_of_a_wait(span: Duration)
    ensures
        wait_of(span).0 == span.secs(),
        wait_of(span).1 == span.nanos(),
        wait_nanos(wait_of(span)) == span.secs() * 1_000_000_000 + span.nanos(),
        wait_nanos(wait_of(span)) == span.total_nanos(),
{
}

/// A text is made of digits exactly where it is a digit after nothing or
/// after such a text.
pub proof fn law_digit_texts(text: Seq<char>, c: char)
    ensures
        !all_digits(Seq::empty()),
        all_digits(text.push(c)) <==> (text.len() == 0 || all_digits(text)) && '0' <= c && c <= '9',
{
    if all_digits(text.push(c)) {
        assert(text.push(c)[text.len() as int] == c);
        assert forall|i: int| 0 <= i < text.len() implies '0' <= #[trigger] text[i] && text[i]
            <= '9' by {
            assert(text.push(c)[i] == text[i]);
        }
    }
}

} // verus!
