//! Duration humanisation: a count of milliseconds written out as an English
//! phrase, from a plain count or from the duration types of `std` and
//! `chrono`.

use vstd::prelude::*;
use crate::breakdown::{breakdown_of, decompose, lemma_breakdown_reconstructs};
use crate::list::{join_phrases, serial_list};
use crate::phrases::{build_phrases, lemma_zero_units_left_out, phrases_of};

verus! {

/// A duration of `milliseconds` in words.
///
/// Zero is `0 seconds` (`0 secs` when not verbose); anything else is the
/// list of its non-zero units.
pub open spec fn humanised(milliseconds: nat, verbose: bool) -> Seq<char> {
    if milliseconds == 0 {
        if verbose {
            "0 seconds"@
        } else {
            "0 secs"@
        }
    } else {
        serial_list(phrases_of(breakdown_of(milliseconds), verbose))
    }
}

/// Nothing is written of a breakdown exactly when the count is zero, which
/// is why zero has a text of its own.
pub proof fn lemma_no_phrase_iff_zero(milliseconds: nat, verbose: bool)
    ensures
        phrases_of(breakdown_of(milliseconds), verbose).len() == 0 <==> milliseconds == 0,
{
    lemma_breakdown_reconstructs(milliseconds);
    lemma_zero_units_left_out(breakdown_of(milliseconds), verbose);
}

/// The text is a function of the count and the flag alone: equal inputs are
/// humanised to equal texts.
pub proof fn lemma_humanised_deterministic(
    milliseconds: nat,
    verbose: bool,
    other_milliseconds: nat,
    other_verbose: bool,
)
    requires
        milliseconds == other_milliseconds,
        verbose == other_verbose,
    ensures
        humanised(milliseconds, verbose) == humanised(other_milliseconds, other_verbose),
{
}

/// Humanises a duration given in milliseconds.
///
/// The count is split into days, hours, minutes, seconds and milliseconds;
/// every unit that is not zero is written as a count and a word, and the
/// phrases are joined into a list. There is no unit above the day, since
/// months and years have no fixed length. With `verbose` unset, minutes,
/// seconds and milliseconds are abbreviated. A duration of zero is written
/// `0 seconds`, or `0 secs`.
pub fn humanise_duration_ms(milliseconds: u128, verbose: bool) -> (s: String)
    ensures
        s@ == humanised(milliseconds as nat, verbose),
{
    if milliseconds == 0 {
        return if verbose {
            String::from_str("0 seconds")
        } else {
            String::from_str("0 secs")
        };
    }
    let b = decompose(milliseconds);
    let phrases = build_phrases(&b, verbose);
    join_phrases(phrases.as_slice())
}

/// `chrono::TimeDelta`, which `chrono::Duration` is another name of: a signed
/// span of time, carried here as an opaque value.
#[verifier::external_type_specification]
#[verifier::external_body]
pub struct ExTimeDelta(chrono::TimeDelta);

/// The whole milliseconds in a `std::time::Duration`, as
/// `Duration::as_millis` counts them.
pub uninterp spec fn duration_millis(duration: std::time::Duration) -> u128;

/// The whole seconds in a `chrono::TimeDelta`, negative for a negative span,
/// as `TimeDelta::num_seconds` counts them.
pub uninterp spec fn time_delta_seconds(delta: chrono::TimeDelta) -> i64;

/// The whole milliseconds in what a `chrono::TimeDelta` holds beyond its
/// whole seconds, as `TimeDelta::subsec_millis` counts them.
pub uninterp spec fn time_delta_subsec_millis(delta: chrono::TimeDelta) -> i32;

/// `Duration::as_millis` depends on the duration alone: it returns the total
/// number of whole milliseconds the duration contains, which
/// [`duration_millis`] names. Nothing else is claimed of it.
pub assume_specification[ std::time::Duration::as_millis ](duration: &std::time::Duration) -> (ms:
    u128)
    ensures
        ms == duration_millis(*duration),
;

/// `TimeDelta::num_seconds` depends on the span alone and returns for every
/// span: the total number of whole seconds in it, which
/// [`time_delta_seconds`] names. Nothing else is claimed of it.
pub assume_specification[ chrono::TimeDelta::num_seconds ](delta: &chrono::TimeDelta) -> (seconds:
    i64)
    ensures
        seconds == time_delta_seconds(*delta),
;

/// `TimeDelta::subsec_millis` depends on the span alone and returns for
/// every span: the number of milliseconds in the part of the span that is
/// short of a whole second, which [`time_delta_subsec_millis`] names.
/// Nothing else is claimed of it.
pub assume_specification[ chrono::TimeDelta::subsec_millis ](delta: &chrono::TimeDelta) -> (millis:
    i32)
    ensures
        millis == time_delta_subsec_millis(*delta),
;

/// The distance of `n` from zero.
pub open spec fn magnitude(n: int) -> nat {
    if n < 0 {
        (-n) as nat
    } else {
        n as nat
    }
}

/// The size in milliseconds of a signed span of `seconds` whole seconds and
/// `subsec_millis` milliseconds more, whichever way it points.
pub fn absolute_milliseconds(seconds: i64, subsec_millis: i32) -> (size: u128)
    ensures
        size == magnitude(seconds * 1_000 + subsec_millis),
{
    let signed: i128 = seconds as i128 * 1_000 + subsec_millis as i128;
    if signed < 0 {
        (-signed) as u128
    } else {
        signed as u128
    }
}

/// Converts `duration` to whole milliseconds, dropping what is finer, then
/// humanises that as [`humanise_duration_ms`] does.
pub fn humanise_duration(duration: std::time::Duration, verbose: bool) -> (s: String)
    ensures
        s@ == humanised(duration_millis(duration) as nat, verbose),
{
    humanise_duration_ms(duration.as_millis(), verbose)
}

/// Converts `duration` to whole milliseconds, takes their absolute value,
/// then humanises that as [`humanise_duration_ms`] does.
///
/// The milliseconds are added up here from the span's whole seconds and the
/// milliseconds beyond them, in an integer wide enough for any span, one past
/// `chrono::Duration::MAX` included.
pub fn humanise_duration_chrono(duration: chrono::Duration, verbose: bool) -> (s: String)
    ensures
        s@ == humanised(
            magnitude(
                time_delta_seconds(duration) * 1_000 + time_delta_subsec_millis(duration),
            ),
            verbose,
        ),
{
    let seconds = duration.num_seconds();
    let subsec_millis = duration.subsec_millis();
    humanise_duration_ms(absolute_milliseconds(seconds, subsec_millis), verbose)
}

} // verus!
