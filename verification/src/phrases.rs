//! The phrases of a duration: one for each unit that is not zero, a count
//! and the unit's word.

use vstd::prelude::*;
use vstd::seq_lib::lemma_seq_concat_contains_all_elements;
use crate::breakdown::{Breakdown, UnitBreakdown};
use crate::decimal::{
    decimal, decimal_string, is_digit, lemma_decimal_all_digits, lemma_decimal_injective,
};
use crate::list::texts;
use crate::plural::{plural_suffix, pluralised};

verus! {

/// The units that a duration is written in, the largest first.
#[derive(Clone, Copy, Debug, PartialEq, Eq, Structural)]
pub enum Unit {
    Day,
    Hour,
    Minute,
    Second,
    Millisecond,
}

/// The word that follows a count of `unit`.
///
/// Days and hours are always written in full. The short forms of minutes and
/// milliseconds are fixed, `min ` (with its trailing space) and `ms`, but the
/// short form of seconds still takes its plural: `sec`, `secs`.
pub open spec fn unit_label(unit: Unit, count: nat, verbose: bool) -> Seq<char> {
    match unit {
        Unit::Day => pluralised(count, "day"@, false),
        Unit::Hour => pluralised(count, "hour"@, false),
        Unit::Minute => if verbose {
            pluralised(count, "minute"@, false)
        } else {
            "min "@
        },
        Unit::Second => if verbose {
            pluralised(count, "second"@, false)
        } else {
            pluralised(count, "sec"@, false)
        },
        Unit::Millisecond => if verbose {
            pluralised(count, "millisecond"@, false)
        } else {
            "ms"@
        },
    }
}

/// A count of one unit in words: the number, a space, the unit's word.
pub open spec fn unit_phrase(unit: Unit, count: nat, verbose: bool) -> Seq<char> {
    decimal(count).push(' ') + unit_label(unit, count, verbose)
}

/// The phrase of one unit, or nothing where the unit's count is zero.
pub open spec fn phrase_unless_zero(unit: Unit, count: nat, verbose: bool) -> Seq<Seq<char>> {
    if count == 0 {
        Seq::empty()
    } else {
        seq![unit_phrase(unit, count, verbose)]
    }
}

/// One phrase for each unit of `b` that is not zero, the largest unit first.
pub open spec fn phrases_of(b: Breakdown, verbose: bool) -> Seq<Seq<char>> {
    phrase_unless_zero(Unit::Day, b.days, verbose) + phrase_unless_zero(
        Unit::Hour,
        b.hours,
        verbose,
    ) + phrase_unless_zero(Unit::Minute, b.minutes, verbose) + phrase_unless_zero(
        Unit::Second,
        b.seconds,
        verbose,
    ) + phrase_unless_zero(Unit::Millisecond, b.milliseconds, verbose)
}

/// The count that `b` holds of `unit`.
pub open spec fn count_of(b: Breakdown, unit: Unit) -> nat {
    match unit {
        Unit::Day => b.days,
        Unit::Hour => b.hours,
        Unit::Minute => b.minutes,
        Unit::Second => b.seconds,
        Unit::Millisecond => b.milliseconds,
    }
}

/// One for a count that is not zero, nothing for zero.
pub open spec fn one_unless_zero(count: nat) -> nat {
    if count == 0 {
        0
    } else {
        1
    }
}

/// How many units of `b` are not zero.
pub open spec fn nonzero_units(b: Breakdown) -> nat {
    one_unless_zero(b.days) + one_unless_zero(b.hours) + one_unless_zero(b.minutes)
        + one_unless_zero(b.seconds) + one_unless_zero(b.milliseconds)
}

/// The words of different units differ, whatever the counts, as long as
/// both are written in the same style.
pub proof fn lemma_label_tells_unit(
    unit: Unit,
    count: nat,
    other_unit: Unit,
    other_count: nat,
    verbose: bool,
)
    requires
        unit_label(unit, count, verbose) == unit_label(other_unit, other_count, verbose),
    ensures
        unit == other_unit,
{
    reveal_strlit("day");
    reveal_strlit("hour");
    reveal_strlit("minute");
    reveal_strlit("min ");
    reveal_strlit("second");
    reveal_strlit("sec");
    reveal_strlit("millisecond");
    reveal_strlit("ms");
    // The first three letters tell the words apart: `d`, `h` and `s` open
    // one word each, and the two that open with `m` differ after it.
    let word = unit_label(unit, count, verbose);
    let other_word = unit_label(other_unit, other_count, verbose);
    assert(word[0] == other_word[0]);
    assert(word[1] == other_word[1]);
    if verbose {
        assert(word[2] == other_word[2]);
    }
}

/// A phrase tells its unit and its count: two phrases in the same style are
/// equal only where both unit and count are.
pub proof fn lemma_phrase_tells_unit_and_count(
    unit: Unit,
    count: nat,
    other_unit: Unit,
    other_count: nat,
    verbose: bool,
)
    requires
        unit_phrase(unit, count, verbose) == unit_phrase(other_unit, other_count, verbose),
    ensures
        unit == other_unit,
        count == other_count,
{
    let text = unit_phrase(unit, count, verbose);
    let numeral = decimal(count);
    let other_numeral = decimal(other_count);
    let word = unit_label(unit, count, verbose);
    let other_word = unit_label(other_unit, other_count, verbose);
    lemma_decimal_all_digits(count);
    lemma_decimal_all_digits(other_count);
    // The first space closes the numeral, so both numerals have one length.
    if numeral.len() < other_numeral.len() {
        assert(text[numeral.len() as int] == ' ');
        assert(text[numeral.len() as int] == other_numeral[numeral.len() as int]);
        assert(is_digit(other_numeral[numeral.len() as int]));
    }
    if other_numeral.len() < numeral.len() {
        assert(text[other_numeral.len() as int] == ' ');
        assert(text[other_numeral.len() as int] == numeral[other_numeral.len() as int]);
        assert(is_digit(numeral[other_numeral.len() as int]));
    }
    assert(numeral.len() == other_numeral.len());
    assert(numeral =~= text.subrange(0, numeral.len() as int));
    assert(other_numeral =~= text.subrange(0, numeral.len() as int));
    assert(word =~= text.subrange(numeral.len() as int + 1, text.len() as int));
    assert(other_word =~= text.subrange(numeral.len() as int + 1, text.len() as int));
    lemma_decimal_injective(count, other_count);
    lemma_label_tells_unit(unit, count, other_unit, other_count, verbose);
}

/// What is written of one unit is that unit's phrase, and only for a count
/// that is not zero.
proof fn lemma_written_of_one_unit(unit: Unit, count: nat, verbose: bool, text: Seq<char>)
    ensures
        phrase_unless_zero(unit, count, verbose).contains(text) <==> count > 0 && text
            == unit_phrase(unit, count, verbose),
{
    let written = phrase_unless_zero(unit, count, verbose);
    if count > 0 {
        assert(written[0] == unit_phrase(unit, count, verbose));
    }
}

/// A phrase is written exactly when it gives the count of a unit that is
/// not zero.
pub proof fn lemma_written_iff_nonzero(b: Breakdown, verbose: bool, unit: Unit, count: nat)
    ensures
        phrases_of(b, verbose).contains(unit_phrase(unit, count, verbose)) <==> count > 0
            && count_of(b, unit) == count,
{
    let text = unit_phrase(unit, count, verbose);
    let days = phrase_unless_zero(Unit::Day, b.days, verbose);
    let hours = phrase_unless_zero(Unit::Hour, b.hours, verbose);
    let minutes = phrase_unless_zero(Unit::Minute, b.minutes, verbose);
    let seconds = phrase_unless_zero(Unit::Second, b.seconds, verbose);
    let milliseconds = phrase_unless_zero(Unit::Millisecond, b.milliseconds, verbose);
    lemma_seq_concat_contains_all_elements(days, hours, text);
    lemma_seq_concat_contains_all_elements(days + hours, minutes, text);
    lemma_seq_concat_contains_all_elements(days + hours + minutes, seconds, text);
    lemma_seq_concat_contains_all_elements(days + hours + minutes + seconds, milliseconds, text);
    lemma_written_of_one_unit(Unit::Day, b.days, verbose, text);
    lemma_written_of_one_unit(Unit::Hour, b.hours, verbose, text);
    lemma_written_of_one_unit(Unit::Minute, b.minutes, verbose, text);
    lemma_written_of_one_unit(Unit::Second, b.seconds, verbose, text);
    lemma_written_of_one_unit(Unit::Millisecond, b.milliseconds, verbose, text);
    if days.contains(text) {
        lemma_phrase_tells_unit_and_count(unit, count, Unit::Day, b.days, verbose);
    }
    if hours.contains(text) {
        lemma_phrase_tells_unit_and_count(unit, count, Unit::Hour, b.hours, verbose);
    }
    if minutes.contains(text) {
        lemma_phrase_tells_unit_and_count(unit, count, Unit::Minute, b.minutes, verbose);
    }
    if seconds.contains(text) {
        lemma_phrase_tells_unit_and_count(unit, count, Unit::Second, b.seconds, verbose);
    }
    if milliseconds.contains(text) {
        lemma_phrase_tells_unit_and_count(
            unit,
            count,
            Unit::Millisecond,
            b.milliseconds,
            verbose,
        );
    }
}

/// A unit that is zero is never written: there are as many phrases as there
/// are units that are not zero, and none of them is a count of a unit that
/// is zero. In particular no phrase counts zero of anything.
pub proof fn lemma_zero_units_left_out(b: Breakdown, verbose: bool)
    ensures
        phrases_of(b, verbose).len() == nonzero_units(b),
        forall|unit: Unit, count: nat|
            count_of(b, unit) == 0 ==> !phrases_of(b, verbose).contains(
                #[trigger] unit_phrase(unit, count, verbose),
            ),
        forall|unit: Unit| !phrases_of(b, verbose).contains(#[trigger] unit_phrase(unit, 0, verbose)),
{
    assert forall|unit: Unit, count: nat| count_of(b, unit) == 0 implies !phrases_of(
        b,
        verbose,
    ).contains(#[trigger] unit_phrase(unit, count, verbose)) by {
        lemma_written_iff_nonzero(b, verbose, unit, count);
    }
    assert forall|unit: Unit| !phrases_of(b, verbose).contains(
        #[trigger] unit_phrase(unit, 0, verbose),
    ) by {
        lemma_written_iff_nonzero(b, verbose, unit, 0);
    }
}

/// Writes the word that follows a count of `unit`.
pub fn label(unit: Unit, count: u128, verbose: bool) -> (s: String)
    ensures
        s@ == unit_label(unit, count as nat, verbose),
{
    match unit {
        Unit::Day => plural_suffix(count, "day", false),
        Unit::Hour => plural_suffix(count, "hour", false),
        Unit::Minute => if verbose {
            plural_suffix(count, "minute", false)
        } else {
            String::from_str("min ")
        },
        Unit::Second => plural_suffix(
            count,
            if verbose {
                "second"
            } else {
                "sec"
            },
            false,
        ),
        Unit::Millisecond => if verbose {
            plural_suffix(count, "millisecond", false)
        } else {
            String::from_str("ms")
        },
    }
}

/// Writes a count of one unit in words.
pub fn phrase(unit: Unit, count: u128, verbose: bool) -> (s: String)
    ensures
        s@ == unit_phrase(unit, count as nat, verbose),
{
    let mut s = decimal_string(count);
    proof {
        reveal_strlit(" ");
    }
    s.append(" ");
    let word = label(unit, count, verbose);
    s.append(word.as_str());
    s
}

/// Appends the phrase of one unit to `phrases` unless its count is zero.
fn push_unless_zero(phrases: &mut Vec<String>, unit: Unit, count: u128, verbose: bool)
    ensures
        texts(final(phrases)@) == texts(old(phrases)@) + phrase_unless_zero(
            unit,
            count as nat,
            verbose,
        ),
{
    if count > 0 {
        let text = phrase(unit, count, verbose);
        phrases.push(text);
    }
}

/// Writes one phrase for each unit of `b` that is not zero, the largest unit
/// first. A unit that is zero is left out altogether.
pub fn build_phrases(b: &UnitBreakdown, verbose: bool) -> (phrases: Vec<String>)
    ensures
        texts(phrases@) == phrases_of(b@, verbose),
{
    let mut phrases: Vec<String> = Vec::new();
    push_unless_zero(&mut phrases, Unit::Day, b.days, verbose);
    push_unless_zero(&mut phrases, Unit::Hour, b.hours, verbose);
    push_unless_zero(&mut phrases, Unit::Minute, b.minutes, verbose);
    push_unless_zero(&mut phrases, Unit::Second, b.seconds, verbose);
    push_unless_zero(&mut phrases, Unit::Millisecond, b.milliseconds, verbose);
    phrases
}

} // verus!
