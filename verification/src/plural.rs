//! Plural suffixes for nouns and verbs.

use vstd::prelude::*;

verus! {

/// Whether a word counted `count` times takes the suffix `s`.
///
/// A noun (`opposite == false`) takes it unless there is exactly one; a verb
/// (`opposite == true`) takes it only when its subject is exactly one.
pub open spec fn takes_suffix(count: nat, opposite: bool) -> bool {
    (count == 1) == opposite
}

/// `word`, followed by `s` where [`takes_suffix`] says so.
pub open spec fn pluralised(count: nat, word: Seq<char>, opposite: bool) -> Seq<char> {
    if takes_suffix(count, opposite) {
        word.push('s')
    } else {
        word
    }
}

/// The result is a function of the count, the word and the flag alone:
/// equal inputs give equal words.
pub proof fn lemma_pluralised_deterministic(
    count: nat,
    word: Seq<char>,
    opposite: bool,
    other_count: nat,
    other_word: Seq<char>,
    other_opposite: bool,
)
    requires
        count == other_count,
        word == other_word,
        opposite == other_opposite,
    ensures
        pluralised(count, word, opposite) == pluralised(other_count, other_word, other_opposite),
{
}

/// Adds a plural suffix to `word` if there is supposed to be one.
///
/// With `opposite` unset the suffix `s` is added unless `count` is 1, which
/// suits nouns ("1 apple", "5 apples"). With `opposite` set it is added only
/// when `count` is 1, which suits verbs ("one machine makes", "five machines
/// make"). The word is never altered otherwise: irregular plurals are the
/// caller's business.
pub fn plural_suffix(count: u128, word: &str, opposite: bool) -> (s: String)
    ensures
        s@ == pluralised(count as nat, word@, opposite),
{
    let mut s = String::from_str(word);
    if (count == 1) == opposite {
        proof {
            reveal_strlit("s");
        }
        s.append("s");
    }
    s
}

} // verus!
