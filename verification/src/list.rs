//! English lists with a serial comma.

use std::fmt::Display;
use vstd::prelude::*;
use vstd::string::to_string_from_display_ensures;

verus! {

/// The items written one after another with `", "` between neighbours.
pub open spec fn comma_separated(items: Seq<Seq<char>>) -> Seq<char>
    decreases items.len(),
{
    if items.len() == 0 {
        Seq::empty()
    } else if items.len() == 1 {
        items[0]
    } else {
        comma_separated(items.drop_last()) + ", "@ + items.last()
    }
}

/// The items as an English list.
///
/// Nothing for no item, the item itself for one, `A and B` for two, and for
/// three or more `A, B, ..., and Z`: commas throughout, and a serial comma
/// before the closing `and`.
pub open spec fn serial_list(items: Seq<Seq<char>>) -> Seq<char> {
    if items.len() == 0 {
        Seq::empty()
    } else if items.len() == 1 {
        items[0]
    } else if items.len() == 2 {
        items[0] + " and "@ + items[1]
    } else {
        comma_separated(items.drop_last()) + ", and "@ + items.last()
    }
}

/// The text of each string of `items`.
pub open spec fn texts(items: Seq<String>) -> Seq<Seq<char>> {
    items.map_values(|s: String| s@)
}

/// Joins phrases into an English list with a serial comma.
pub fn join_phrases(phrases: &[String]) -> (s: String)
    ensures
        s@ == serial_list(texts(phrases@)),
{
    let n = phrases.len();
    let ghost items = texts(phrases@);
    let mut s = String::new();
    if n == 0 {
        return s;
    }
    s.append(phrases[0].as_str());
    if n == 1 {
        return s;
    }
    if n == 2 {
        s.append(" and ");
        s.append(phrases[1].as_str());
        return s;
    }
    let mut i: usize = 1;
    while i < n - 1
        invariant
            n == phrases@.len(),
            items == texts(phrases@),
            n >= 3,
            1 <= i <= n - 1,
            s@ == comma_separated(items.take(i as int)),
        decreases n - i,
    {
        s.append(", ");
        s.append(phrases[i].as_str());
        assert(items.take(i + 1).drop_last() =~= items.take(i as int));
        i = i + 1;
    }
    s.append(", and ");
    s.append(phrases[n - 1].as_str());
    assert(items.take(n - 1) =~= items.drop_last());
    s
}

/// The list is a function of its items alone, and of their order: equal
/// sequences of phrases are joined to equal texts.
pub proof fn lemma_serial_list_deterministic(items: Seq<Seq<char>>, other: Seq<Seq<char>>)
    requires
        items.len() == other.len(),
        forall|i: int| 0 <= i < items.len() ==> items[i] == other[i],
    ensures
        serial_list(items) == serial_list(other),
{
    assert(items =~= other);
}

/// `shown` holds, item for item, a string that displaying the item of
/// `items` at the same place gave.
pub open spec fn displayed_as<T: Display>(items: Seq<T>, shown: Seq<String>) -> bool {
    &&& shown.len() == items.len()
    &&& forall|i: int|
        0 <= i < items.len() ==> #[trigger] to_string_from_display_ensures(&items[i], shown[i])
}

/// Humanises a list of anything that can be displayed.
///
/// Each item is displayed once, in order, and the texts are joined as
/// [`join_phrases`] joins them. What an item displays as is the item's own
/// affair; the list is exact for whatever came back.
pub fn humanise_list<T: Display>(list: &[T]) -> (s: String)
    ensures
        exists|shown: Seq<String>|
            displayed_as(list@, shown) && s@ == serial_list(#[trigger] texts(shown)),
{
    let mut shown: Vec<String> = Vec::new();
    let mut i: usize = 0;
    while i < list.len()
        invariant
            i <= list@.len(),
            displayed_as(list@.take(i as int), shown@),
        decreases list@.len() - i,
    {
        let text = list[i].to_string();
        shown.push(text);
        i = i + 1;
    }
    assert(list@.take(i as int) =~= list@);
    join_phrases(shown.as_slice())
}

} // verus!
