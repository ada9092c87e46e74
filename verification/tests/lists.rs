use humanise::decimal::{decimal_string, push_decimal};
use humanise::list::join_phrases;
use humanise::{humanise_list, plural_suffix};

#[test]
fn plural_suffix_opposite_false() {
    assert_eq!(plural_suffix(0, "name", false), "names");
    assert_eq!(plural_suffix(1, "name", false), "name");
    assert_eq!(plural_suffix(2, "name", false), "names");
}

#[test]
fn plural_suffix_opposite_true() {
    assert_eq!(plural_suffix(0, "make", true), "make");
    assert_eq!(plural_suffix(1, "make", true), "makes");
    assert_eq!(plural_suffix(2, "make", true), "make");
}

#[test]
fn plural_suffix_nouns_and_verbs() {
    assert_eq!(plural_suffix(1, "apple", false), "apple");
    assert_eq!(plural_suffix(5, "apple", false), "apples");
    assert_eq!(plural_suffix(1, "make", true), "makes");
    assert_eq!(plural_suffix(5, "make", true), "make");
}

#[test]
fn plural_suffix_edges() {
    assert_eq!(plural_suffix(u128::MAX, "day", false), "days");
    assert_eq!(plural_suffix(1, "", false), "");
    assert_eq!(plural_suffix(2, "", false), "s");
    assert_eq!(plural_suffix(3, "box", false), "boxs");
    assert_eq!(plural_suffix(2, "caf\u{e9}", false), "caf\u{e9}s");
}

#[test]
fn humanise_list_by_length() {
    let none: [&str; 0] = [];
    assert_eq!(humanise_list(&none), "");
    assert_eq!(humanise_list(&["a"]), "a");
    assert_eq!(humanise_list(&["a", "b"]), "a and b");
    assert_eq!(humanise_list(&["a", "b", "c"]), "a, b, and c");
    assert_eq!(humanise_list(&["a", "b", "c", "d"]), "a, b, c, and d");
}

#[test]
fn humanise_list_of_fruit() {
    assert_eq!(humanise_list(&["apples"]), "apples");
    assert_eq!(humanise_list(&["apples", "bananas"]), "apples and bananas");
    assert_eq!(
        humanise_list(&["apples", "bananas", "strawberries"]),
        "apples, bananas, and strawberries"
    );
}

#[test]
fn humanise_list_displays_each_item() {
    assert_eq!(humanise_list(&[1, 2, 3]), "1, 2, and 3");
    assert_eq!(humanise_list(&['x', 'y']), "x and y");
    assert_eq!(humanise_list(&[true]), "true");
    assert_eq!(humanise_list(&vec![String::from("left"), String::from("right")]), "left and right");
}

#[test]
fn join_phrases_by_length() {
    let s = |t: &str| t.to_string();
    assert_eq!(join_phrases(&[]), "");
    assert_eq!(join_phrases(&[s("a")]), "a");
    assert_eq!(join_phrases(&[s("a"), s("b")]), "a and b");
    assert_eq!(join_phrases(&[s("a"), s("b"), s("c")]), "a, b, and c");
    assert_eq!(join_phrases(&[s("a"), s("b"), s("c"), s("d"), s("e")]), "a, b, c, d, and e");
}

#[test]
fn join_phrases_keeps_items_verbatim() {
    let s = |t: &str| t.to_string();
    assert_eq!(join_phrases(&[s("")]), "");
    assert_eq!(join_phrases(&[s(""), s("")]), " and ");
    assert_eq!(join_phrases(&[s("a, b"), s("c and d"), s("")]), "a, b, c and d, and ");
}

#[test]
fn decimal_numerals() {
    assert_eq!(decimal_string(0), "0");
    assert_eq!(decimal_string(7), "7");
    assert_eq!(decimal_string(10), "10");
    assert_eq!(decimal_string(1_234_567_890), "1234567890");
    assert_eq!(decimal_string(u128::MAX), "340282366920938463463374607431768211455");
    for n in [9u128, 99, 100, 101, 1_000_000, 18_446_744_073_709_551_616] {
        assert_eq!(decimal_string(n), n.to_string());
    }
}

#[test]
fn push_decimal_appends() {
    let mut out = String::from("n = ");
    push_decimal(&mut out, 405);
    assert_eq!(out, "n = 405");
    push_decimal(&mut out, 0);
    assert_eq!(out, "n = 4050");
}
