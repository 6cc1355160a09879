//! Strings: equality, order, and ordered sets of them.

use rustfs_operator::text::{comes_before, list_holds, ordered_set, same_list, same_text};

fn list(items: &[&str]) -> Vec<String> {
    items.iter().map(|s| s.to_string()).collect()
}

#[test]
fn texts_are_the_same_character_by_character() {
    assert!(same_text("", ""));
    assert!(same_text("h\u{e9}", "h\u{e9}"));
    assert!(!same_text("a", "A"));
    assert!(!same_text("a", "ab"));
}

#[test]
fn lists_hold_what_is_in_them() {
    assert!(list_holds(&list(&["a", "b"]), "b"));
    assert!(!list_holds(&list(&["a", "b"]), "c"));
    assert!(!list_holds(&list(&[]), ""));
}

#[test]
fn lists_are_the_same_item_by_item() {
    assert!(same_list(&list(&["a", "b"]), &list(&["a", "b"])));
    assert!(!same_list(&list(&["a", "b"]), &list(&["b", "a"])));
    assert!(!same_list(&list(&["a"]), &list(&["a", "a"])));
    assert!(same_list(&list(&[]), &list(&[])));
}

#[test]
fn order_is_that_of_str() {
    let words = ["", "A", "a", "aa", "ab", "b", "z", "\u{e9}", "\u{10000}", "\u{ffff}"];
    for a in words {
        for b in words {
            assert_eq!(comes_before(a, b), a < b, "{a:?} {b:?}");
        }
    }
}

#[test]
fn sets_are_in_order_and_without_repetition() {
    assert_eq!(
        ordered_set(&list(&["b", "a", "c", "a", "b"])),
        list(&["a", "b", "c"])
    );
    assert_eq!(ordered_set(&list(&[])), list(&[]));
    // the same members in another order make the same list
    assert_eq!(
        ordered_set(&list(&["x", "y", "x"])),
        ordered_set(&list(&["y", "x"]))
    );
}
