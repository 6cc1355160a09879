//! Strings: equality, order, and ordered sets of them.

use vstd::prelude::*;

verus! {

/// Whether two strings hold the same characters.
pub fn same_text(a: &str, b: &str) -> (same: bool)
    ensures
        same == (a@ == b@),
{
    a.to_owned() == b.to_owned()
}

/// Whether a list holds a string.
pub fn list_holds(list: &Vec<String>, text: &str) -> (holds: bool)
    ensures
        holds == list.deep_view().contains(text@),
{
    for i in 0..list.len()
        invariant
            forall|j: int| 0 <= j < i ==> list.deep_view()[j] != text@,
    {
        if same_text(list[i].as_str(), text) {
            assert(list.deep_view()[i as int] == text@);
            return true;
        }
        assert(list.deep_view()[i as int] != text@);
    }
    false
}

/// Whether two lists hold the same strings in the same order.
pub fn same_list(a: &Vec<String>, b: &Vec<String>) -> (same: bool)
    ensures
        same == (a.deep_view() == b.deep_view()),
{
    if a.len() != b.len() {
        assert(a.deep_view().len() != b.deep_view().len());
        return false;
    }
    for i in 0..a.len()
        invariant
            a.len() == b.len(),
            forall|j: int| 0 <= j < i ==> a.deep_view()[j] == b.deep_view()[j],
    {
        if a[i] != b[i] {
            assert(a.deep_view()[i as int] != b.deep_view()[i as int]);
            return false;
        }
        assert(a.deep_view()[i as int] == b.deep_view()[i as int]);
    }
    assert(a.deep_view() =~= b.deep_view());
    true
}

/// The lexicographic order of strings by code point.
pub open spec fn precedes(a: Seq<char>, b: Seq<char>) -> bool
    decreases a.len(),
{
    &&& b.len() > 0
    &&& a.len() > 0 ==> {
        ||| a[0] < b[0]
        ||| a[0] == b[0] && precedes(a.drop_first(), b.drop_first())
    }
}

/// A list of strings in strictly ascending order.
pub open spec fn ascending(list: Seq<Seq<char>>) -> bool {
    forall|i: int, j: int| 0 <= i < j < list.len() ==> #[trigger] precedes(list[i], list[j])
}

/// The members of a set of strings, each once, in ascending order.
pub open spec fn in_order(set: Set<Seq<char>>) -> Seq<Seq<char>> {
    choose|list: Seq<Seq<char>>| #[trigger] ascending(list) && list.to_set() == set
}

/// No string precedes itself.
pub proof fn precedes_is_irreflexive(a: Seq<char>)
    ensures
        !precedes(a, a),
    decreases a.len(),
{
    if a.len() > 0 {
        precedes_is_irreflexive(a.drop_first());
    }
}

/// The order of strings is transitive.
pub proof fn precedes_is_transitive(a: Seq<char>, b: Seq<char>, c: Seq<char>)
    requires
        precedes(a, b),
        precedes(b, c),
    ensures
        precedes(a, c),
    decreases a.len(),
{
    if a.len() > 0 && a[0] == b[0] && b[0] == c[0] {
        precedes_is_transitive(a.drop_first(), b.drop_first(), c.drop_first());
    }
}

/// Of two different strings one precedes the other.
pub proof fn precedes_is_total(a: Seq<char>, b: Seq<char>)
    requires
        a != b,
    ensures
        precedes(a, b) || precedes(b, a),
    decreases a.len(),
{
    if a.len() == 0 || b.len() == 0 {
        assert(a.len() == 0 && b.len() == 0 ==> a =~= b);
    } else if a[0] == b[0] {
        if a.drop_first() == b.drop_first() {
            assert(a =~= seq![a[0]] + a.drop_first());
            assert(b =~= seq![b[0]] + b.drop_first());
        } else {
            precedes_is_total(a.drop_first(), b.drop_first());
        }
    }
}

/// Two strings are ordered by the first place where they differ: by the
/// characters there, or by which of them ends there.
pub proof fn the_first_difference_decides(a: Seq<char>, b: Seq<char>, i: int)
    requires
        0 <= i <= a.len(),
        i <= b.len(),
        a.take(i) == b.take(i),
        i < a.len() && i < b.len() ==> a[i] != b[i],
    ensures
        precedes(a, b) <==> i < b.len() && (i == a.len() || a[i] < b[i]),
    decreases i,
{
    if i > 0 {
        assert(a[0] == a.take(i)[0]);
        assert(b[0] == b.take(i)[0]);
        assert(a.drop_first().take(i - 1) =~= a.take(i).drop_first());
        assert(b.drop_first().take(i - 1) =~= b.take(i).drop_first());
        the_first_difference_decides(a.drop_first(), b.drop_first(), i - 1);
    }
}

/// An ascending list is determined by the strings in it: there is no second
/// ascending list of the same strings.
pub proof fn ascending_list_is_unique(a: Seq<Seq<char>>, b: Seq<Seq<char>>)
    requires
        ascending(a),
        ascending(b),
        a.to_set() == b.to_set(),
    ensures
        a == b,
    decreases a.len(),
{
    if a.len() == 0 || b.len() == 0 {
        if a.len() > 0 {
            assert(a.to_set().contains(a[0]));
            assert(b.contains(a[0]));
        }
        if b.len() > 0 {
            assert(b.to_set().contains(b[0]));
            assert(a.contains(b[0]));
        }
        assert(a =~= b);
    } else {
        lemma_same_last(a, b);
        assert forall|s: Seq<char>| a.drop_last().to_set().contains(s)
            == b.drop_last().to_set().contains(s) by {
            lemma_without_last(a, s);
            lemma_without_last(b, s);
        }
        assert(a.drop_last().to_set() =~= b.drop_last().to_set());
        ascending_list_is_unique(a.drop_last(), b.drop_last());
        assert(a =~= a.drop_last().push(a.last()));
        assert(b =~= b.drop_last().push(b.last()));
    }
}

/// Two non-empty ascending lists of the same strings end alike.
proof fn lemma_same_last(a: Seq<Seq<char>>, b: Seq<Seq<char>>)
    requires
        ascending(a),
        ascending(b),
        a.to_set() == b.to_set(),
        a.len() > 0,
        b.len() > 0,
    ensures
        a.last() == b.last(),
{
    assert(a.to_set().contains(a.last()));
    assert(b.to_set().contains(b.last()));
    let i = choose|i: int| 0 <= i < b.len() && b[i] == a.last();
    let j = choose|j: int| 0 <= j < a.len() && a[j] == b.last();
    if a.last() != b.last() {
        assert(precedes(b[i], b[b.len() - 1]));
        assert(precedes(a[j], a[a.len() - 1]));
        precedes_is_transitive(a.last(), b.last(), a.last());
        precedes_is_irreflexive(a.last());
    }
}

/// Dropping the last string of an ascending list takes just that string out.
proof fn lemma_without_last(a: Seq<Seq<char>>, s: Seq<char>)
    requires
        ascending(a),
        a.len() > 0,
    ensures
        a.drop_last().to_set().contains(s) == (a.to_set().contains(s) && s != a.last()),
{
    let front = a.drop_last();
    if front.contains(s) {
        let i = choose|i: int| 0 <= i < front.len() && front[i] == s;
        assert(a[i] == s);
        assert(precedes(a[i], a[a.len() - 1]));
        precedes_is_irreflexive(s);
    }
    if a.contains(s) && s != a.last() {
        let i = choose|i: int| 0 <= i < a.len() && a[i] == s;
        assert(front[i] == s);
    }
}

/// Putting a string into its place keeps an ascending list ascending.
proof fn lemma_insertion(before: Seq<Seq<char>>, at: int, item: Seq<char>)
    requires
        ascending(before),
        0 <= at <= before.len(),
        forall|j: int| 0 <= j < at ==> #[trigger] precedes(before[j], item),
        at < before.len() ==> before[at] != item && !precedes(before[at], item),
    ensures
        ascending(before.insert(at, item)),
        before.insert(at, item).to_set() == before.to_set().insert(item),
{
    let after = before.insert(at, item);
    assert forall|i: int, j: int| 0 <= i < j < after.len() implies #[trigger] precedes(
        after[i],
        after[j],
    ) by {
        if at < before.len() {
            precedes_is_total(before[at], item);
        }
        if i == at {
            if j - 1 > at {
                assert(precedes(before[at], before[j - 1]));
                precedes_is_transitive(item, before[at], before[j - 1]);
            }
        } else if i < at && j == at {
            assert(precedes(before[i], item));
        } else {
            let k = if i < at { i } else { i - 1 };
            let l = if j < at { j } else { j - 1 };
            assert(precedes(before[k], before[l]));
        }
    }
    assert forall|s: Seq<char>| after.to_set().contains(s) == before.to_set().insert(
        item,
    ).contains(s) by {
        if before.contains(s) {
            let k = choose|k: int| 0 <= k < before.len() && before[k] == s;
            assert(after[if k < at { k } else { k + 1 }] == s);
        }
        assert(after[at] == item);
        if after.contains(s) {
            let k = choose|k: int| 0 <= k < after.len() && after[k] == s;
            if k != at {
                assert(before[if k < at { k } else { k - 1 }] == s);
            }
        }
    }
    assert(after.to_set() =~= before.to_set().insert(item));
}

/// How many strings of an ascending list come before a string, from the start.
spec fn place(list: Seq<Seq<char>>, item: Seq<char>) -> int
    decreases list.len(),
{
    if list.len() > 0 && precedes(list[0], item) {
        1 + place(list.drop_first(), item)
    } else {
        0
    }
}

proof fn lemma_place(list: Seq<Seq<char>>, item: Seq<char>)
    ensures
        0 <= place(list, item) <= list.len(),
        forall|j: int| 0 <= j < place(list, item) ==> #[trigger] precedes(list[j], item),
        place(list, item) < list.len() ==> !precedes(list[place(list, item)], item),
    decreases list.len(),
{
    if list.len() > 0 && precedes(list[0], item) {
        let rest = list.drop_first();
        lemma_place(rest, item);
        assert forall|j: int| 0 <= j < place(list, item) implies #[trigger] precedes(
            list[j],
            item,
        ) by {
            if j > 0 {
                assert(precedes(rest[j - 1], item));
            }
        }
    }
}

/// The strings of any list can be put in order.
pub proof fn any_list_can_be_put_in_order(list: Seq<Seq<char>>)
    ensures
        ascending(in_order(list.to_set())),
        in_order(list.to_set()).to_set() == list.to_set(),
    decreases list.len(),
{
    if list.len() == 0 {
        assert(ascending(list));
    } else {
        let front = list.drop_last();
        let item = list.last();
        let ordered = in_order(front.to_set());
        any_list_can_be_put_in_order(front);
        assert(list =~= front.push(item));
        front.lemma_push_to_set_commute(item);
        let at = place(ordered, item);
        lemma_place(ordered, item);
        if at < ordered.len() && ordered[at] == item {
            assert(ordered.to_set().contains(item));
            assert(front.to_set().insert(item) =~= front.to_set());
        } else {
            lemma_insertion(ordered, at, item);
            assert(ascending(ordered.insert(at, item)));
        }
    }
}

/// The characters of a string.
fn characters(s: &str) -> (chars: Vec<char>)
    ensures
        chars@ == s@,
{
    let mut chars: Vec<char> = Vec::new();
    for c in iter: s.chars()
        invariant
            iter.seq() == s@,
            chars@ == s@.take(iter.index()),
    {
        chars.push(c);
    }
    assert(s@.take(s@.len() as int) == s@);
    chars
}

/// Whether `a` comes before `b` in the lexicographic order by code point.
pub fn comes_before(a: &str, b: &str) -> (before: bool)
    ensures
        before == precedes(a@, b@),
{
    let left = characters(a);
    let right = characters(b);
    let mut i: usize = 0;
    assert(a@.skip(0) =~= a@ && b@.skip(0) =~= b@);
    while i < left.len() && i < right.len() && left[i] == right[i]
        invariant
            left@ == a@,
            right@ == b@,
            i <= left.len(),
            i <= right.len(),
            precedes(a@, b@) == precedes(a@.skip(i as int), b@.skip(i as int)),
        decreases left.len() - i,
    {
        assert(a@.skip(i as int).drop_first() =~= a@.skip(i + 1));
        assert(b@.skip(i as int).drop_first() =~= b@.skip(i + 1));
        i += 1;
    }
    if i >= right.len() {
        false
    } else if i >= left.len() {
        true
    } else {
        left[i] < right[i]
    }
}

/// The strings of a list, each once, in ascending order.
pub fn ordered_set(items: &Vec<String>) -> (list: Vec<String>)
    ensures
        list.deep_view() == in_order(items.deep_view().to_set()),
        ascending(list.deep_view()),
        list.deep_view().to_set() == items.deep_view().to_set(),
{
    let mut list: Vec<String> = Vec::new();
    assert(list.deep_view().to_set() =~= items.deep_view().take(0).to_set());
    for i in 0..items.len()
        invariant
            ascending(list.deep_view()),
            list.deep_view().to_set() == items.deep_view().take(i as int).to_set(),
    {
        let ghost before = list.deep_view();
        let ghost item = items.deep_view()[i as int];
        insert_in_order(&mut list, &items[i]);
        proof {
            let seen = items.deep_view().take(i as int);
            assert(items.deep_view().take(i + 1) =~= seen.push(item));
            assert(seen.push(item).to_set() =~= seen.to_set().insert(item)) by {
                seen.lemma_push_to_set_commute(item);
            }
        }
    }
    proof {
        assert(items.deep_view().take(items.len() as int) =~= items.deep_view());
        ascending_list_is_unique(list.deep_view(), in_order(items.deep_view().to_set()));
    }
    list
}

/// Puts a string into its place in an ascending list, unless it is there.
fn insert_in_order(list: &mut Vec<String>, item: &String)
    requires
        ascending(old(list).deep_view()),
    ensures
        ascending(final(list).deep_view()),
        final(list).deep_view().to_set() == old(list).deep_view().to_set().insert(item@),
{
    let ghost before = list.deep_view();
    let mut at: usize = 0;
    while at < list.len() && comes_before(list[at].as_str(), item.as_str())
        invariant
            list.deep_view() == before,
            at <= list.len(),
            forall|j: int| 0 <= j < at ==> #[trigger] precedes(before[j], item@),
        decreases list.len() - at,
    {
        at += 1;
    }
    if at < list.len() && list[at] == *item {
        assert(before[at as int] == item@);
        assert(before.to_set().insert(item@) =~= before.to_set());
        return;
    }
    list.insert(at, item.clone());
    proof {
        assert(list.deep_view() =~= before.insert(at as int, item@));
        lemma_insertion(before, at as int, item@);
    }
}

} // verus!
