//! Stable sorting, and the order of texts.

use vstd::prelude::*;

use crate::text::chars_of;

verus! {

/// A value with a place in an order.
pub trait Ranked: Sized {
    /// Whether the value comes strictly before another one.
    spec fn before(self, other: Self) -> bool;

    fn is_before(&self, other: &Self) -> (result: bool)
        ensures
            result == (*self).before(*other),
    ;
}

/// Puts an item into a sorted sequence, in front of everything of equal rank.
pub open spec fn placed<T: Ranked>(item: T, items: Seq<T>) -> Seq<T>
    decreases items.len(),
{
    if items.len() > 0 && items[0].before(item) {
        seq![items[0]] + placed(item, items.drop_first())
    } else {
        seq![item] + items
    }
}

/// The items in order; items of equal rank keep their order.
pub open spec fn sorted<T: Ranked>(items: Seq<T>) -> Seq<T>
    decreases items.len(),
{
    if items.len() == 0 {
        Seq::empty()
    } else {
        placed(items[0], sorted(items.drop_first()))
    }
}

/// Whether `before` is a strict order in which unrelated values are of equal rank.
pub open spec fn is_weak_order<T: Ranked>() -> bool {
    &&& forall|a: T, b: T| #[trigger] a.before(b) ==> !b.before(a)
    &&& forall|a: T, b: T, c: T| !#[trigger] b.before(a) && !#[trigger] c.before(b) ==> !c.before(a)
}

/// Whether no item comes before one in front of it.
pub open spec fn in_order<T: Ranked>(items: Seq<T>) -> bool {
    forall|i: int, j: int| 0 <= i < j < items.len() ==> !(#[trigger] items[j]).before(#[trigger] items[i])
}

/// Placing an item adds it and nothing else.
pub proof fn lemma_placed_contents<T: Ranked>(item: T, items: Seq<T>)
    ensures
        placed(item, items).to_multiset() == items.to_multiset().insert(item),
        placed(item, items).len() == items.len() + 1,
    decreases items.len(),
{
    broadcast use vstd::seq_lib::group_to_multiset_ensures;

    if items.len() > 0 && items[0].before(item) {
        let rest = items.drop_first();
        lemma_placed_contents(item, rest);
        lemma_prepend_multiset(items[0], placed(item, rest));
        lemma_prepend_multiset(items[0], rest);
        assert(seq![items[0]] + rest =~= items);
        assert(placed(item, items).to_multiset() =~= items.to_multiset().insert(item));
    } else {
        lemma_prepend_multiset(item, items);
    }
}

proof fn lemma_prepend_multiset<T>(item: T, items: Seq<T>)
    ensures
        (seq![item] + items).to_multiset() == items.to_multiset().insert(item),
{
    vstd::seq_lib::lemma_multiset_commutative(seq![item], items);
    broadcast use vstd::seq_lib::group_to_multiset_ensures;

    assert(seq![item] =~= Seq::<T>::empty().push(item));
    assert(seq![item].to_multiset() =~= vstd::multiset::Multiset::empty().insert(item));
    assert((seq![item] + items).to_multiset() =~= items.to_multiset().insert(item));
}

/// Sorting rearranges the items.
pub proof fn lemma_sorted_contents<T: Ranked>(items: Seq<T>)
    ensures
        sorted(items).to_multiset() == items.to_multiset(),
        sorted(items).len() == items.len(),
    decreases items.len(),
{
    if items.len() > 0 {
        let rest = items.drop_first();
        lemma_sorted_contents(rest);
        lemma_placed_contents(items[0], sorted(rest));
        lemma_prepend_multiset(items[0], rest);
        assert(seq![items[0]] + rest =~= items);
    } else {
        assert(items =~= Seq::<T>::empty());
    }
}

/// Placing an item keeps the order.
pub proof fn lemma_placed_in_order<T: Ranked>(item: T, items: Seq<T>)
    requires
        is_weak_order::<T>(),
        in_order(items),
    ensures
        in_order(placed(item, items)),
        forall|k: int|
            0 <= k < placed(item, items).len() ==> (#[trigger] placed(item, items)[k] == item || (
            exists|m: int| 0 <= m < items.len() && #[trigger] items[m] == placed(item, items)[k])),
    decreases items.len(),
{
    let result = placed(item, items);
    if items.len() > 0 && items[0].before(item) {
        let rest = items.drop_first();
        assert(in_order(rest)) by {
            assert forall|i: int, j: int| 0 <= i < j < rest.len() implies !(
            #[trigger] rest[j]).before(#[trigger] rest[i]) by {
                assert(rest[j] == items[j + 1] && rest[i] == items[i + 1]);
            }
        }
        lemma_placed_in_order(item, rest);
        let tail = placed(item, rest);
        assert forall|i: int, j: int| 0 <= i < j < result.len() implies !(
        #[trigger] result[j]).before(#[trigger] result[i]) by {
            assert(result[j] == tail[j - 1]);
            if i == 0 {
                if tail[j - 1] == item {
                    assert(items[0].before(item));
                } else {
                    let m = choose|m: int| 0 <= m < rest.len() && #[trigger] rest[m] == tail[j - 1];
                    assert(rest[m] == items[m + 1]);
                }
            } else {
                assert(result[i] == tail[i - 1]);
            }
        }
        assert forall|k: int| 0 <= k < result.len() implies (#[trigger] result[k] == item || (
        exists|m: int| 0 <= m < items.len() && #[trigger] items[m] == result[k])) by {
            if k == 0 {
                assert(items[0] == result[0]);
            } else {
                assert(result[k] == tail[k - 1]);
                if tail[k - 1] != item {
                    let m = choose|m: int| 0 <= m < rest.len() && #[trigger] rest[m] == tail[k - 1];
                    assert(items[m + 1] == result[k]);
                }
            }
        }
    } else {
        assert forall|i: int, j: int| 0 <= i < j < result.len() implies !(
        #[trigger] result[j]).before(#[trigger] result[i]) by {
            assert(result[j] == items[j - 1]);
            if i == 0 {
                assert(!items[0].before(item));
                if j > 1 {
                    assert(!items[j - 1].before(items[0]));
                }
            } else {
                assert(result[i] == items[i - 1]);
            }
        }
        assert forall|k: int| 0 <= k < result.len() implies (#[trigger] result[k] == item || (
        exists|m: int| 0 <= m < items.len() && #[trigger] items[m] == result[k])) by {
            if k > 0 {
                assert(items[k - 1] == result[k]);
            }
        }
    }
}

/// Sorting puts the items in order.
pub proof fn lemma_sorted_in_order<T: Ranked>(items: Seq<T>)
    requires
        is_weak_order::<T>(),
    ensures
        in_order(sorted(items)),
    decreases items.len(),
{
    if items.len() > 0 {
        lemma_sorted_in_order(items.drop_first());
        lemma_placed_in_order(items[0], sorted(items.drop_first()));
    }
}

fn place<T: Ranked>(items: &mut Vec<T>, item: T)
    ensures
        final(items)@ == placed(item, old(items)@),
{
    let mut position: usize = 0;
    assert(items@.skip(0) =~= items@);
    assert(items@.take(0) + placed(item, items@) =~= placed(item, items@));
    while position < items.len() && items[position].is_before(&item)
        invariant
            position <= items@.len(),
            items@.take(position as int) + placed(item, items@.skip(position as int)) == placed(
                item,
                items@,
            ),
        decreases items@.len() - position,
    {
        let ghost rest = items@.skip(position as int);
        assert(rest.drop_first() =~= items@.skip(position + 1));
        assert(items@.take(position as int) + (seq![rest[0]] + placed(item, rest.drop_first()))
            =~= items@.take(position + 1) + placed(item, items@.skip(position + 1)));
        position += 1;
    }
    assert(items@.take(position as int) + (seq![item] + items@.skip(position as int))
        =~= items@.insert(position as int, item));
    items.insert(position, item);
}

/// Sorts items, keeping the order of those of equal rank.
pub fn sort<T: Ranked>(items: Vec<T>) -> (result: Vec<T>)
    ensures
        result@ == sorted(items@),
{
    let ghost all = items@;
    let mut rest = items;
    let mut result: Vec<T> = Vec::new();
    assert(all.skip(all.len() as int) =~= Seq::<T>::empty());
    while rest.len() > 0
        invariant
            rest@.len() <= all.len(),
            rest@ == all.take(rest@.len() as int),
            result@ == sorted(all.skip(rest@.len() as int)),
        decreases rest@.len(),
    {
        let ghost length = rest@.len();
        assert(all.skip(length - 1).drop_first() =~= all.skip(length as int));
        match rest.pop() {
            Some(item) => {
                assert(item == all[length - 1]);
                place(&mut result, item);
            },
            None => {},
        }
        assert(rest@ =~= all.take(length - 1));
    }
    assert(all.skip(0) =~= all);
    result
}

/// Whether a text comes before another one, character by character.
pub open spec fn text_before(left: Seq<char>, right: Seq<char>) -> bool
    decreases left.len(),
{
    if right.len() == 0 {
        false
    } else if left.len() == 0 {
        true
    } else if left[0] != right[0] {
        (left[0] as int) < (right[0] as int)
    } else {
        text_before(left.drop_first(), right.drop_first())
    }
}

/// The order of texts is total.
pub proof fn lemma_text_order(left: Seq<char>, right: Seq<char>)
    ensures
        text_before(left, right) ==> !text_before(right, left),
        !text_before(left, right) && !text_before(right, left) ==> left == right,
        left == right ==> !text_before(left, right),
    decreases left.len(),
{
    if left.len() > 0 && right.len() > 0 && left[0] == right[0] {
        lemma_text_order(left.drop_first(), right.drop_first());
        if left.drop_first() == right.drop_first() {
            assert(left =~= seq![left[0]] + left.drop_first());
            assert(right =~= seq![right[0]] + right.drop_first());
        }
    } else if left.len() == 0 && right.len() == 0 {
        assert(left =~= right);
    }
}

/// The order of texts is transitive.
pub proof fn lemma_text_transitive(a: Seq<char>, b: Seq<char>, c: Seq<char>)
    requires
        text_before(a, b),
        text_before(b, c),
    ensures
        text_before(a, c),
    decreases a.len(),
{
    if a.len() > 0 && b.len() > 0 && c.len() > 0 && a[0] == b[0] && b[0] == c[0] {
        lemma_text_transitive(a.drop_first(), b.drop_first(), c.drop_first());
    }
}

fn char_before(left: char, right: char) -> (result: bool)
    ensures
        result == ((left as int) < (right as int)),
{
    (left as u32) < (right as u32)
}

pub fn comes_before(left: &str, right: &str) -> (result: bool)
    ensures
        result == text_before(left@, right@),
{
    let a = chars_of(left);
    let b = chars_of(right);
    let mut i: usize = 0;
    assert(a@.skip(0) =~= a@);
    assert(b@.skip(0) =~= b@);
    while i < a.len() && i < b.len() && a[i] == b[i]
        invariant
            i <= a@.len(),
            i <= b@.len(),
            a@ == left@,
            b@ == right@,
            text_before(left@, right@) == text_before(a@.skip(i as int), b@.skip(i as int)),
        decreases a@.len() - i,
    {
        assert(a@.skip(i as int).drop_first() =~= a@.skip(i + 1));
        assert(b@.skip(i as int).drop_first() =~= b@.skip(i + 1));
        i += 1;
    }
    if i == b.len() {
        false
    } else if i == a.len() {
        true
    } else {
        char_before(a[i], b[i])
    }
}

/// The order of optional texts: an absent one comes first.
pub open spec fn option_before(left: Option<Seq<char>>, right: Option<Seq<char>>) -> bool {
    match (left, right) {
        (None, Some(_)) => true,
        (Some(left), Some(right)) => text_before(left, right),
        _ => false,
    }
}

pub fn option_comes_before(left: &Option<String>, right: &Option<String>) -> (result: bool)
    ensures
        result == option_before(
            crate::text::option_view(*left),
            crate::text::option_view(*right),
        ),
{
    match (left, right) {
        (None, Some(_)) => true,
        (Some(left), Some(right)) => comes_before(left.as_str(), right.as_str()),
        _ => false,
    }
}

/// The order of optional texts is a strict total order.
pub proof fn lemma_option_order(a: Option<Seq<char>>, b: Option<Seq<char>>, c: Option<Seq<char>>)
    ensures
        option_before(a, b) ==> !option_before(b, a),
        !option_before(a, b) && !option_before(b, a) ==> a == b,
        option_before(a, b) && option_before(b, c) ==> option_before(a, c),
{
    match (a, b, c) {
        (Some(x), Some(y), Some(z)) => {
            lemma_text_order(x, y);
            if text_before(x, y) && text_before(y, z) {
                lemma_text_transitive(x, y, z);
            }
        },
        (Some(x), Some(y), None) => {
            lemma_text_order(x, y);
        },
        _ => {},
    }
}

/// Texts are ordered by their first difference, and a beginning comes before the whole; what
/// has no name comes before what has one.
pub proof fn law_texts_are_ordered_by_their_first_difference(
    common: Seq<char>,
    left: Seq<char>,
    right: Seq<char>,
)
    requires
        left.len() > 0,
        right.len() > 0,
        left[0] != right[0],
    ensures
        text_before(common + left, common + right) <==> (left[0] as int) < (right[0] as int),
        text_before(common, common + left),
        !text_before(common + left, common),
        option_before(None, Some(left)),
        !option_before(Some(left), None),
        option_before(Some(left), Some(right)) == text_before(left, right),
    decreases common.len(),
{
    if common.len() > 0 {
        let rest = common.drop_first();
        law_texts_are_ordered_by_their_first_difference(rest, left, right);
        assert((common + left).drop_first() =~= rest + left);
        assert((common + right).drop_first() =~= rest + right);
        assert((common + left)[0] == common[0] && (common + right)[0] == common[0]);
    } else {
        assert(common + left =~= left);
        assert(common + right =~= right);
    }
}

/// Sorting keeps every item, puts none before one that comes before it, and leaves what is
/// in order as it is.
pub proof fn law_sorting_orders_the_items<T: Ranked>(items: Seq<T>)
    requires
        is_weak_order::<T>(),
    ensures
        sorted(items).to_multiset() == items.to_multiset(),
        sorted(items).len() == items.len(),
        in_order(sorted(items)),
        in_order(items) ==> sorted(items) == items,
    decreases items.len(),
{
    lemma_sorted_contents(items);
    lemma_sorted_in_order(items);
    if in_order(items) {
        if items.len() > 0 {
            let rest = items.drop_first();
            assert(in_order(rest)) by {
                assert forall|i: int, j: int| 0 <= i < j < rest.len() implies !(
                #[trigger] rest[j]).before(#[trigger] rest[i]) by {
                    assert(!items[j + 1].before(items[i + 1]));
                }
            }
            law_sorting_orders_the_items(rest);
            if rest.len() > 0 {
                assert(rest[0] == items[1]);
                assert(!items[1].before(items[0]));
            }
            assert(seq![items[0]] + rest =~= items);
        } else {
            assert(sorted(items) =~= items);
        }
    }
}

} // verus!
