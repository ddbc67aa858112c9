//! Stable ordering of lists.

use crate::list;
use crate::text;
use vstd::prelude::*;
use vstd::seq_lib::*;

verus! {

/// `sorted` with `item` behind the last element it does not come before.
pub open spec fn inserted<T>(sorted: Seq<T>, item: T, before: spec_fn(T, T) -> bool) -> Seq<T>
    decreases sorted.len(),
{
    if sorted.len() == 0 {
        seq![item]
    } else if before(item, sorted.last()) {
        inserted(sorted.drop_last(), item, before).push(sorted.last())
    } else {
        sorted.push(item)
    }
}

/// The items in order; of items that do not come before each other, the one
/// that was first stays first.
pub open spec fn in_order<T>(items: Seq<T>, before: spec_fn(T, T) -> bool) -> Seq<T>
    decreases items.len(),
{
    if items.len() == 0 {
        items
    } else {
        inserted(in_order(items.drop_last(), before), items.last(), before)
    }
}

/// Whether no item comes before one in front of it.
pub open spec fn is_ordered<T>(items: Seq<T>, before: spec_fn(T, T) -> bool) -> bool {
    forall|i: int, j: int|
        #![trigger items[i], items[j]]
        0 <= i < j < items.len() ==> !before(items[j], items[i])
}

/// Whether `before` is a strict order in which not coming before is transitive.
pub open spec fn is_ranking<T>(before: spec_fn(T, T) -> bool) -> bool {
    &&& forall|a: T, b: T| #[trigger] before(a, b) ==> !before(b, a)
    &&& forall|a: T, b: T, c: T|
        #![trigger before(a, b), before(b, c)]
        !before(a, b) && !before(b, c) ==> !before(a, c)
}

/// A value that has a place in an order.
pub trait Ranked: View {
    /// Whether one value comes before another.
    spec fn ranks_before(left: Self::V, right: Self::V) -> bool;

    /// Whether this value comes before `other`.
    fn is_before(&self, other: &Self) -> (before: bool)
        ensures
            before == Self::ranks_before(self@, other@),
    ;
}

/// The order of a ranked type, as a function of two views.
pub open spec fn rank<T: Ranked>() -> spec_fn(T::V, T::V) -> bool {
    |left: T::V, right: T::V| T::ranks_before(left, right)
}

proof fn lemma_inserted_at<T>(sorted: Seq<T>, item: T, before: spec_fn(T, T) -> bool, at: int)
    requires
        0 <= at <= sorted.len(),
        forall|k: int| at <= k < sorted.len() ==> before(item, #[trigger] sorted[k]),
        at > 0 ==> !before(item, sorted[at - 1]),
    ensures
        inserted(sorted, item, before) == sorted.insert(at, item),
    decreases sorted.len(),
{
    if at < sorted.len() {
        lemma_inserted_at(sorted.drop_last(), item, before, at);
        assert(sorted.drop_last().insert(at, item).push(sorted.last()) =~= sorted.insert(at, item));
    } else {
        assert(sorted.push(item) =~= sorted.insert(at, item));
        if sorted.len() == 0 {
            assert(seq![item] =~= sorted.insert(at, item));
        }
    }
}

/// Orders a list, keeping the places of items that rank alike.
pub fn sort<T: Ranked>(items: Vec<T>) -> (sorted: Vec<T>)
    ensures
        list::views(sorted@) == in_order(list::views(items@), rank::<T>()),
{
    let ghost whole = items@;
    let mut rest = items;
    let mut waiting: Vec<T> = Vec::new();
    while rest.len() > 0
        invariant
            rest@ + waiting@.reverse() =~= whole,
        decreases rest@.len(),
    {
        let ghost left = rest@;
        match rest.pop() {
            Some(item) => {
                assert(left =~= rest@.push(item));
                assert(waiting@.push(item).reverse() =~= seq![item] + waiting@.reverse());
                waiting.push(item);
            },
            None => {},
        }
    }
    let mut sorted: Vec<T> = Vec::new();
    let ghost mut done: int = 0;
    proof {
        assert(waiting@.reverse() =~= whole);
        assert(list::views(whole).take(0) =~= Seq::empty());
        assert(list::views(sorted@) =~= Seq::empty());
    }
    while waiting.len() > 0
        invariant
            0 <= done,
            done + waiting@.len() == whole.len(),
            forall|k: int|
                0 <= k < waiting@.len() ==> #[trigger] waiting@[k] == whole[whole.len() - 1 - k],
            list::views(sorted@) == in_order(list::views(whole).take(done), rank::<T>()),
        decreases waiting@.len(),
    {
        match waiting.pop() {
            Some(item) => {
                let ghost before = rank::<T>();
                let mut at: usize = sorted.len();
                while at > 0 && item.is_before(&sorted[at - 1])
                    invariant
                        at <= sorted@.len(),
                        before == rank::<T>(),
                        forall|k: int|
                            at <= k < sorted@.len() ==> before(
                                item@,
                                #[trigger] list::views(sorted@)[k],
                            ),
                    decreases at,
                {
                    at = at - 1;
                }
                proof {
                    lemma_inserted_at(list::views(sorted@), item@, before, at as int);
                    assert(list::views(sorted@.insert(at as int, item)) =~= list::views(
                        sorted@,
                    ).insert(at as int, item@));
                    assert(item == whole[done]);
                    assert(list::views(whole).take(done + 1).drop_last() =~= list::views(
                        whole,
                    ).take(done));
                    assert(list::views(whole).take(done + 1).last() == item@);
                    done = done + 1;
                }
                sorted.insert(at, item);
            },
            None => {},
        }
    }
    proof {
        assert(list::views(whole).take(done) =~= list::views(whole));
    }
    sorted
}

proof fn lemma_inserted_place<T>(sorted: Seq<T>, item: T, before: spec_fn(T, T) -> bool) -> (at:
    int)
    ensures
        0 <= at <= sorted.len(),
        forall|k: int| at <= k < sorted.len() ==> before(item, #[trigger] sorted[k]),
        at > 0 ==> !before(item, sorted[at - 1]),
        inserted(sorted, item, before) == sorted.insert(at, item),
    decreases sorted.len(),
{
    if sorted.len() > 0 && before(item, sorted.last()) {
        let at = lemma_inserted_place(sorted.drop_last(), item, before);
        assert forall|k: int| at <= k < sorted.len() implies before(item, #[trigger] sorted[k]) by {
            if k < sorted.len() - 1 {
                assert(sorted[k] == sorted.drop_last()[k]);
            }
        }
        if at > 0 {
            assert(sorted[at - 1] == sorted.drop_last()[at - 1]);
        }
        lemma_inserted_at(sorted, item, before, at);
        at
    } else {
        lemma_inserted_at(sorted, item, before, sorted.len() as int);
        sorted.len() as int
    }
}

/// Ordering gives an ordered list of the same items.
pub proof fn law_in_order<T>(items: Seq<T>, before: spec_fn(T, T) -> bool)
    requires
        is_ranking(before),
    ensures
        is_ordered(in_order(items, before), before),
        in_order(items, before).to_multiset() =~= items.to_multiset(),
        in_order(items, before).len() == items.len(),
    decreases items.len(),
{
    if items.len() > 0 {
        let lead = items.drop_last();
        let item = items.last();
        law_in_order(lead, before);
        let sorted = in_order(lead, before);
        let at = lemma_inserted_place(sorted, item, before);
        let all = sorted.insert(at, item);
        assert(in_order(items, before) == all);
        assert forall|i: int, j: int| 0 <= i < j < all.len() implies !before(
            #[trigger] all[j],
            #[trigger] all[i],
        ) by {
            if j == at {
                assert(all[i] == sorted[i]);
                if i < at - 1 {
                    assert(!before(sorted[at - 1], sorted[i]));
                    assert(!before(item, sorted[at - 1]));
                }
            } else if i == at {
                assert(all[j] == sorted[j - 1]);
                assert(before(item, sorted[j - 1]));
            } else {
                let left = if i < at {
                    i
                } else {
                    i - 1
                };
                let right = if j < at {
                    j
                } else {
                    j - 1
                };
                assert(all[i] == sorted[left]);
                assert(all[j] == sorted[right]);
            }
        }
        broadcast use group_to_multiset_ensures;

        assert(items =~= lead.push(item));
    }
}

/// Items with distinct keys keep them distinct when they are ordered.
pub proof fn lemma_distinct_keys<T, K>(
    items: Seq<T>,
    before: spec_fn(T, T) -> bool,
    key: spec_fn(T) -> K,
    i: int,
    j: int,
)
    requires
        is_ranking(before),
        forall|a: int, b: int|
            #![trigger items[a], items[b]]
            0 <= a < b < items.len() ==> key(items[a]) != key(items[b]),
        0 <= i < j < in_order(items, before).len(),
    ensures
        key(in_order(items, before)[i]) != key(in_order(items, before)[j]),
    decreases items.len(),
{
    if items.len() > 0 {
        let lead = items.drop_last();
        let item = items.last();
        let sorted = in_order(lead, before);
        let at = lemma_inserted_place(sorted, item, before);
        let all = sorted.insert(at, item);
        law_in_order(lead, before);
        assert forall|k: int| 0 <= k < sorted.len() implies key(#[trigger] sorted[k]) != key(
            item,
        ) by {
            broadcast use group_to_multiset_ensures;

            assert(sorted.to_multiset().count(sorted[k]) > 0);
            assert(lead.contains(sorted[k]));
            let at = choose|at: int| 0 <= at < lead.len() && lead[at] == sorted[k];
            assert(items[at] == lead[at]);
            assert(items[items.len() - 1] == item);
        }
        assert forall|a: int, b: int|
            #![trigger lead[a], lead[b]]
            0 <= a < b < lead.len() implies key(lead[a]) != key(lead[b]) by {
            assert(items[a] == lead[a] && items[b] == lead[b]);
        }
        if i != at && j != at {
            let left = if i < at {
                i
            } else {
                i - 1
            };
            let right = if j < at {
                j
            } else {
                j - 1
            };
            assert(all[i] == sorted[left] && all[j] == sorted[right]);
            lemma_distinct_keys(lead, before, key, left, right);
        } else if i == at {
            assert(all[j] == sorted[j - 1]);
        } else {
            assert(all[i] == sorted[i]);
        }
    }
}

proof fn lemma_inserted_filter<T>(
    sorted: Seq<T>,
    item: T,
    before: spec_fn(T, T) -> bool,
    kind: spec_fn(T) -> bool,
)
    requires
        forall|a: T, b: T| kind(a) && kind(b) ==> !#[trigger] before(a, b),
    ensures
        inserted(sorted, item, before).filter(kind) == (if kind(item) {
            sorted.filter(kind).push(item)
        } else {
            sorted.filter(kind)
        }),
    decreases sorted.len(),
{
    reveal(Seq::filter);
    if sorted.len() == 0 {
        assert(seq![item].drop_last() =~= Seq::empty());
        assert(sorted =~= Seq::empty());
    } else if before(item, sorted.last()) {
        lemma_inserted_filter(sorted.drop_last(), item, before, kind);
        let lead = inserted(sorted.drop_last(), item, before);
        assert(lead.push(sorted.last()).drop_last() =~= lead);
    } else {
        assert(sorted.push(item).drop_last() =~= sorted);
    }
}

/// Ordering is stable: items that rank alike stay in the order they had.
pub proof fn law_in_order_stable<T>(
    items: Seq<T>,
    before: spec_fn(T, T) -> bool,
    kind: spec_fn(T) -> bool,
)
    requires
        forall|a: T, b: T| kind(a) && kind(b) ==> !#[trigger] before(a, b),
    ensures
        in_order(items, before).filter(kind) == items.filter(kind),
    decreases items.len(),
{
    if items.len() > 0 {
        reveal(Seq::filter);
        law_in_order_stable(items.drop_last(), before, kind);
        lemma_inserted_filter(in_order(items.drop_last(), before), items.last(), before, kind);
    }
}

/// The order of texts ranks them.
pub proof fn lemma_text_ranking()
    ensures
        is_ranking(|left: Seq<char>, right: Seq<char>| text::text_before(left, right)),
{
    let before = |left: Seq<char>, right: Seq<char>| text::text_before(left, right);
    assert forall|a: Seq<char>, b: Seq<char>| #[trigger] before(a, b) implies !before(b, a) by {
        if before(b, a) {
            text::lemma_text_before_transitive(a, b, a);
            text::lemma_text_before_irreflexive(a);
        }
    }
    assert forall|a: Seq<char>, b: Seq<char>, c: Seq<char>|
        #![trigger before(a, b), before(b, c)]
        !before(a, b) && !before(b, c) implies !before(a, c) by {
        if before(a, c) {
            text::lemma_text_before_total(b, a);
            if b != a {
                text::lemma_text_before_transitive(b, a, c);
            }
        }
    }
}

impl Ranked for String {
    open spec fn ranks_before(left: Seq<char>, right: Seq<char>) -> bool {
        text::text_before(left, right)
    }

    fn is_before(&self, other: &Self) -> (before: bool) {
        text::comes_before(self.as_str(), other.as_str())
    }
}

/// Ordering drops no item and adds none.
pub proof fn law_in_order_keeps_items<T>(items: Seq<T>, before: spec_fn(T, T) -> bool, item: T)
    requires
        is_ranking(before),
    ensures
        in_order(items, before).contains(item) <==> items.contains(item),
{
    law_in_order(items, before);
    items.to_multiset_ensures();
    in_order(items, before).to_multiset_ensures();
    assert(in_order(items, before).to_multiset().count(item) == items.to_multiset().count(item));
}

/// What is left of an ordered list is ordered.
pub proof fn lemma_filter_keeps_order<T>(
    items: Seq<T>,
    before: spec_fn(T, T) -> bool,
    wanted: spec_fn(T) -> bool,
)
    requires
        is_ordered(items, before),
    ensures
        is_ordered(items.filter(wanted), before),
    decreases items.len(),
{
    reveal(Seq::filter);
    if items.len() > 0 {
        let lead = items.drop_last();
        let kept = lead.filter(wanted);
        assert forall|i: int, j: int|
            #![trigger lead[i], lead[j]]
            0 <= i < j < lead.len() implies !before(lead[j], lead[i]) by {
            assert(items[i] == lead[i] && items[j] == lead[j]);
        }
        lemma_filter_keeps_order(lead, before, wanted);
        assert forall|i: int| 0 <= i < kept.len() implies !before(
            items.last(),
            #[trigger] kept[i],
        ) by {
            lead.lemma_filter_contains_rev(wanted, kept[i]);
            let k = choose|k: int| 0 <= k < lead.len() && lead[k] == kept[i];
            assert(items[k] == lead[k] && items[items.len() - 1] == items.last());
        }
    }
}

} // verus!
