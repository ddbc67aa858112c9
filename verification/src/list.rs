//! Shapes of passes over lists: the views of a list, the first item that meets
//! a condition, and a pass that stops at its first failure.

use vstd::prelude::*;

verus! {

/// The views of a list.
pub open spec fn views<T: View>(items: Seq<T>) -> Seq<T::V> {
    items.map_values(|item: T| item@)
}

/// The position of the first item that meets a condition.
pub open spec fn first_where<T>(items: Seq<T>, condition: spec_fn(T) -> bool) -> Option<int>
    decreases items.len(),
{
    if items.len() == 0 {
        None
    } else {
        match first_where(items.drop_last(), condition) {
            Some(at) => Some(at),
            None => if condition(items.last()) {
                Some(items.len() - 1)
            } else {
                None
            },
        }
    }
}

/// The position that is found meets the condition, and no position in front of
/// it does.
pub proof fn lemma_first_where<T>(items: Seq<T>, condition: spec_fn(T) -> bool)
    ensures
        match first_where(items, condition) {
            Some(at) => {
                &&& 0 <= at < items.len()
                &&& condition(items[at])
                &&& forall|i: int| 0 <= i < at ==> !condition(#[trigger] items[i])
            },
            None => forall|i: int| 0 <= i < items.len() ==> !condition(#[trigger] items[i]),
        },
    decreases items.len(),
{
    if items.len() > 0 {
        let lead = items.drop_last();
        lemma_first_where(lead, condition);
        assert forall|i: int| 0 <= i < lead.len() implies #[trigger] items[i] == lead[i] by {
        }
    }
}

/// Nothing but a position that meets the condition behind positions that do not
/// is the first one.
pub proof fn lemma_first_where_is<T>(items: Seq<T>, condition: spec_fn(T) -> bool, at: int)
    requires
        0 <= at < items.len(),
        condition(items[at]),
        forall|i: int| 0 <= i < at ==> !condition(#[trigger] items[i]),
    ensures
        first_where(items, condition) == Some(at),
{
    lemma_first_where(items, condition);
}

/// The results of `item(0)` to `item(count - 1)`, or the first error among them.
pub open spec fn collected<T, E>(count: nat, item: spec_fn(int) -> Result<T, E>) -> Result<
    Seq<T>,
    E,
>
    decreases count,
{
    if count == 0 {
        Ok(Seq::empty())
    } else {
        match collected((count - 1) as nat, item) {
            Ok(done) => match item(count - 1) {
                Ok(value) => Ok(done.push(value)),
                Err(error) => Err(error),
            },
            Err(error) => Err(error),
        }
    }
}

/// A pass that fails within its first items fails in the same way as a whole.
pub proof fn lemma_collected_error<T, E>(count: nat, total: nat, item: spec_fn(int) -> Result<T, E>)
    requires
        count <= total,
        collected(count, item) is Err,
    ensures
        collected(total, item) is Err,
        collected(total, item)->Err_0 == collected(count, item)->Err_0,
    decreases total,
{
    if count < total {
        lemma_collected_error(count, (total - 1) as nat, item);
    }
}

/// A pass that succeeds holds the result of every item, in order.
pub proof fn lemma_collected_ok<T, E>(count: nat, item: spec_fn(int) -> Result<T, E>)
    requires
        collected(count, item) is Ok,
    ensures
        collected(count, item)->Ok_0.len() == count,
        forall|i: int|
            #![trigger collected(count, item)->Ok_0[i]]
            0 <= i < count ==> item(i) == Ok::<T, E>(collected(count, item)->Ok_0[i]),
    decreases count,
{
    if count > 0 {
        lemma_collected_ok((count - 1) as nat, item);
    }
}

/// A pass whose items all succeed gives the list of what they give.
pub proof fn lemma_collected_is<T, E>(
    count: nat,
    item: spec_fn(int) -> Result<T, E>,
    values: Seq<T>,
)
    requires
        values.len() == count,
        forall|i: int| 0 <= i < count ==> #[trigger] item(i) == Ok::<T, E>(values[i]),
    ensures
        collected(count, item) == Ok::<Seq<T>, E>(values),
    decreases count,
{
    if count > 0 {
        lemma_collected_is((count - 1) as nat, item, values.drop_last());
        assert(item(count - 1) == Ok::<T, E>(values[count - 1]));
        assert(values.drop_last().push(values[count - 1]) =~= values);
    } else {
        assert(values =~= Seq::empty());
    }
}

/// A pass that fails holds an item that failed.
pub proof fn lemma_collected_fails<T, E>(count: nat, item: spec_fn(int) -> Result<T, E>)
    requires
        collected(count, item) is Err,
    ensures
        exists|i: int| 0 <= i < count && #[trigger] item(i) is Err,
    decreases count,
{
    if collected((count - 1) as nat, item) is Err {
        lemma_collected_fails((count - 1) as nat, item);
    } else {
        assert(item(count - 1) is Err);
    }
}

/// A pass fails as the first item that fails does.
pub proof fn lemma_collected_first_failure<T, E>(
    count: nat,
    item: spec_fn(int) -> Result<T, E>,
    at: int,
)
    requires
        0 <= at < count,
        item(at) is Err,
        forall|i: int| 0 <= i < at ==> (#[trigger] item(i)) is Ok,
    ensures
        collected(count, item) == Err::<Seq<T>, E>(item(at)->Err_0),
{
    if collected(at as nat, item) is Err {
        lemma_collected_fails(at as nat, item);
    }
    lemma_collected_error((at + 1) as nat, count, item);
}

/// A pass depends on nothing but what its items give.
pub proof fn lemma_collected_agree<T, E>(
    count: nat,
    left: spec_fn(int) -> Result<T, E>,
    right: spec_fn(int) -> Result<T, E>,
)
    requires
        forall|i: int| 0 <= i < count ==> #[trigger] left(i) == right(i),
    ensures
        collected(count, left) == collected(count, right),
    decreases count,
{
    if count > 0 {
        lemma_collected_agree((count - 1) as nat, left, right);
        assert(left(count - 1) == right(count - 1));
    }
}

} // verus!
