//! Counting lemmas over subscriber slots: a slot holds the state of a live
//! subscriber's queue, or nothing once the subscriber has gone.

use vstd::prelude::*;

verus! {

/// The number of slots that hold a live subscriber.
pub open spec fn alive_count<A>(slots: Seq<Option<A>>) -> nat
    decreases slots.len(),
{
    if slots.len() == 0 {
        0
    } else {
        alive_count(slots.drop_last()) + if slots.last() is Some { 1nat } else { 0nat }
    }
}

/// `slot` is where a new subscriber goes: the first free slot, or one past
/// the end when no slot is free.
pub open spec fn is_first_free<A>(slots: Seq<Option<A>>, slot: int) -> bool {
    &&& 0 <= slot <= slots.len()
    &&& slot < slots.len() ==> slots[slot] is None
    &&& forall|j: int| 0 <= j < slot ==> #[trigger] slots[j] is Some
}

/// Two rows of slots with the same live slots count the same.
pub proof fn lemma_alive_count_same_shape<A, B>(a: Seq<Option<A>>, b: Seq<Option<B>>)
    requires
        a.len() == b.len(),
        forall|i: int| 0 <= i < a.len() ==> (#[trigger] a[i] is Some) == (b[i] is Some),
    ensures
        alive_count(a) == alive_count(b),
    decreases a.len(),
{
    if a.len() > 0 {
        lemma_alive_count_same_shape(a.drop_last(), b.drop_last());
    }
}

/// Putting a value into one slot changes the count by what left and what came.
pub proof fn lemma_alive_count_update<A>(a: Seq<Option<A>>, i: int, v: Option<A>)
    requires
        0 <= i < a.len(),
    ensures
        alive_count(a.update(i, v)) + (if a[i] is Some { 1int } else { 0int })
            == alive_count(a) + (if v is Some { 1int } else { 0int }),
    decreases a.len(),
{
    let u = a.update(i, v);
    if i == a.len() - 1 {
        assert(u.drop_last() =~= a.drop_last());
    } else {
        assert(u.drop_last() =~= a.drop_last().update(i, v));
        lemma_alive_count_update(a.drop_last(), i, v);
    }
}

/// A slot added at the end counts when it is live.
pub proof fn lemma_alive_count_push<A>(a: Seq<Option<A>>, v: Option<A>)
    ensures
        alive_count(a.push(v)) == alive_count(a) + (if v is Some { 1nat } else { 0nat }),
{
    assert(a.push(v).drop_last() =~= a);
}

/// Counting a row slot by slot: the first `i + 1` slots count what the first
/// `i` do, and one more when slot `i` is live.
pub proof fn lemma_alive_count_take<A>(a: Seq<Option<A>>, i: int)
    requires
        0 <= i < a.len(),
    ensures
        alive_count(a.take(i + 1)) == alive_count(a.take(i)) + (if a[i] is Some { 1nat } else { 0nat }),
{
    assert(a.take(i + 1).drop_last() =~= a.take(i));
}

} // verus!
