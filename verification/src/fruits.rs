//! Puts the results of a batch of tasks in order.
use vstd::prelude::*;

use crate::error::{Result, TantivyError};

verus! {

/// The message at `k` is a failure, and the first to arrive.
pub open spec fn is_first_error<R>(messages: Seq<(usize, Result<R>)>, k: int) -> bool {
    &&& 0 <= k < messages.len()
    &&& messages[k].1 is Err
    &&& forall|j: int| 0 <= j < k ==> (#[trigger] messages[j]).1 is Ok
}

/// Some message is for position `pos`.
pub open spec fn arrived<R>(messages: Seq<(usize, Result<R>)>, pos: int) -> bool {
    exists|k: int| 0 <= k < messages.len() && (#[trigger] messages[k]).0 == pos
}

/// The value that arrived last for position `pos`, if any did.
pub open spec fn slot<R>(messages: Seq<(usize, Result<R>)>, pos: int) -> Option<R>
    decreases messages.len(),
{
    if messages.len() == 0 {
        None
    } else if messages.last().0 == pos && messages.last().1 is Ok {
        Some(messages.last().1->Ok_0)
    } else {
        slot(messages.drop_last(), pos)
    }
}

/// What is collected from `messages` when there should be `num_fruits` fruits: the first error to
/// arrive, else the fruits in the order of their positions, else the complaint that one is missing.
pub open spec fn collected<R>(
    messages: Seq<(usize, Result<R>)>,
    num_fruits: nat,
    result: Result<Vec<R>>,
) -> bool {
    if exists|k: int| is_first_error(messages, k) {
        exists|k: int|
            #[trigger] is_first_error(messages, k) && result == Result::<Vec<R>>::Err(
                messages[k].1->Err_0,
            )
    } else if forall|pos: int| 0 <= pos < num_fruits ==> slot(messages, pos) is Some {
        &&& result matches Ok(fruits)
        &&& fruits.len() == num_fruits
        &&& forall|pos: int|
            0 <= pos < num_fruits ==> slot(messages, pos) == Some(#[trigger] fruits[pos])
    } else {
        &&& result matches Err(TantivyError::InternalError(message))
        &&& message@ == "One of the mapped execution failed."@
    }
}

/// Puts the fruits in the order of their positions, from messages in the order of their arrival.
pub fn collect_fruits<R>(messages: Vec<(usize, Result<R>)>, num_fruits: usize) -> (result: Result<
    Vec<R>,
>)
    requires
        forall|k: int| 0 <= k < messages.len() ==> (#[trigger] messages[k]).0 < num_fruits,
    ensures
        collected(messages@, num_fruits as nat, result),
{
    let mut placeholders: Vec<Option<R>> = Vec::new();
    let mut n: usize = 0;
    while n < num_fruits
        invariant
            n <= num_fruits,
            placeholders.len() == n,
            forall|pos: int| 0 <= pos < n ==> placeholders[pos] is None,
        decreases num_fruits - n,
    {
        placeholders.push(None);
        n = n + 1;
    }
    let ghost all = messages@;
    let ghost mut seen: Seq<(usize, Result<R>)> = Seq::empty();
    for message in it: messages
        invariant
            it.seq() == all,
            seen == all.take(it.index()),
            placeholders.len() == num_fruits,
            forall|k: int| 0 <= k < all.len() ==> (#[trigger] all[k]).0 < num_fruits,
            forall|k: int| 0 <= k < it.index() ==> (#[trigger] all[k]).1 is Ok,
            forall|pos: int|
                0 <= pos < num_fruits ==> #[trigger] placeholders[pos] == slot(seen, pos),
    {
        let (pos, outcome) = message;
        match outcome {
            Ok(fruit) => {
                placeholders.set(pos, Some(fruit));
            },
            Err(error) => {
                assert(is_first_error(all, it.index()));
                return Err(error);
            },
        }
        proof {
            seen = all.take(it.index() + 1);
            assert(seen.drop_last() == all.take(it.index()));
        }
    }
    assert(seen == all);
    let mut fruits: Vec<R> = Vec::new();
    let ghost slots = placeholders@;
    assert(forall|pos: int| 0 <= pos < num_fruits ==> #[trigger] slot(all, pos) == slots[pos]);
    for placeholder in it: placeholders
        invariant
            it.seq() == slots,
            fruits.len() <= it.index(),
            fruits.len() == it.index() <==> forall|pos: int|
                0 <= pos < it.index() ==> #[trigger] slots[pos] is Some,
            fruits.len() == it.index() ==> forall|pos: int|
                0 <= pos < it.index() ==> slots[pos] == Some(#[trigger] fruits[pos]),
    {
        if let Some(fruit) = placeholder {
            fruits.push(fruit);
        }
    }
    if fruits.len() != num_fruits {
        return Err(TantivyError::InternalError("One of the mapped execution failed.".to_string()));
    }
    Ok(fruits)
}

/// A slot holds a value exactly when a success arrived for its position, and then the value of one
/// of those successes.
pub proof fn lemma_slot<R>(messages: Seq<(usize, Result<R>)>, pos: int)
    ensures
        slot(messages, pos) is Some <==> exists|k: int|
            0 <= k < messages.len() && (#[trigger] messages[k]).0 == pos && messages[k].1 is Ok,
        slot(messages, pos) matches Some(fruit) ==> exists|k: int|
            0 <= k < messages.len() && (#[trigger] messages[k]).0 == pos && messages[k].1
                == Result::<R>::Ok(fruit),
    decreases messages.len(),
{
    if messages.len() > 0 {
        let rest = messages.drop_last();
        lemma_slot(rest, pos);
        assert(forall|k: int|
            0 <= k < messages.len() - 1 ==> #[trigger] messages[k] == rest[k]);
    }
}

/// The value of a slot is that of the last success to arrive for its position.
pub proof fn lemma_slot_is_last<R>(messages: Seq<(usize, Result<R>)>, k: int)
    requires
        0 <= k < messages.len(),
        messages[k].1 is Ok,
        forall|j: int| k < j < messages.len() ==> (#[trigger] messages[j]).0 != messages[k].0,
    ensures
        slot(messages, messages[k].0 as int) == Some(messages[k].1->Ok_0),
    decreases messages.len(),
{
    if k < messages.len() - 1 {
        let rest = messages.drop_last();
        assert(forall|j: int| 0 <= j < rest.len() ==> #[trigger] messages[j] == rest[j]);
        lemma_slot_is_last(rest, k);
        assert(messages.last() == messages[messages.len() - 1]);
    }
}

/// Messages among which none is the first failure hold no failure.
pub proof fn lemma_no_error<R>(messages: Seq<(usize, Result<R>)>)
    requires
        forall|k: int| !is_first_error(messages, k),
    ensures
        forall|k: int| 0 <= k < messages.len() ==> (#[trigger] messages[k]).1 is Ok,
    decreases messages.len(),
{
    if messages.len() > 0 {
        let rest = messages.drop_last();
        assert forall|k: int| !is_first_error(rest, k) by {
            assert(!is_first_error(messages, k));
            assert(forall|j: int| 0 <= j < rest.len() ==> #[trigger] messages[j] == rest[j]);
        }
        lemma_no_error(rest);
        assert(forall|j: int| 0 <= j < rest.len() ==> #[trigger] messages[j] == rest[j]);
        assert(!is_first_error(messages, messages.len() - 1));
    }
}

} // verus!
