//! What holds of the queue over several operations.
//!
//! Each statement here is about the queues that `ExpectList`, `Mockdown` and
//! the holders of an engine show in their contracts, so it holds of all of
//! them alike.

use crate::erased::dynamic;
use crate::error::{debug_text, exhausted_sentence, joined, mismatch_sentence, ExpectError};
use crate::expect::{next_spec, owed_report, pending_text, shown_names, Pending};
use crate::mockdown::mock_spec;
use crate::times::times_spec;
use vstd::prelude::*;

verus! {

/// The queue after registering `values` one after another, `values[i]`
/// under `names[i]`, behind the entries of `before`.
pub open spec fn registered<E: 'static>(
    before: Seq<Pending>,
    names: Seq<&'static str>,
    values: Seq<E>,
) -> Seq<Pending>
    recommends
        names.len() == values.len(),
    decreases values.len(),
{
    if values.len() == 0 {
        before
    } else {
        registered(before, names.drop_last(), values.drop_last()).push(
            Pending::of(names.last(), values.last()),
        )
    }
}

/// Registering adds one entry per value and keeps every place: entry
/// `before.len() + i` is the one made from `values[i]`.
pub proof fn lemma_registered_entries<E: 'static>(
    before: Seq<Pending>,
    names: Seq<&'static str>,
    values: Seq<E>,
)
    requires
        names.len() == values.len(),
    ensures
        registered(before, names, values).len() == before.len() + values.len(),
        forall|i: int|
            0 <= i < before.len() ==> #[trigger] registered(before, names, values)[i] == before[i],
        forall|i: int|
            0 <= i < values.len() ==> #[trigger] registered(before, names, values)[before.len() + i]
                == Pending::of(names[i], values[i]),
    decreases values.len(),
{
    if values.len() > 0 {
        lemma_registered_entries(before, names.drop_last(), values.drop_last());
    }
}

/// First in, first out. After `values` were registered on an empty queue
/// and the first `i` of them were taken, a request for a value of their type
/// returns `values[i]` and leaves the later ones waiting in their order.
pub proof fn lemma_first_in_first_out<E: 'static>(
    names: Seq<&'static str>,
    values: Seq<E>,
    i: int,
    received: &'static str,
    result: Result<E, ExpectError>,
    after: Seq<Pending>,
)
    requires
        names.len() == values.len(),
        0 <= i < values.len(),
        next_spec(registered(Seq::empty(), names, values).skip(i), received, result, after),
    ensures
        result == Ok::<E, ExpectError>(values[i]),
        after == registered(Seq::empty(), names, values).skip(i + 1),
{
    let all = registered(Seq::<Pending>::empty(), names, values);
    lemma_registered_entries(Seq::<Pending>::empty(), names, values);
    assert(all.skip(i)[0] == all[0 + i]);
    assert(all.skip(i)[0].holds(values[i]));
    assert(all.skip(i).skip(1) =~= all.skip(i + 1));
}

/// What a run of requests, all for values of type `E`, makes of the queue
/// `before`: request `i` is made under the name `received[i]` and answered by
/// `results[i]`, each on the queue that the one before it left, and `after`
/// is what the last one leaves.
pub open spec fn requested<E: 'static>(
    before: Seq<Pending>,
    received: Seq<&'static str>,
    results: Seq<Result<E, ExpectError>>,
    after: Seq<Pending>,
) -> bool
    decreases results.len(),
{
    if results.len() == 0 {
        after == before
    } else {
        &&& received.len() == results.len()
        &&& exists|between: Seq<Pending>| #[trigger]
            next_spec(before, received[0], results[0], between) && requested(
                between,
                received.skip(1),
                results.skip(1),
                after,
            )
    }
}

/// First in, first out, for a whole run. When `values` are registered on an
/// empty queue and then as many values of their type are requested, the
/// requests return the values in the order of their registration, and the
/// queue ends empty.
pub proof fn lemma_run_returns_in_order<E: 'static>(
    names: Seq<&'static str>,
    values: Seq<E>,
    received: Seq<&'static str>,
    results: Seq<Result<E, ExpectError>>,
    after: Seq<Pending>,
)
    requires
        names.len() == values.len(),
        results.len() == values.len(),
        requested(registered(Seq::empty(), names, values), received, results, after),
    ensures
        forall|i: int|
            0 <= i < values.len() ==> #[trigger] results[i] == Ok::<E, ExpectError>(values[i]),
        after == Seq::<Pending>::empty(),
{
    let all = registered(Seq::<Pending>::empty(), names, values);
    lemma_registered_entries(Seq::<Pending>::empty(), names, values);
    assert(all.skip(0) =~= all);
    lemma_rest_of_run(names, values, 0, received, results, after);
    assert(all.skip(values.len() as int) =~= Seq::<Pending>::empty());
}

proof fn lemma_rest_of_run<E: 'static>(
    names: Seq<&'static str>,
    values: Seq<E>,
    taken: int,
    received: Seq<&'static str>,
    results: Seq<Result<E, ExpectError>>,
    after: Seq<Pending>,
)
    requires
        names.len() == values.len(),
        0 <= taken <= values.len(),
        results.len() == values.len() - taken,
        requested(registered(Seq::empty(), names, values).skip(taken), received, results, after),
    ensures
        forall|i: int|
            0 <= i < results.len() ==> #[trigger] results[i] == Ok::<E, ExpectError>(
                values[taken + i],
            ),
        after == registered(Seq::empty(), names, values).skip(values.len() as int),
    decreases results.len(),
{
    let all = registered(Seq::<Pending>::empty(), names, values);
    if results.len() > 0 {
        let between = choose|between: Seq<Pending>| #[trigger]
            next_spec(all.skip(taken), received[0], results[0], between) && requested(
                between,
                received.skip(1),
                results.skip(1),
                after,
            );
        lemma_first_in_first_out(names, values, taken, received[0], results[0], between);
        lemma_rest_of_run(names, values, taken + 1, received.skip(1), results.skip(1), after);
        assert forall|i: int| 0 <= i < results.len() implies #[trigger] results[i] == Ok::<
            E,
            ExpectError,
        >(values[taken + i]) by {
            if i > 0 {
                assert(results[i] == results.skip(1)[i - 1]);
            }
        }
    }
}

/// Registering never changes what is at the front: behind a queue that is
/// not empty, one more entry leaves the answer to the next request as it was,
/// and stays behind the entries that the request left.
pub proof fn lemma_register_keeps_front<E: 'static>(
    before: Seq<Pending>,
    entry: Pending,
    received: &'static str,
    result: Result<E, ExpectError>,
    after: Seq<Pending>,
    result_longer: Result<E, ExpectError>,
    after_longer: Seq<Pending>,
)
    requires
        before.len() > 0,
        next_spec(before, received, result, after),
        next_spec(before.push(entry), received, result_longer, after_longer),
    ensures
        result_longer == result,
        result is Ok ==> after_longer == after.push(entry),
        result is Err ==> after_longer == Seq::<Pending>::empty(),
{
    assert(before.push(entry)[0] == before[0]);
    if before[0].is_a::<E>() {
        let held = choose|held: E| before[0].value == #[trigger] dynamic(held);
        assert(before[0].holds(held));
        assert(before.push(entry).skip(1) =~= before.skip(1).push(entry));
    }
}

/// A request on an empty queue fails with `Exhausted`, naming what was asked
/// for, and the queue is still empty.
pub proof fn lemma_empty_is_exhausted<E: 'static>(
    received: &'static str,
    result: Result<E, ExpectError>,
    after: Seq<Pending>,
)
    requires
        next_spec(Seq::<Pending>::empty(), received, result, after),
    ensures
        result == Err::<E, ExpectError>(ExpectError::Exhausted { received }),
        after == Seq::<Pending>::empty(),
{
}

/// A request under a type that the oldest entry does not have fails with
/// `TypeMismatch`, naming the entry's type and the requested one, and empties
/// the queue: whatever is asked next fails with `Exhausted`.
pub proof fn lemma_mismatch_then_exhausted<E: 'static, F: 'static>(
    before: Seq<Pending>,
    received: &'static str,
    result: Result<E, ExpectError>,
    after: Seq<Pending>,
    received_next: &'static str,
    result_next: Result<F, ExpectError>,
    after_next: Seq<Pending>,
)
    requires
        before.len() > 0,
        !before[0].is_a::<E>(),
        next_spec(before, received, result, after),
        next_spec(after, received_next, result_next, after_next),
    ensures
        result == Err::<E, ExpectError>(
            ExpectError::TypeMismatch { expected: before[0].name, received },
        ),
        after == Seq::<Pending>::empty(),
        result_next == Err::<F, ExpectError>(ExpectError::Exhausted { received: received_next }),
        after_next == Seq::<Pending>::empty(),
{
}

/// The engine hands values to the transform first in, first out. After
/// `values` were registered on an empty queue and the first `i` of them were
/// taken, a request for their type succeeds with what `with` makes of
/// `values[i]`, and the later ones stay waiting in their order.
pub proof fn lemma_engine_first_in_first_out<E: 'static, R, W: FnOnce(E) -> R>(
    names: Seq<&'static str>,
    values: Seq<E>,
    i: int,
    received: &'static str,
    with: W,
    result: Result<R, String>,
    after: Seq<Pending>,
)
    requires
        names.len() == values.len(),
        0 <= i < values.len(),
        mock_spec::<E, R, W>(
            registered(Seq::empty(), names, values).skip(i),
            received,
            with,
            result,
            after,
        ),
    ensures
        result is Ok,
        call_ensures(with, (values[i],), result->Ok_0),
        after == registered(Seq::empty(), names, values).skip(i + 1),
{
    let all = registered(Seq::<Pending>::empty(), names, values);
    lemma_registered_entries(Seq::<Pending>::empty(), names, values);
    assert(all.skip(i)[0] == all[0 + i]);
    assert(all.skip(i)[0].value == dynamic(values[i]));
    assert(all.skip(i).skip(1) =~= all.skip(i + 1));
}

/// The engine on an empty queue fails with the sentence for `Exhausted`,
/// which shows the requested name, and the queue is still empty.
pub proof fn lemma_engine_empty_is_exhausted<E: 'static, R, W: FnOnce(E) -> R>(
    received: &'static str,
    with: W,
    result: Result<R, String>,
    after: Seq<Pending>,
)
    requires
        mock_spec::<E, R, W>(Seq::<Pending>::empty(), received, with, result, after),
    ensures
        result is Err,
        result->Err_0@ == exhausted_sentence(debug_text(received@)),
        after == Seq::<Pending>::empty(),
{
}

/// The engine answers a request under a type that the oldest entry does not
/// have with the sentence for `TypeMismatch`, which shows the entry's name
/// and the requested one, and forgets every entry: whatever is requested
/// next gets the sentence for `Exhausted`.
pub proof fn lemma_engine_mismatch_then_exhausted<
    E: 'static,
    R,
    W: FnOnce(E) -> R,
    F: 'static,
    S,
    V: FnOnce(F) -> S,
>(
    before: Seq<Pending>,
    received: &'static str,
    with: W,
    result: Result<R, String>,
    after: Seq<Pending>,
    received_next: &'static str,
    with_next: V,
    result_next: Result<S, String>,
    after_next: Seq<Pending>,
)
    requires
        before.len() > 0,
        !before[0].is_a::<E>(),
        mock_spec::<E, R, W>(before, received, with, result, after),
        mock_spec::<F, S, V>(after, received_next, with_next, result_next, after_next),
    ensures
        result is Err,
        result->Err_0@ == mismatch_sentence(debug_text(before[0].name@), debug_text(received@)),
        after == Seq::<Pending>::empty(),
        result_next is Err,
        result_next->Err_0@ == exhausted_sentence(debug_text(received_next@)),
        after_next == Seq::<Pending>::empty(),
{
}

/// Giving up a queue owes a report exactly when an entry is still waiting.
/// After `clear`, of which the contract says that it leaves no entry, none is
/// owed, whatever was waiting before.
pub proof fn lemma_report_is_owed_for_leftovers(entries: Seq<Pending>)
    ensures
        owed_report(entries) is Some <==> entries.len() >= 1,
        owed_report(Seq::<Pending>::empty()) is None,
{
}

/// The report on leftover entries names every one of them: the name of
/// entry `i`, as `{:?}` prints it, stands in the sentence.
pub proof fn lemma_report_names_every_entry(entries: Seq<Pending>, i: int)
    requires
        0 <= i < entries.len(),
    ensures
        owed_report(entries) == Some(pending_text(entries)),
        exists|head: Seq<char>, tail: Seq<char>|
            pending_text(entries) == head + debug_text(entries[i].name@) + tail,
{
    let names = shown_names(entries);
    lemma_joined_holds_every_part(names, i);
    let (head, tail) = choose|head: Seq<char>, tail: Seq<char>|
        joined(names) == head + names[i] + tail;
    let opening = "Mockdown error, pending expects: ["@;
    assert(pending_text(entries) =~= (opening + head) + debug_text(entries[i].name@) + (tail
        + "]"@));
}

/// Every part stands in the joined text.
pub proof fn lemma_joined_holds_every_part(parts: Seq<Seq<char>>, i: int)
    requires
        0 <= i < parts.len(),
    ensures
        exists|head: Seq<char>, tail: Seq<char>| joined(parts) == head + parts[i] + tail,
    decreases parts.len(),
{
    if parts.len() == 1 {
        assert(joined(parts) =~= Seq::<char>::empty() + parts[i] + Seq::<char>::empty());
    } else if i == parts.len() - 1 {
        let head = joined(parts.drop_last()) + ", "@;
        assert(joined(parts) =~= head + parts[i] + Seq::<char>::empty());
    } else {
        lemma_joined_holds_every_part(parts.drop_last(), i);
        let (head, tail) = choose|head: Seq<char>, tail: Seq<char>|
            joined(parts.drop_last()) == head + parts.drop_last()[i] + tail;
        let longer = tail + ", "@ + parts.last();
        assert(joined(parts) =~= head + parts[i] + longer);
    }
}

/// Registering an expectation zero times changes nothing.
pub proof fn lemma_times_zero<E: Clone + 'static>(
    before: Seq<Pending>,
    name: &'static str,
    expect: E,
    after: Seq<Pending>,
)
    requires
        times_spec(before, 0, name, expect, after),
    ensures
        after == before,
{
    assert(after.take(before.len() as int) =~= after);
}

/// After an expectation was registered `count` times on an empty queue and
/// `i` of the entries were taken, a request for its type returns a clone of
/// it and leaves the rest waiting.
pub proof fn lemma_times_then_next<E: Clone + 'static>(
    count: nat,
    name: &'static str,
    expect: E,
    queue: Seq<Pending>,
    i: int,
    received: &'static str,
    result: Result<E, ExpectError>,
    after: Seq<Pending>,
)
    requires
        times_spec(Seq::empty(), count, name, expect, queue),
        0 <= i < count,
        next_spec(queue.skip(i), received, result, after),
    ensures
        result is Ok,
        cloned(expect, result->Ok_0),
        after == queue.skip(i + 1),
{
    assert(queue.skip(i)[0] == queue[0 + i]);
    let clone = choose|clone: E| cloned(expect, clone) && queue[i].holds(clone);
    assert(queue.skip(i)[0].holds(clone));
    assert(queue.skip(i).skip(1) =~= queue.skip(i + 1));
}

} // verus!
