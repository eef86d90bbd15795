//! The queue of expectations: first registered, first asked for.

use crate::erased::{dynamic, Dynamic, Erased, Expect};
use crate::error::{debug_string, debug_text, pending_message, pending_sentence, ExpectError};
use std::collections::VecDeque;
use vstd::prelude::*;

verus! {

/// One expectation that is still waiting, as contracts see it: the name it
/// was registered under and its payload without the type.
pub struct Pending {
    pub name: &'static str,
    pub value: Dynamic,
}

impl Pending {
    /// The entry that registering `value` under `name` adds.
    pub open spec fn of<E: 'static>(name: &'static str, value: E) -> Pending {
        Pending { name, value: dynamic(value) }
    }

    /// Whether the payload is `value`, type and all.
    pub open spec fn holds<E: 'static>(self, value: E) -> bool {
        self.value == dynamic(value)
    }

    /// Whether the payload has type `E`.
    pub open spec fn is_a<E: 'static>(self) -> bool {
        exists|value: E| self.value == #[trigger] dynamic(value)
    }
}

/// What a request for a value of type `E` does to the queue `before`: the
/// `result` it gives and the queue `after` it.
///
/// An empty queue stays empty and reports `Exhausted`. An oldest entry of
/// type `E` leaves the queue and its payload is the result. An oldest entry
/// of any other type is reported under its name as `TypeMismatch`, and the
/// whole queue is dropped with it.
pub open spec fn next_spec<E: 'static>(
    before: Seq<Pending>,
    received: &'static str,
    result: Result<E, ExpectError>,
    after: Seq<Pending>,
) -> bool {
    if before.len() == 0 {
        &&& result == Err::<E, ExpectError>(ExpectError::Exhausted { received })
        &&& after == Seq::<Pending>::empty()
    } else if before[0].is_a::<E>() {
        &&& result is Ok
        &&& forall|value: E| before[0].value == #[trigger] dynamic(value) ==> result->Ok_0 == value
        &&& after == before.skip(1)
    } else {
        &&& result == Err::<E, ExpectError>(
            ExpectError::TypeMismatch { expected: before[0].name, received },
        )
        &&& after == Seq::<Pending>::empty()
    }
}

/// The names of `entries`, each as `{:?}` prints it.
pub open spec fn shown_names(entries: Seq<Pending>) -> Seq<Seq<char>> {
    entries.map_values(|entry: Pending| debug_text(entry.name@))
}

/// The sentence that reports `entries` as registered and never asked for.
pub open spec fn pending_text(entries: Seq<Pending>) -> Seq<char> {
    pending_sentence(shown_names(entries))
}

/// What is owed when `entries` are given up: nothing when none is waiting,
/// and otherwise the sentence that reports them all.
pub open spec fn owed_report(entries: Seq<Pending>) -> Option<Seq<char>> {
    if entries.len() == 0 {
        None
    } else {
        Some(pending_text(entries))
    }
}

/// Whether `report` is the text that `owed_report` asks for.
pub open spec fn reports(report: Option<String>, entries: Seq<Pending>) -> bool {
    match report {
        None => owed_report(entries) is None,
        Some(text) => owed_report(entries) == Some(text@),
    }
}

/// An ordered queue of type-erased expectations. Entries join at the back
/// and leave at the front, and nothing ever reorders them.
pub struct ExpectList {
    list: VecDeque<Erased>,
}

impl View for ExpectList {
    type V = Seq<Pending>;

    closed spec fn view(&self) -> Seq<Pending> {
        Seq::new(
            self.list@.len(),
            |i: int|
                Pending { name: self.list@[i].label(), value: self.list@[i].content().unwrap() },
        )
    }
}

impl Default for ExpectList {
    fn default() -> (list: Self)
        ensures
            list@ == Seq::<Pending>::empty(),
    {
        ExpectList { list: VecDeque::new() }
    }
}

impl ExpectList {
    /// Every entry still has its payload: payloads leave only together with
    /// their entry.
    #[verifier::type_invariant]
    spec fn full(&self) -> bool {
        forall|i: int| 0 <= i < self.list@.len() ==> (#[trigger] self.list@[i]).content() is Some
    }

    /// Moves the entries out and leaves none behind. The queue is changed
    /// while it is the caller's own and put back as a whole, so that `self`
    /// holds a full queue at every moment.
    fn take_entries(&mut self) -> (list: VecDeque<Erased>)
        ensures
            list@ == old(self).list@,
            final(self).list@.len() == 0,
    {
        let mut taken = ExpectList { list: VecDeque::new() };
        std::mem::swap(self, &mut taken);
        taken.list
    }

    /// Drops every entry. Nothing is owed for entries dropped this way.
    pub fn clear(&mut self)
        ensures
            final(self)@ == Seq::<Pending>::empty(),
            owed_report(final(self)@) is None,
    {
        self.list = VecDeque::new();
    }

    /// Appends `expect` at the back, under the name `name` for its type.
    pub fn add<E: Send + 'static>(&mut self, name: &'static str, expect: E)
        ensures
            final(self)@ == old(self)@.push(Pending::of(name, expect)),
    {
        proof {
            use_type_invariant(&*self);
        }
        let mut list = self.take_entries();
        list.push_back(Erased::new(name, expect));
        self.list = list;
    }

    /// Asks for the oldest entry as a value of type `E`; `received` is the
    /// name of `E` for the diagnostics.
    #[allow(clippy::should_implement_trait)]
    pub fn next<E: 'static>(&mut self, received: &'static str) -> (result: Result<E, ExpectError>)
        ensures
            next_spec(old(self)@, received, result, final(self)@),
    {
        proof {
            use_type_invariant(&*self);
        }
        let ghost before = self@;
        let mut list = self.take_entries();
        match list.pop_front() {
            None => {
                assert(self@ =~= Seq::<Pending>::empty());
                Err(ExpectError::Exhausted { received })
            },
            Some(mut expect) => {
                assert(before[0].value == expect.content().unwrap());
                assert(before[0].name == expect.label());
                match expect.downcast_mut::<E>() {
                    Some(value) => {
                        self.list = list;
                        assert(self@ =~= before.skip(1));
                        Ok(value)
                    },
                    None => {
                        // The entries behind the front one are dropped with `list`.
                        assert(self@ =~= Seq::<Pending>::empty());
                        Err(ExpectError::TypeMismatch { expected: expect.name(), received })
                    },
                }
            },
        }
    }

    /// The report that is owed when the queue is given up: nothing for an
    /// empty queue, and otherwise the sentence that names every entry still
    /// waiting, oldest first.
    pub fn unfulfilled(&self) -> (report: Option<String>)
        ensures
            reports(report, self@),
    {
        let n = self.list.len();
        if n == 0 {
            return None;
        }
        let mut names: Vec<String> = Vec::new();
        let mut i: usize = 0;
        while i < n
            invariant
                i <= n,
                n == self.list@.len(),
                names@.map_values(|name: String| name@) == shown_names(self@.take(i as int)),
            decreases n - i,
        {
            let ghost so_far = names@;
            names.push(debug_string(self.list[i].name()));
            proof {
                assert(names@.map_values(|name: String| name@) =~= so_far.map_values(
                    |name: String| name@,
                ).push(debug_text(self@[i as int].name@)));
                assert(shown_names(self@.take(i + 1)) =~= shown_names(self@.take(i as int)).push(
                    debug_text(self@[i as int].name@),
                ));
            }
            i += 1;
        }
        proof {
            assert(self@.take(n as int) =~= self@);
        }
        Some(pending_message(&names))
    }

    /// Whether nothing is waiting.
    pub fn is_empty(&self) -> (empty: bool)
        ensures
            empty == (self@.len() == 0),
    {
        self.list.len() == 0
    }
}

} // verus!
