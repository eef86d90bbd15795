//! The engine: one queue of expectations, and the three things that can be
//! done with it.

use crate::erased::dynamic;
use crate::error::ExpectError;
use crate::expect::{owed_report, reports, ExpectList, Pending};
use vstd::prelude::*;

verus! {

/// Whether `with` may be called on what a request for a value of type `E`
/// takes from the queue `before`. Where the request fails, `with` is never
/// called and nothing is asked of it.
pub open spec fn accepts<E: 'static, R, W: FnOnce(E) -> R>(before: Seq<Pending>, with: W) -> bool {
    before.len() > 0 && before[0].is_a::<E>() ==> exists|value: E|
        before[0].value == #[trigger] dynamic(value) && call_requires(with, (value,))
}

/// What asking the engine for a value of type `E` and handing it to `with`
/// does to the queue `before`: the `result` and the queue `after` it.
///
/// The queue behaves as `next_spec` says. A payload that comes out goes
/// through `with`, whose answer is the result. A failure is reported by its
/// sentence.
pub open spec fn mock_spec<E: 'static, R, W: FnOnce(E) -> R>(
    before: Seq<Pending>,
    received: &'static str,
    with: W,
    result: Result<R, String>,
    after: Seq<Pending>,
) -> bool {
    if before.len() == 0 {
        &&& result is Err
        &&& result->Err_0@ == (ExpectError::Exhausted { received }).text()
        &&& after == Seq::<Pending>::empty()
    } else if before[0].is_a::<E>() {
        &&& result is Ok
        &&& forall|value: E|
            before[0].value == #[trigger] dynamic(value) ==> call_ensures(
                with,
                (value,),
                result->Ok_0,
            )
        &&& after == before.skip(1)
    } else {
        &&& result is Err
        &&& result->Err_0@ == (ExpectError::TypeMismatch {
            expected: before[0].name,
            received,
        }).text()
        &&& after == Seq::<Pending>::empty()
    }
}

/// What every holder of an engine offers: the engine's three operations,
/// with the two that cannot fail returning the holder for chaining.
pub trait Mock: Sized {
    /// The expectations that are waiting, oldest first.
    spec fn pending(&self) -> Seq<Pending>;

    /// Forgets every expectation that is still waiting. Nothing is owed for
    /// expectations forgotten this way.
    fn clear(&mut self) -> (same: &mut Self)
        ensures
            same.pending() == Seq::<Pending>::empty(),
            owed_report(same.pending()) is None,
            *final(self) == *final(same),
    ;

    /// Registers `expect` behind everything registered before; `name` names
    /// its type in diagnostics.
    fn expect<E: Send + 'static>(&mut self, name: &'static str, expect: E) -> (same: &mut Self)
        ensures
            same.pending() == old(self).pending().push(Pending::of(name, expect)),
            *final(self) == *final(same),
    ;

    /// Takes the oldest expectation as a value of type `E` and returns what
    /// `with` makes of it; `received` names `E` in diagnostics.
    fn next<E: 'static, R, W: FnOnce(E) -> R>(
        &mut self,
        received: &'static str,
        with: W,
    ) -> (result: Result<R, String>)
        requires
            accepts::<E, R, W>(old(self).pending(), with),
        ensures
            mock_spec::<E, R, W>(
                old(self).pending(),
                received,
                with,
                result,
                final(self).pending(),
            ),
    ;
}

/// A mock engine. It owns one queue of expectations and nothing else.
pub struct Mockdown {
    expects: ExpectList,
}

impl View for Mockdown {
    type V = Seq<Pending>;

    closed spec fn view(&self) -> Seq<Pending> {
        self.expects@
    }
}

impl Default for Mockdown {
    fn default() -> (mock: Self)
        ensures
            mock@ == Seq::<Pending>::empty(),
    {
        Mockdown { expects: ExpectList::default() }
    }
}

impl Mockdown {
    /// Forgets every expectation that is still waiting. Nothing is owed for
    /// expectations forgotten this way.
    pub fn clear(&mut self)
        ensures
            final(self)@ == Seq::<Pending>::empty(),
            owed_report(final(self)@) is None,
    {
        self.expects.clear();
    }

    /// Registers `expect` behind everything registered before; `name` names
    /// its type in diagnostics.
    pub fn expect<E: Send + 'static>(&mut self, name: &'static str, expect: E)
        ensures
            final(self)@ == old(self)@.push(Pending::of(name, expect)),
    {
        self.expects.add(name, expect);
    }

    /// Takes the oldest expectation as a value of type `E` and returns what
    /// `with` makes of it; `received` names `E` in diagnostics.
    #[allow(clippy::should_implement_trait)]
    pub fn next<E: 'static, R, W: FnOnce(E) -> R>(
        &mut self,
        received: &'static str,
        with: W,
    ) -> (result: Result<R, String>)
        requires
            accepts::<E, R, W>(old(self)@, with),
        ensures
            mock_spec::<E, R, W>(old(self)@, received, with, result, final(self)@),
    {
        match self.expects.next::<E>(received) {
            Ok(value) => {
                proof {
                    let held = choose|held: E|
                        old(self)@[0].value == #[trigger] dynamic(held) && call_requires(
                            with,
                            (held,),
                        );
                    assert(old(self)@[0].value == dynamic(held));
                }
                Ok(with(value))
            },
            Err(error) => Err(error.message()),
        }
    }

    /// The report that is owed when the engine is given up with expectations
    /// still waiting, and `None` when there are none.
    pub fn unfulfilled(&self) -> (report: Option<String>)
        ensures
            reports(report, self@),
    {
        self.expects.unfulfilled()
    }

    /// Whether no expectation is waiting.
    pub fn is_empty(&self) -> (empty: bool)
        ensures
            empty == (self@.len() == 0),
    {
        self.expects.is_empty()
    }
}

} // verus!
