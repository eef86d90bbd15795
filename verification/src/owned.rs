//! The engine held as a plain value: whoever owns it is the only one who can
//! reach it.

use crate::expect::{reports, Pending};
use crate::mockdown::{mock_spec, Mock, Mockdown};
use vstd::prelude::*;

verus! {

/// An engine that its owner holds directly.
pub struct Owned {
    mock: Mockdown,
}

/// An engine with nothing registered.
pub fn new() -> (owned: Owned)
    ensures
        owned.pending() == Seq::<Pending>::empty(),
{
    Owned { mock: Mockdown::default() }
}

impl Owned {
    /// The report that is owed when the engine is given up with expectations
    /// still waiting, and `None` when there are none.
    pub fn unfulfilled(&self) -> (report: Option<String>)
        ensures
            reports(report, self.pending()),
    {
        self.mock.unfulfilled()
    }
}

impl Mock for Owned {
    closed spec fn pending(&self) -> Seq<Pending> {
        self.mock@
    }

    fn clear(&mut self) -> (same: &mut Self) {
        self.mock.clear();
        self
    }

    fn expect<E: Send + 'static>(&mut self, name: &'static str, expect: E) -> (same: &mut Self) {
        self.mock.expect(name, expect);
        self
    }

    fn next<E: 'static, R, W: FnOnce(E) -> R>(
        &mut self,
        received: &'static str,
        with: W,
    ) -> (result: Result<R, String>) {
        self.mock.next(received, with)
    }
}

} // verus!
