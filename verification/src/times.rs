//! Registering one expectation several times over.

use crate::expect::Pending;
use crate::mockdown::Mock;
use crate::owned::Owned;
use vstd::prelude::*;

verus! {

/// What registering `count` clones of `expect` under `name` makes of the
/// queue `before`: the entries that were waiting keep their places, and
/// behind them stand `count` entries that each hold a clone of `expect`.
pub open spec fn times_spec<E: Clone + 'static>(
    before: Seq<Pending>,
    count: nat,
    name: &'static str,
    expect: E,
    after: Seq<Pending>,
) -> bool {
    &&& after.len() == before.len() + count
    &&& after.take(before.len() as int) == before
    &&& forall|i: int|
        before.len() <= i < after.len() ==> (#[trigger] after[i]).name == name && exists|clone: E|
            cloned(expect, clone) && after[i].holds(clone)
}

/// Holders of an engine that can register the same expectation many times.
pub trait MockTimes: Mock {
    /// Registers `times` clones of `expect`, each as `Mock::expect` would;
    /// with `times` zero nothing changes.
    fn times<E: Send + Clone + 'static>(
        &mut self,
        times: u8,
        name: &'static str,
        expect: E,
    ) -> (same: &mut Self)
        ensures
            times_spec(old(self).pending(), times as nat, name, expect, same.pending()),
            *final(self) == *final(same),
    {
        let ghost before = self.pending();
        let mut done: u8 = 0;
        proof {
            assert(before.take(before.len() as int) =~= before);
        }
        while done < times
            invariant
                done <= times,
                times_spec(before, done as nat, name, expect, self.pending()),
            decreases times - done,
        {
            let ghost so_far = self.pending();
            let clone = expect.clone();
            self.expect(name, clone);
            proof {
                assert(self.pending().take(before.len() as int) =~= so_far.take(
                    before.len() as int,
                ));
                assert forall|i: int| before.len() <= i < self.pending().len() implies (#[trigger]
                self.pending()[i]).name == name && exists|c: E|
                    cloned(expect, c) && self.pending()[i].holds(c) by {
                    if i < so_far.len() {
                        assert(self.pending()[i] == so_far[i]);
                        let c = choose|c: E| cloned(expect, c) && so_far[i].holds(c);
                        assert(cloned(expect, c) && self.pending()[i].holds(c));
                    } else {
                        assert(cloned(expect, clone) && self.pending()[i].holds(clone));
                    }
                }
            }
            done += 1;
        }
        self
    }
}

impl MockTimes for Owned {

}

} // verus!
