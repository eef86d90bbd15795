//! Values behind one uniform handle.
//!
//! A queue of expectations stores payloads of unrelated types side by side.
//! The handle defined here hides the payload's type, keeps a name for it that
//! is only ever shown to people, and gives the payload back to whoever asks
//! for it under the type it was stored with.
//!
//! Contracts describe a hidden payload by `dynamic`, the value seen without
//! its type. That a handle holds a value of type `E` is shown by naming the
//! value. That it holds none can only be assumed: nothing in the logic tells
//! two types apart, so a proof about a request under the wrong type starts
//! from `!is_a::<E>()` as its premise. What a request does in either case is
//! fixed by the contracts all the same.

use std::any::Any;
use vstd::prelude::*;

verus! {

/// Implemented by every type, so that a value of any type has an untyped
/// view. It has no methods and nothing ever calls through it.
pub trait Value {

}

impl<T> Value for T {

}

/// A value seen without its type: what contracts use to describe the payload
/// of a handle. Two of them are equal when they come from the same value of
/// the same type. Only contracts hold one; running code never does.
pub struct Dynamic {
    pub value: Box<dyn Value>,
}

/// The untyped view of `value`.
pub open spec fn dynamic<E: 'static>(value: E) -> Dynamic {
    Dynamic { value: Box::new(value) }
}

/// An owned value of some `'static` type behind std's `Box<dyn Any + Send>`.
/// The verifier takes no declaration of `dyn Any`, so the box is opaque to it
/// and `held` names what is inside.
#[verifier::external_body]
pub struct AnyBox {
    boxed: Box<dyn Any + Send>,
}

/// The value inside `b`, seen without its type.
pub uninterp spec fn held(b: AnyBox) -> Dynamic;

/// `Box::new`, followed by the coercion to `Box<dyn Any + Send>` that hides
/// the type. The contract claims that the box holds `value`.
#[verifier::external_body]
fn any_box<E: Send + 'static>(value: E) -> (b: AnyBox)
    ensures
        held(b) == dynamic(value),
{
    AnyBox { boxed: Box::new(value) }
}

/// `Box<dyn Any + Send>::downcast`. The contract claims what std documents:
/// a box that holds a value of type `E` gives that very value, and a box that
/// holds a value of any other type comes back as it went in.
#[verifier::external_body]
fn downcast<E: 'static>(b: AnyBox) -> (r: Result<E, AnyBox>)
    ensures
        forall|v: E| held(b) == #[trigger] dynamic(v) ==> r is Ok && r->Ok_0 == v,
        (forall|v: E| held(b) != #[trigger] dynamic(v)) ==> r is Err && r->Err_0 == b,
{
    match b.boxed.downcast::<E>() {
        Ok(value) => Ok(*value),
        Err(boxed) => Err(AnyBox { boxed }),
    }
}

/// What a type-erased expectation can do: show the name of the type it was
/// made from, and give its payload to a caller who asks under that very type.
pub trait Expect {
    /// The name given when the payload was stored. It is shown in
    /// diagnostics and decides nothing.
    spec fn label(&self) -> &'static str;

    /// The payload without its type, or `None` once it has been taken.
    spec fn content(&self) -> Option<Dynamic>;

    /// Whether the payload is `value`, type and all.
    open spec fn holds<E: 'static>(&self, value: E) -> bool {
        self.content() == Some(dynamic(value))
    }

    /// Whether the payload has type `E`.
    open spec fn is_a<E: 'static>(&self) -> bool {
        exists|value: E| self.content() == Some(#[trigger] dynamic(value))
    }

    /// The name of the payload's type, as it was given.
    fn name(&self) -> (name: &'static str)
        ensures
            name == self.label(),
    ;

    /// Takes the payload out if its type is `E`. A payload of another type,
    /// or none at all, stays as it is and `None` is returned. The name never
    /// changes.
    fn downcast_mut<E: 'static>(&mut self) -> (taken: Option<E>)
        ensures
            final(self).label() == old(self).label(),
            forall|value: E|
                old(self).content() == Some(#[trigger] dynamic(value)) ==> taken == Some(value)
                    && final(self).content() is None,
            !old(self).is_a::<E>() ==> taken is None && final(self).content() == old(
                self,
            ).content(),
    ;
}

/// The one type-erased handle of this library: a payload of any `Send`
/// type, boxed, beside the name of that type.
pub struct Erased {
    name: &'static str,
    slot: Option<AnyBox>,
}

impl Erased {
    /// Wraps `value` under the name `name`.
    pub fn new<E: Send + 'static>(name: &'static str, value: E) -> (erased: Erased)
        ensures
            erased.label() == name,
            erased.holds(value),
    {
        Erased { name, slot: Some(any_box(value)) }
    }
}

impl Expect for Erased {
    closed spec fn label(&self) -> &'static str {
        self.name
    }

    closed spec fn content(&self) -> Option<Dynamic> {
        match self.slot {
            Some(b) => Some(held(b)),
            None => None,
        }
    }

    fn name(&self) -> (name: &'static str) {
        self.name
    }

    fn downcast_mut<E: 'static>(&mut self) -> (taken: Option<E>) {
        match self.slot.take() {
            None => None,
            Some(b) => match downcast::<E>(b) {
                Ok(value) => Some(value),
                Err(b) => {
                    self.slot = Some(b);
                    None
                },
            },
        }
    }
}

} // verus!
