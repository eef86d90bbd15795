//! The ways a request for the next expectation can fail, and the sentences
//! that report them and the expectations nobody asked for.

use vstd::prelude::*;
use vstd::string::StringExecFns;

verus! {

/// Why a request for the next expectation was turned down.
#[derive(Debug, Clone, Copy, PartialEq, Eq)]
pub enum ExpectError {
    /// Nothing was waiting. `received` names the type that was asked for.
    Exhausted { received: &'static str },
    /// The oldest entry was stored as `expected` and asked for as `received`.
    TypeMismatch { expected: &'static str, received: &'static str },
}

/// What `{:?}` prints for a string slice with these characters: the text in
/// double quotes, with the characters that cannot stand there escaped.
pub uninterp spec fn debug_text(s: Seq<char>) -> Seq<char>;

/// Formats `s` with `{:?}`, which is `<str as Debug>::fmt`.
#[verifier::external_body]
pub(crate) fn debug_string(s: &str) -> (quoted: String)
    ensures
        quoted@ == debug_text(s@),
{
    format!("{:?}", s)
}

/// The sentence for a request that found nothing waiting; `received` is the
/// requested type's name as it is to be shown.
pub open spec fn exhausted_sentence(received: Seq<char>) -> Seq<char> {
    "Mockdown error, expect type mismatch: expecting nothing, received "@ + received
}

/// The sentence for a request whose type is not the one that was stored; both
/// names are given as they are to be shown.
pub open spec fn mismatch_sentence(expected: Seq<char>, received: Seq<char>) -> Seq<char> {
    "Mockdown error, expect type mismatch: expecting "@ + expected + ", received "@ + received
}

/// `parts` one after another, with `", "` between neighbours.
pub open spec fn joined(parts: Seq<Seq<char>>) -> Seq<char>
    decreases parts.len(),
{
    if parts.len() == 0 {
        Seq::empty()
    } else if parts.len() == 1 {
        parts[0]
    } else {
        joined(parts.drop_last()) + ", "@ + parts.last()
    }
}

/// The sentence for expectations that were registered and never asked for;
/// `names` are their types' names as they are to be shown, oldest first.
pub open spec fn pending_sentence(names: Seq<Seq<char>>) -> Seq<char> {
    "Mockdown error, pending expects: ["@ + joined(names) + "]"@
}

/// Writes `exhausted_sentence`.
pub fn exhausted_message(received: &str) -> (message: String)
    ensures
        message@ == exhausted_sentence(received@),
{
    let mut message = String::from_str(
        "Mockdown error, expect type mismatch: expecting nothing, received ",
    );
    message.append(received);
    message
}

/// Writes `mismatch_sentence`.
pub fn mismatch_message(expected: &str, received: &str) -> (message: String)
    ensures
        message@ == mismatch_sentence(expected@, received@),
{
    let mut message = String::from_str("Mockdown error, expect type mismatch: expecting ");
    message.append(expected);
    message.append(", received ");
    message.append(received);
    message
}

/// Writes `pending_sentence`.
pub fn pending_message(names: &Vec<String>) -> (message: String)
    ensures
        message@ == pending_sentence(names@.map_values(|name: String| name@)),
{
    let ghost shown = names@.map_values(|name: String| name@);
    let mut message = String::from_str("Mockdown error, pending expects: [");
    let mut i: usize = 0;
    while i < names.len()
        invariant
            i <= names.len(),
            shown == names@.map_values(|name: String| name@),
            message@ == "Mockdown error, pending expects: ["@ + joined(shown.take(i as int)),
        decreases names.len() - i,
    {
        if i > 0 {
            message.append(", ");
        }
        message.append(names[i].as_str());
        proof {
            assert(shown.take(i + 1).drop_last() =~= shown.take(i as int));
        }
        i += 1;
    }
    message.append("]");
    proof {
        assert(shown.take(names.len() as int) =~= shown);
    }
    message
}

impl ExpectError {
    /// The sentence for this error, with each type name as `{:?}` prints it.
    pub open spec fn text(self) -> Seq<char> {
        match self {
            ExpectError::Exhausted { received } => exhausted_sentence(debug_text(received@)),
            ExpectError::TypeMismatch { expected, received } => mismatch_sentence(
                debug_text(expected@),
                debug_text(received@),
            ),
        }
    }

    /// The diagnostic for this error.
    pub fn message(&self) -> (message: String)
        ensures
            message@ == self.text(),
    {
        match *self {
            ExpectError::Exhausted { received } => {
                let received = debug_string(received);
                exhausted_message(received.as_str())
            },
            ExpectError::TypeMismatch { expected, received } => {
                let expected = debug_string(expected);
                let received = debug_string(received);
                mismatch_message(expected.as_str(), received.as_str())
            },
        }
    }
}

} // verus!
