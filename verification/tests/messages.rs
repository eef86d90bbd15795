use mockdown::error::{exhausted_message, mismatch_message, pending_message};
use mockdown::ExpectError;

#[test]
fn exhausted_message_quotes_the_requested_type() {
    let error = ExpectError::Exhausted { received: "i32" };
    assert_eq!(
        error.message(),
        "Mockdown error, expect type mismatch: expecting nothing, received \"i32\""
    );
}

#[test]
fn mismatch_message_quotes_both_types() {
    let error = ExpectError::TypeMismatch {
        expected: "i32",
        received: "&str",
    };
    assert_eq!(
        error.message(),
        "Mockdown error, expect type mismatch: expecting \"i32\", received \"&str\""
    );
}

#[test]
fn names_are_escaped_as_debug_escapes_them() {
    let error = ExpectError::TypeMismatch {
        expected: "a\"b",
        received: "c\\d\n",
    };
    assert_eq!(
        error.message(),
        "Mockdown error, expect type mismatch: expecting \"a\\\"b\", received \"c\\\\d\\n\""
    );
    assert_eq!(error.message(), {
        let expected: &str = "a\"b";
        let received: &str = "c\\d\n";
        format!(
            "Mockdown error, expect type mismatch: expecting {expected:?}, received {received:?}"
        )
    });
}

#[test]
fn sentences_take_names_as_they_are_to_be_shown() {
    assert_eq!(
        exhausted_message("u8"),
        "Mockdown error, expect type mismatch: expecting nothing, received u8"
    );
    assert_eq!(
        mismatch_message("<a>", "<b>"),
        "Mockdown error, expect type mismatch: expecting <a>, received <b>"
    );
    assert_eq!(exhausted_message(""), "Mockdown error, expect type mismatch: expecting nothing, received ");
}

#[test]
fn pending_message_separates_and_brackets() {
    assert_eq!(
        pending_message(&vec![]),
        "Mockdown error, pending expects: []"
    );
    assert_eq!(
        pending_message(&vec![String::from("a")]),
        "Mockdown error, pending expects: [a]"
    );
    assert_eq!(
        pending_message(&vec![String::from("a"), String::from("b"), String::from("c")]),
        "Mockdown error, pending expects: [a, b, c]"
    );
}

#[test]
fn errors_compare_by_kind_and_names() {
    assert_eq!(
        ExpectError::Exhausted { received: "i32" },
        ExpectError::Exhausted { received: "i32" }
    );
    assert_ne!(
        ExpectError::Exhausted { received: "i32" },
        ExpectError::Exhausted { received: "u32" }
    );
    assert_ne!(
        ExpectError::Exhausted { received: "i32" },
        ExpectError::TypeMismatch {
            expected: "i32",
            received: "i32"
        }
    );
}
