use mockdown::Mockdown;

struct Pair(i32, i32);

struct Add(fn(i32, i32) -> i32);

#[test]
fn pair_is_consumed_once_then_exhausted() {
    let mut mock = Mockdown::default();
    mock.expect("Pair", Pair(1, 1));
    let first: Result<i32, String> = mock.next("Pair", |p: Pair| p.0 + p.1);
    assert_eq!(first, Ok(2));
    let second: Result<i32, String> = mock.next("Pair", |p: Pair| p.0 + p.1);
    assert_eq!(
        second,
        Err(String::from(
            "Mockdown error, expect type mismatch: expecting nothing, received \"Pair\""
        ))
    );
    assert!(mock.is_empty());
}

#[test]
fn wrong_type_is_a_mismatch_and_clears_what_is_left() {
    let mut mock = Mockdown::default();
    mock.expect("i32", 5_i32);
    let first: Result<usize, String> = mock.next("&str", |s: &str| s.len());
    assert_eq!(
        first,
        Err(String::from(
            "Mockdown error, expect type mismatch: expecting \"i32\", received \"&str\""
        ))
    );
    assert!(mock.is_empty());
    let second: Result<i32, String> = mock.next("i32", |n: i32| n);
    assert_eq!(
        second,
        Err(String::from(
            "Mockdown error, expect type mismatch: expecting nothing, received \"i32\""
        ))
    );
}

#[test]
fn mismatch_drops_unrelated_later_expectations() {
    let mut mock = Mockdown::default();
    mock.expect("i32", 1_i32);
    mock.expect("u8", 2_u8);
    mock.expect("u8", 3_u8);
    let wrong: Result<u8, String> = mock.next("u8", |n: u8| n);
    assert!(wrong.is_err());
    let later: Result<u8, String> = mock.next("u8", |n: u8| n);
    assert_eq!(
        later,
        Err(String::from(
            "Mockdown error, expect type mismatch: expecting nothing, received \"u8\""
        ))
    );
    assert_eq!(mock.unfulfilled(), None);
}

#[test]
fn transform_is_not_called_when_the_request_fails() {
    let mut called = false;
    let mut mock = Mockdown::default();
    let empty: Result<(), String> = mock.next("i32", |_: i32| called = true);
    assert!(empty.is_err());
    assert!(!called);
    mock.expect("i32", 5_i32);
    let wrong: Result<(), String> = mock.next("u64", |_: u64| called = true);
    assert!(wrong.is_err());
    assert!(!called);
}

#[test]
fn transform_sees_the_registered_value() {
    let mut mock = Mockdown::default();
    mock.expect("alloc::string::String", String::from("hello"));
    let seen: Result<(usize, String), String> =
        mock.next("alloc::string::String", |s: String| (s.len(), s));
    assert_eq!(seen, Ok((5, String::from("hello"))));
}

#[test]
fn a_function_is_a_payload_like_any_other() {
    let mut mock = Mockdown::default();
    mock.expect("Add", Add(|x, y| x + y));
    mock.expect("Add", Add(|x, y| x * y));
    let sum: Result<i32, String> = mock.next("Add", |Add(f)| f(3, 4));
    assert_eq!(sum, Ok(7));
    let product: Result<i32, String> = mock.next("Add", |Add(f)| f(3, 4));
    assert_eq!(product, Ok(12));
}

#[test]
fn engine_clear_forgets_everything() {
    let mut mock = Mockdown::default();
    mock.expect("i32", 1_i32);
    mock.expect("i32", 2_i32);
    assert!(!mock.is_empty());
    mock.clear();
    assert!(mock.is_empty());
    assert_eq!(mock.unfulfilled(), None);
    let next: Result<i32, String> = mock.next("i32", |n: i32| n);
    assert!(next.is_err());
}

#[test]
fn engine_reports_what_was_never_asked_for() {
    let mut mock = Mockdown::default();
    assert_eq!(mock.unfulfilled(), None);
    mock.expect("i32", 1_i32);
    mock.expect("engine::Pair", Pair(2, 2));
    assert_eq!(
        mock.unfulfilled(),
        Some(String::from(
            "Mockdown error, pending expects: [\"i32\", \"engine::Pair\"]"
        ))
    );
}
