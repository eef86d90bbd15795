use mockdown::{Erased, Expect, ExpectError, ExpectList};

#[derive(Debug, PartialEq)]
struct Pair(i32, i32);

#[test]
fn values_come_out_in_the_order_they_went_in() {
    let mut list = ExpectList::default();
    list.add("i32", 1_i32);
    list.add("i32", 2_i32);
    list.add("i32", 3_i32);
    assert_eq!(list.next::<i32>("i32"), Ok(1));
    assert_eq!(list.next::<i32>("i32"), Ok(2));
    assert_eq!(list.next::<i32>("i32"), Ok(3));
    assert!(list.is_empty());
}

#[test]
fn values_of_different_types_keep_their_order() {
    let mut list = ExpectList::default();
    list.add("i32", 7_i32);
    list.add("&str", "seven");
    list.add("Pair", Pair(7, 7));
    list.add("alloc::string::String", String::from("VII"));
    assert_eq!(list.next::<i32>("i32"), Ok(7));
    assert_eq!(list.next::<&str>("&str"), Ok("seven"));
    assert_eq!(list.next::<Pair>("Pair"), Ok(Pair(7, 7)));
    assert_eq!(
        list.next::<String>("alloc::string::String"),
        Ok(String::from("VII"))
    );
    assert!(list.is_empty());
}

#[test]
fn empty_queue_is_exhausted_and_stays_empty() {
    let mut list = ExpectList::default();
    assert!(list.is_empty());
    assert_eq!(
        list.next::<i32>("i32"),
        Err(ExpectError::Exhausted { received: "i32" })
    );
    assert!(list.is_empty());
    assert_eq!(
        list.next::<Pair>("Pair"),
        Err(ExpectError::Exhausted { received: "Pair" })
    );
    assert!(list.is_empty());
}

#[test]
fn mismatch_names_both_types_and_empties_the_queue() {
    let mut list = ExpectList::default();
    list.add("i32", 5_i32);
    list.add("i32", 6_i32);
    list.add("&str", "later");
    assert_eq!(
        list.next::<&str>("&str"),
        Err(ExpectError::TypeMismatch {
            expected: "i32",
            received: "&str"
        })
    );
    assert!(list.is_empty());
    assert_eq!(
        list.next::<i32>("i32"),
        Err(ExpectError::Exhausted { received: "i32" })
    );
    assert_eq!(
        list.next::<&str>("&str"),
        Err(ExpectError::Exhausted { received: "&str" })
    );
}

#[test]
fn equal_names_do_not_make_equal_types() {
    let mut list = ExpectList::default();
    list.add("number", 5_i32);
    assert_eq!(
        list.next::<u32>("number"),
        Err(ExpectError::TypeMismatch {
            expected: "number",
            received: "number"
        })
    );
}

#[test]
fn different_names_do_not_make_different_types() {
    let mut list = ExpectList::default();
    list.add("stored", 5_i32);
    assert_eq!(list.next::<i32>("asked"), Ok(5));
}

#[test]
fn clear_empties_and_owes_no_report() {
    let mut list = ExpectList::default();
    list.add("i32", 1_i32);
    list.add("u8", 2_u8);
    assert!(!list.is_empty());
    assert!(list.unfulfilled().is_some());
    list.clear();
    assert!(list.is_empty());
    assert_eq!(list.unfulfilled(), None);
    list.clear();
    assert!(list.is_empty());
    assert_eq!(list.unfulfilled(), None);
}

#[test]
fn new_queue_owes_no_report() {
    let list = ExpectList::default();
    assert_eq!(list.unfulfilled(), None);
}

#[test]
fn leftover_entries_are_all_named_oldest_first() {
    let mut list = ExpectList::default();
    list.add("i32", 1_i32);
    list.add("&str", "two");
    list.add("queue::Pair", Pair(3, 3));
    assert_eq!(
        list.unfulfilled(),
        Some(String::from(
            "Mockdown error, pending expects: [\"i32\", \"&str\", \"queue::Pair\"]"
        ))
    );
    assert_eq!(list.next::<i32>("i32"), Ok(1));
    assert_eq!(
        list.unfulfilled(),
        Some(String::from(
            "Mockdown error, pending expects: [\"&str\", \"queue::Pair\"]"
        ))
    );
    assert_eq!(list.next::<&str>("&str"), Ok("two"));
    assert_eq!(
        list.unfulfilled(),
        Some(String::from("Mockdown error, pending expects: [\"queue::Pair\"]"))
    );
    assert_eq!(list.next::<Pair>("queue::Pair"), Ok(Pair(3, 3)));
    assert_eq!(list.unfulfilled(), None);
}

#[test]
fn handle_gives_its_payload_once() {
    let mut handle = Erased::new("i32", 5_i32);
    assert_eq!(handle.name(), "i32");
    assert_eq!(handle.downcast_mut::<i32>(), Some(5));
    assert_eq!(handle.name(), "i32");
    assert_eq!(handle.downcast_mut::<i32>(), None);
}

#[test]
fn handle_keeps_its_payload_on_a_wrong_request() {
    let mut handle = Erased::new("Pair", Pair(1, 2));
    assert_eq!(handle.downcast_mut::<i32>(), None);
    assert_eq!(handle.downcast_mut::<(i32, i32)>(), None);
    assert_eq!(handle.name(), "Pair");
    assert_eq!(handle.downcast_mut::<Pair>(), Some(Pair(1, 2)));
}

#[test]
fn handle_tells_a_value_from_an_option_of_it() {
    let mut handle = Erased::new("i32", 5_i32);
    assert_eq!(handle.downcast_mut::<Option<i32>>(), None);
    assert_eq!(handle.downcast_mut::<i32>(), Some(5));
    let mut handle = Erased::new("Option<i32>", Some(5_i32));
    assert_eq!(handle.downcast_mut::<i32>(), None);
    assert_eq!(handle.downcast_mut::<Option<i32>>(), Some(Some(5)));
}

#[test]
fn queue_can_move_between_threads() {
    fn sendable<T: Send>(_: &T) {}
    let mut list = ExpectList::default();
    list.add("i32", 5_i32);
    sendable(&list);
    sendable(&Erased::new("u8", 1_u8));
    sendable(&mockdown::Mockdown::default());
    sendable(&mockdown::owned::new());
    assert_eq!(list.next::<i32>("i32"), Ok(5));
}
