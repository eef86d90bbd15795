//! A test-double engine built around one ordered queue of typed expectations.
//!
//! Test code registers stand-in values in the order in which the code under
//! test is expected to ask for them. Each request names the type it wants;
//! the queue hands out its oldest entry if the types agree and otherwise
//! reports the disagreement and drops whatever was still waiting.
//!
//! # Example
//!
//! ```
//! use mockdown::{Mock, MockTimes};
//!
//! struct Add(fn(i32, i32) -> i32);
//!
//! let mut mock = mockdown::owned::new();
//! mock.expect("Add", Add(|x, y| x + y)).times(2, "i32", 7);
//!
//! let sum: Result<i32, String> = mock.next("Add", |Add(add)| add(1, 1));
//! assert_eq!(sum, Ok(2));
//! let seven: Result<i32, String> = mock.next("i32", |n: i32| n);
//! assert_eq!(seven, Ok(7));
//!
//! let wrong: Result<usize, String> = mock.next("&str", |s: &str| s.len());
//! assert!(wrong.is_err());
//! assert_eq!(mock.unfulfilled(), None);
//! ```
//!
//! The names handed to `expect` and `next` are only shown in diagnostics;
//! whether a request fits an entry is decided by the types alone.

pub mod erased;
pub mod error;
pub mod expect;
pub mod laws;
pub mod mockdown;
pub mod owned;
pub mod times;

pub use crate::erased::{Erased, Expect};
pub use crate::error::ExpectError;
pub use crate::expect::ExpectList;
pub use crate::mockdown::{Mock, Mockdown};
pub use crate::owned::Owned;
pub use crate::times::MockTimes;
