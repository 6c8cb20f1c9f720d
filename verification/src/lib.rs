//! A fixed-count burst of HTTP requests: from the user's configuration to a
//! validated request template, the dispatch of the executions, the
//! classification of each outcome and the count of successes and failures.
//!
//! The library decides and counts; sending requests, sleeping and writing
//! the log are left to the caller, who performs each `dispatch::Action` and
//! reports back the `dispatch::Event` that followed.

pub mod address;
pub mod aggregate;
pub mod dispatch;
pub mod header;
pub mod log;
pub mod method;
pub mod outcome;
pub mod request;
pub mod text;
