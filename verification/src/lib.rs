//! Browser-side status reporter for an in-page test harness.
//!
//! The library holds the verified core of the reporter: the error
//! normalization algorithm that turns an error descriptor into a single
//! display string, the append-only transcript kept in the page's output
//! element, and the request/acknowledge state machine behind the
//! screenshot handshake. The thin layer that touches the actual page
//! (element lookup, timers) lives outside the library and hands it plain
//! strings.

pub mod error;
pub mod output;
pub mod protocol;
