//! Per-channel memory of recent and recently deleted chat messages.
//!
//! [`recent::RecentCache`] remembers the last [`CAPACITY`] messages seen in
//! each channel, so that a deletion, which names only an id, can be resolved
//! to what was deleted. [`store::SnipeStore`] keeps the last resolved
//! deletion of each channel. [`protocol`] holds the decisions taken on each
//! event: which command a message is, how a deletion is resolved from the
//! recent messages or a fallback, and what a query is answered with.
//!
//! Channels and messages are named by their numeric ids. The timestamp type
//! is a parameter: the library stores and hands it back without looking at it.

use vstd::prelude::*;

pub mod protocol;
pub mod recent;
pub mod record;
pub mod store;

verus! {

/// Number of messages remembered per channel.
pub const CAPACITY: usize = 20;

} // verus!
