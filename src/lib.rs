//! A todo-list store: items kept under `u32` ids in an ordered map, the
//! request handling of its HTTP interface, the decimal form of ids used by
//! the persisted file, and the parsing of the command-line client's
//! arguments.
use vstd::prelude::*;

pub mod decimal;
pub mod text;
pub mod timestamp;
pub mod item;
pub mod store;
pub mod persist;
pub mod api;
pub mod cli;

verus! {

/// Sum of two counters; the sum must fit in a `u64`.
pub fn add(left: u64, right: u64) -> (r: u64)
    requires
        left + right <= u64::MAX,
    ensures
        r == left + right,
{
    left + right
}

} // verus!
