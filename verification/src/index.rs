//! The list-addressing token a value can be read as.

use vstd::prelude::*;

verus! {

/// A 0-based list position, or the final position of whatever sequence it
/// addresses.  `Nth(n)` is already shifted down from the 1-based convention
/// of the source values; no bounds check is made here — that belongs to the
/// sequence consumer.
#[derive(Clone, Copy, Debug, PartialEq, Eq, Structural)]
pub enum Index {
    Last,
    Nth(usize),
}

} // verus!
