//! The field rules that every request must meet before the ledger acts on it.

use vstd::prelude::*;
use crate::error::LedgerError;

verus! {

/// Smallest quantity a stock or demand request may carry.
pub const MIN_PCS: i32 = 1;

/// Largest quantity any request may carry.
pub const MAX_PCS: i32 = 10000;

/// A required text field holds at least one character.
pub open spec fn present(s: Seq<char>) -> bool {
    s.len() > 0
}

/// Checks that a required text field is not empty.
pub fn require_present(s: &String) -> (r: Result<(), LedgerError>)
    ensures
        r == (if present(s@) { Ok(()) } else { Err(LedgerError::MissingField) }),
{
    if s.as_str().is_empty() {
        Err(LedgerError::MissingField)
    } else {
        Ok(())
    }
}

/// Checks that a quantity lies in `lo..=hi`.
pub fn require_in_range(v: i32, lo: i32, hi: i32) -> (r: Result<(), LedgerError>)
    ensures
        r == (if lo <= v <= hi { Ok(()) } else { Err(LedgerError::InvalidQuantity) }),
{
    if v < lo || v > hi {
        Err(LedgerError::InvalidQuantity)
    } else {
        Ok(())
    }
}

} // verus!
