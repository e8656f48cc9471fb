use vstd::prelude::*;

verus! {

/// The ways a ledger operation can be refused. Every refusal leaves the
/// ledger exactly as it was.
#[derive(Debug, Clone, Copy, PartialEq, Eq, Structural)]
pub enum LedgerError {
    /// A quantity is non-positive, out of range, or would overflow.
    InvalidQuantity,
    /// A required text field of a request is empty.
    MissingField,
    /// The source location does not hold enough units.
    InsufficientStock,
    /// The requested record or order does not exist.
    NotFound,
    /// No order line exists for the (order, product) pair.
    UnknownOrderProduct,
    /// The reservation would exceed what the order line demands.
    OverReservation,
    /// A record with the same identity is already held.
    AlreadyExists,
}

} // verus!
