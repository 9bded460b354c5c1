//! The error taxonomy of the offer ledger. Every error aborts the whole
//! operation: an operation that reports an error leaves the ledger, the
//! balance book and the offer record exactly as they were.

use vstd::prelude::*;

verus! {

/// Why an operation on the offer ledger was refused.
#[derive(Clone, Copy, Debug, PartialEq, Eq, Structural)]
pub enum Error {
    /// `create` was called when an offer already exists.
    AlreadyExists,
    /// A sell or buy price of zero was supplied at create or update time.
    InvalidPrice,
    /// An operation other than `create` ran before any offer existed.
    NotFound,
    /// The required identity proof is missing.
    Unauthorized,
    /// The computed sell amount is below the buyer's stated minimum.
    PriceTooLow,
    /// The price multiplication overflows a signed 128-bit amount.
    ArithmeticOverflow,
    /// An underlying asset transfer was rejected.
    TransferFailed,
}

} // verus!
