//! The error taxonomy of the engine.  Input-validation and liquidity-math
//! errors reach the caller with no state change; transfer errors carry the
//! ledger's message and drive the compensation paths.

use vstd::prelude::*;

use crate::bignat::BigNat;

verus! {

pub enum AmmError {
    /// An amount that must be positive was zero.
    ZeroAmount,
    /// A supplied transaction id kind is not accepted here.
    TxIdNotSupported,
    /// No token answers to the given id or text.
    TokenNotFound,
    /// A token with this address or symbol already exists.
    TokenAlreadyExists,
    /// `token_1` of a new pool must be the designated quote token.
    QuoteTokenRequired,
    /// No pool exists for the token pair.
    PoolNotFound,
    /// A pool for this unordered token pair already exists.
    PoolAlreadyExists,
    /// The protocol's fee cut cannot exceed the LP fee.
    KongFeeTooHigh,
    /// The LP mint amount could not be computed.
    InvalidLpTokenAmount,
    /// The amount of token 0 the ratio asks for could not be computed.
    InvalidAmount0,
    /// The amount of token 1 the ratio asks for could not be computed.
    InvalidAmount1,
    /// Rescaling lost so much precision that a required amount came out
    /// zero against a live reserve.
    RequiredAmountZero,
    /// The deposit ratio no longer matches the pool; the fields carry the
    /// amounts that would have been required.
    IncorrectRatio { required_0: BigNat, required_1: BigNat },
    /// The caller holds less LP token than the operation needs.
    InsufficientLpBalance,
    /// This `(token, block index)` deposit was already consumed.
    DuplicateBlockIndex,
    /// The realised slippage exceeds the caller's bound.
    SlippageExceeded,
    /// The pool's spendable balance cannot cover the payout.
    InsufficientPoolBalance,
    /// The net amount received would fall below the caller's minimum.
    ReceiveBelowMinimum,
    /// No claim answers to the given id.
    ClaimNotFound,
    /// The claim is not waiting to be paid: it is locked, settled, or
    /// parked after too many attempts.
    ClaimNotClaimable,
    /// An external ledger refused or failed a transfer; the message is the
    /// ledger's own.
    TransferFailed { message: String },
    /// A record that was just verified present has vanished.
    StateCorrupted,
}

} // verus!
