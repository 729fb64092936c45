//! The ways an operation can fail.

use vstd::prelude::*;

verus! {

/// Why the ledger refused an operation. A refused operation changes nothing.
#[derive(Clone, Copy, Debug, PartialEq, Eq, Structural, Hash)]
pub enum LedgerError {
    /// The token id has no owner: it was never minted, or it was burned.
    NonexistentToken,
    /// The caller is neither the owner nor approved to act for it.
    NotAuthorized,
    /// The address given as the current owner does not own the token.
    IncorrectOwner,
    /// The receiving address is the zero address.
    InvalidReceiver,
    /// An owner named itself as its own operator.
    InvalidOperator,
    /// The receiving contract answered, but not with the acceptance value.
    ReceiverRejected,
    /// The call to the receiving contract did not complete.
    ReceiverCallFailed,
}

/// The failures of the contract that surrounds the ledger.
#[derive(Clone, Copy, Debug, PartialEq, Eq, Structural, Hash)]
pub enum SuperPositionNFTError {
    /// The contract has already been initialized.
    AlreadyInitialized,
    /// A call to an external contract failed.
    ExternalCallFailed,
}

} // verus!
