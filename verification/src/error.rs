//! Why the factory refuses a call.

use vstd::prelude::*;

verus! {

/// The reasons for which a call is refused.
#[derive(Clone, Copy, Debug, PartialEq, Eq, Structural)]
pub enum Error {
    /// Less is offered than the fee.
    InsufficientFee,
    /// The caller is not the one who may do this.
    Unauthorized,
    /// An argument is out of place.
    InvalidParameters,
    /// The token is not known here.
    TokenNotFound,
    /// The token has metadata already.
    MetadataAlreadySet,
    /// The factory has been set up already.
    AlreadyInitialized,
    /// More is to be burned than the holder has.
    BurnAmountExceedsBalance,
    /// Holders of the token may not burn it.
    BurnNotEnabled,
    /// The amount to burn is not positive.
    InvalidBurnAmount,
    /// The factory is paused.
    ContractPaused,
    /// A number would grow out of its range.
    ArithmeticOverflow,
    /// The token would have too many decimals.
    InvalidDecimals,
    /// Another call is still under way.
    Reentrancy,
    /// The token's cap would be passed.
    MaxSupplyExceeded,
    /// The parts of a fee split do not make up the whole.
    InvalidFeeSplit,
}

} // verus!
