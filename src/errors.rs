//! The errors a transaction can end with.

use vstd::prelude::*;

verus! {

/// Why a transaction was rejected. Each kind has a stable numeric code.
#[derive(Clone, Copy, Debug, PartialEq, Eq, Structural)]
pub enum Error {
    /// The author already has a wallet.
    WalletAlreadyExists,
    /// The author of a transfer has no wallet.
    SenderNotFound,
    /// The receiver of a transfer has no wallet.
    ReceiverNotFound,
    /// The sender's balance is below the amount.
    InsufficientCurrencyAmount,
    /// A transfer names its author as the receiver.
    SenderSameAsReceiver,
}

impl Error {
    pub open spec fn spec_code(self) -> u8 {
        match self {
            Error::WalletAlreadyExists => 0,
            Error::SenderNotFound => 1,
            Error::ReceiverNotFound => 2,
            Error::InsufficientCurrencyAmount => 3,
            Error::SenderSameAsReceiver => 4,
        }
    }

    /// The error's numeric code.
    pub fn code(&self) -> (r: u8)
        ensures
            r == self.spec_code(),
    {
        match self {
            Error::WalletAlreadyExists => 0,
            Error::SenderNotFound => 1,
            Error::ReceiverNotFound => 2,
            Error::InsufficientCurrencyAmount => 3,
            Error::SenderSameAsReceiver => 4,
        }
    }
}

} // verus!
