use vstd::prelude::*;

verus! {

/// Why an operation was refused. A refused operation has no effect.
#[derive(Clone, Copy, Debug, PartialEq, Eq, Structural)]
pub enum SwapError {
    /// The offer is not in pending status.
    OfferNotPending,
    /// The offer is not in accepted status.
    OfferNotAccepted,
    /// The offer is not in cancelled status.
    OfferNotCancelled,
    /// Only the initiator can perform this action.
    NotInitiator,
    /// Only the receiver can perform this action.
    NotReceiver,
    /// The side already holds the maximum number of items.
    MaxNftsExceeded,
    /// The index does not name a filled slot.
    InvalidNftIndex,
    /// The item is not from the accepted collection. Reserved: provenance is judged
    /// outside this crate and no operation here returns it.
    InvalidCollection,
    /// The offer has expired. Reserved: no operation here expires an offer or returns it.
    OfferExpired,
    /// The paying account holds less than the amount to move.
    InsufficientFunds,
    /// The item is not held by the account it is to be moved from.
    AssetUnavailable,
    /// The offer identifier derives no custody address.
    CustodyUnavailable,
}

/// The classes into which the errors fall.
#[derive(Clone, Copy, Debug, PartialEq, Eq, Structural)]
pub enum ErrorKind {
    /// The offer's status does not permit the operation.
    StatusMismatch,
    /// The caller is not the party the operation requires.
    Unauthorized,
    /// The item list is already full.
    CapacityExceeded,
    /// The settlement index is not below the item count.
    IndexOutOfRange,
    /// The item fails the provenance check.
    CollectionRejected,
    /// A balance is too small to move the amount.
    InsufficientFunds,
    /// An item is not where it would have to be to move.
    AssetUnavailable,
    /// No custody address exists for the offer identifier.
    CustodyUnavailable,
}

impl SwapError {
    /// The class of this error.
    pub open spec fn spec_kind(self) -> ErrorKind {
        match self {
            SwapError::OfferNotPending => ErrorKind::StatusMismatch,
            SwapError::OfferNotAccepted => ErrorKind::StatusMismatch,
            SwapError::OfferNotCancelled => ErrorKind::StatusMismatch,
            SwapError::OfferExpired => ErrorKind::StatusMismatch,
            SwapError::NotInitiator => ErrorKind::Unauthorized,
            SwapError::NotReceiver => ErrorKind::Unauthorized,
            SwapError::MaxNftsExceeded => ErrorKind::CapacityExceeded,
            SwapError::InvalidNftIndex => ErrorKind::IndexOutOfRange,
            SwapError::InvalidCollection => ErrorKind::CollectionRejected,
            SwapError::InsufficientFunds => ErrorKind::InsufficientFunds,
            SwapError::AssetUnavailable => ErrorKind::AssetUnavailable,
            SwapError::CustodyUnavailable => ErrorKind::CustodyUnavailable,
        }
    }

    /// The class of this error.
    #[verifier::when_used_as_spec(spec_kind)]
    pub fn kind(self) -> (k: ErrorKind)
        ensures
            k == self.spec_kind(),
    {
        match self {
            SwapError::OfferNotPending
            | SwapError::OfferNotAccepted
            | SwapError::OfferNotCancelled
            | SwapError::OfferExpired => ErrorKind::StatusMismatch,
            SwapError::NotInitiator | SwapError::NotReceiver => ErrorKind::Unauthorized,
            SwapError::MaxNftsExceeded => ErrorKind::CapacityExceeded,
            SwapError::InvalidNftIndex => ErrorKind::IndexOutOfRange,
            SwapError::InvalidCollection => ErrorKind::CollectionRejected,
            SwapError::InsufficientFunds => ErrorKind::InsufficientFunds,
            SwapError::AssetUnavailable => ErrorKind::AssetUnavailable,
            SwapError::CustodyUnavailable => ErrorKind::CustodyUnavailable,
        }
    }
}

} // verus!
