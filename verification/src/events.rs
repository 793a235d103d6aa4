use crate::address::Address;
use vstd::prelude::*;

verus! {

/// Notice that an offer was created.
#[derive(Clone, Debug)]
pub struct OfferCreated {
    pub offer_id: String,
    pub initiator: Address,
    pub receiver: Address,
    pub created_at: i64,
}

/// Notice that an offer was accepted.
#[derive(Clone, Debug)]
pub struct OfferAccepted {
    pub offer_id: String,
    pub accepted_at: i64,
}

/// Notice that an offer was cancelled.
#[derive(Clone, Debug)]
pub struct OfferCancelled {
    pub offer_id: String,
    pub cancelled_at: i64,
}

} // verus!
