use crate::address::Address;
use vstd::prelude::*;

verus! {

/// Fee charged to the receiver when an offer is accepted, in lamports.
pub const PLATFORM_FEE: u64 = 10_000_000;

/// The collection whose items the platform trades. Provenance is judged outside this crate.
pub const MIDEVIL_COLLECTION: &'static str = "w44WvLKRdLGye2ghhDJBxcmnWpBo31A1tCBko2G6DgW";

/// Maximum number of non-fungible items either side may pledge.
pub const MAX_NFTS_PER_SIDE: usize = 5;

/// Where an offer stands. Only two moves exist: `Pending` to `Accepted` and `Pending` to
/// `Cancelled`. `Expired` is reserved: no operation reaches it.
#[derive(Clone, Copy, Debug, PartialEq, Eq, Structural)]
pub enum SwapStatus {
    Pending,
    Accepted,
    Cancelled,
    Expired,
}

impl SwapStatus {
    /// The status may change from `self` to `next`.
    pub open spec fn may_become(self, next: SwapStatus) -> bool {
        self == SwapStatus::Pending && (next == SwapStatus::Accepted || next
            == SwapStatus::Cancelled)
    }
}

/// The persistent record of one bilateral swap.
#[derive(Clone, Debug)]
pub struct SwapOffer {
    pub initiator: Address,
    pub receiver: Address,
    pub offer_id: String,
    pub initiator_nfts: [Address; MAX_NFTS_PER_SIDE],
    pub initiator_nft_count: u8,
    pub receiver_nfts: [Address; MAX_NFTS_PER_SIDE],
    pub receiver_nft_count: u8,
    pub initiator_sol: u64,
    pub receiver_sol: u64,
    pub status: SwapStatus,
    pub created_at: i64,
    pub accepted_at: Option<i64>,
    pub cancelled_at: Option<i64>,
    pub bump: u8,
}

/// What an offer record says: each item list is the sequence of its filled slots.
pub struct OfferView {
    pub initiator: Address,
    pub receiver: Address,
    pub offer_id: Seq<char>,
    pub initiator_nfts: Seq<Address>,
    pub receiver_nfts: Seq<Address>,
    pub initiator_sol: nat,
    pub receiver_sol: nat,
    pub status: SwapStatus,
    pub created_at: int,
    pub accepted_at: Option<int>,
    pub cancelled_at: Option<int>,
    pub bump: u8,
}

/// The first `count` of `slots`, or all of them where `count` is larger.
pub open spec fn filled(slots: Seq<Address>, count: u8) -> Seq<Address> {
    if count <= slots.len() {
        slots.take(count as int)
    } else {
        slots
    }
}

/// A timestamp that may be unset, as an integer.
pub open spec fn moment(at: Option<i64>) -> Option<int> {
    match at {
        Some(t) => Some(t as int),
        None => None,
    }
}

impl View for SwapOffer {
    type V = OfferView;

    open spec fn view(&self) -> OfferView {
        OfferView {
            initiator: self.initiator,
            receiver: self.receiver,
            offer_id: self.offer_id@,
            initiator_nfts: filled(self.initiator_nfts@, self.initiator_nft_count),
            receiver_nfts: filled(self.receiver_nfts@, self.receiver_nft_count),
            initiator_sol: self.initiator_sol as nat,
            receiver_sol: self.receiver_sol as nat,
            status: self.status,
            created_at: self.created_at as int,
            accepted_at: moment(self.accepted_at),
            cancelled_at: moment(self.cancelled_at),
            bump: self.bump,
        }
    }
}

impl SwapOffer {
    /// Neither item count exceeds the capacity.
    pub open spec fn well_formed(&self) -> bool {
        self.initiator_nft_count <= MAX_NFTS_PER_SIDE && self.receiver_nft_count
            <= MAX_NFTS_PER_SIDE
    }
}

impl Default for SwapOffer {
    /// A blank record: no parties, no items, no amounts, pending.
    fn default() -> (offer: SwapOffer)
        ensures
            offer.well_formed(),
            offer@.offer_id == Seq::<char>::empty(),
            offer@.initiator_nfts == Seq::<Address>::empty(),
            offer@.receiver_nfts == Seq::<Address>::empty(),
            offer@.initiator_sol == 0,
            offer@.receiver_sol == 0,
            offer@.status == SwapStatus::Pending,
            offer@.accepted_at is None,
            offer@.cancelled_at is None,
    {
        let nobody = Address::new([0u8; 32]);
        SwapOffer {
            initiator: nobody,
            receiver: nobody,
            offer_id: String::new(),
            initiator_nfts: [nobody; MAX_NFTS_PER_SIDE],
            initiator_nft_count: 0,
            receiver_nfts: [nobody; MAX_NFTS_PER_SIDE],
            receiver_nft_count: 0,
            initiator_sol: 0,
            receiver_sol: 0,
            status: SwapStatus::Pending,
            created_at: 0,
            accepted_at: None,
            cancelled_at: None,
            bump: 0,
        }
    }
}

} // verus!
