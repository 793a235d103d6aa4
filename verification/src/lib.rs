pub mod address;
pub mod custody;
pub mod error;
pub mod events;
pub mod laws;
pub mod ledger;
pub mod lifecycle;
pub mod model;
pub mod offer;
pub mod settlement;

pub use crate::address::Address;
pub use crate::custody::{Custody, PROGRAM_ID};
pub use crate::error::{ErrorKind, SwapError};
pub use crate::events::{OfferAccepted, OfferCancelled, OfferCreated};
pub use crate::ledger::Ledger;
pub use crate::lifecycle::{
    accept_offer, cancel_offer, create_offer, escrow_initiator_nft, AcceptOffer, CancelOffer,
    CreateOffer, EscrowNft,
};
pub use crate::offer::{
    SwapOffer, SwapStatus, MAX_NFTS_PER_SIDE, MIDEVIL_COLLECTION, PLATFORM_FEE,
};
pub use crate::settlement::{
    return_escrowed_nft, return_escrowed_sol, transfer_escrowed_sol,
    transfer_initiator_nft_to_receiver, transfer_receiver_nft_to_initiator, ReturnEscrowedNft,
    ReturnEscrowedSol, TransferEscrowedNft, TransferEscrowedSol, TransferReceiverNft,
};
