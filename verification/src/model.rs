use crate::address::Address;
use crate::custody::Custody;
use crate::error::SwapError;
use crate::ledger::LedgerView;
use crate::offer::{OfferView, SwapStatus, MAX_NFTS_PER_SIDE, PLATFORM_FEE};
use vstd::prelude::*;

verus! {

/// One offer together with the ledger that holds the assets it speaks of.
pub struct SwapState {
    pub offer: OfferView,
    pub ledger: LedgerView,
}

/// The record of an offer that was just created.
pub open spec fn fresh_offer(
    custody: Custody,
    initiator: Address,
    receiver: Address,
    offer_id: Seq<char>,
    initiator_sol: nat,
    receiver_sol: nat,
    now: int,
) -> OfferView {
    OfferView {
        initiator,
        receiver,
        offer_id,
        initiator_nfts: Seq::empty(),
        receiver_nfts: Seq::empty(),
        initiator_sol,
        receiver_sol,
        status: SwapStatus::Pending,
        created_at: now,
        accepted_at: None,
        cancelled_at: None,
        bump: custody.bump,
    }
}

/// Creating an offer: the record is written and the initiator's amount moves into the vault,
/// both or neither.
pub open spec fn spec_create_offer(
    ledger: LedgerView,
    custody: Option<Custody>,
    initiator: Address,
    receiver: Address,
    offer_id: Seq<char>,
    initiator_sol: nat,
    receiver_sol: nat,
    now: int,
) -> Result<SwapState, SwapError> {
    match custody {
        None => Err(SwapError::CustodyUnavailable),
        Some(custody) => match ledger.transfer_lamports(initiator, custody.vault, initiator_sol) {
            Err(e) => Err(e),
            Ok(ledger) => Ok(
                SwapState {
                    offer: fresh_offer(
                        custody,
                        initiator,
                        receiver,
                        offer_id,
                        initiator_sol,
                        receiver_sol,
                        now,
                    ),
                    ledger,
                },
            ),
        },
    }
}

/// The initiator pledging one more item: it moves into custody and fills the next slot.
pub open spec fn spec_escrow_initiator_nft(
    state: SwapState,
    custody: Option<Custody>,
    owner: Address,
    nft_mint: Address,
) -> Result<SwapState, SwapError> {
    if state.offer.status != SwapStatus::Pending {
        Err(SwapError::OfferNotPending)
    } else if owner != state.offer.initiator {
        Err(SwapError::NotInitiator)
    } else if state.offer.initiator_nfts.len() >= MAX_NFTS_PER_SIDE {
        Err(SwapError::MaxNftsExceeded)
    } else {
        match custody {
            None => Err(SwapError::CustodyUnavailable),
            Some(custody) => match state.ledger.transfer_item(nft_mint, owner, custody.authority) {
                Err(e) => Err(e),
                Ok(ledger) => Ok(
                    SwapState {
                        offer: OfferView {
                            initiator_nfts: state.offer.initiator_nfts.push(nft_mint),
                            ..state.offer
                        },
                        ledger,
                    },
                ),
            },
        }
    }
}

/// The receiver accepting: the fee is paid and the offer is committed.
pub open spec fn spec_accept_offer(
    state: SwapState,
    receiver: Address,
    fee_collector: Address,
    now: int,
) -> Result<SwapState, SwapError> {
    if state.offer.status != SwapStatus::Pending {
        Err(SwapError::OfferNotPending)
    } else if receiver != state.offer.receiver {
        Err(SwapError::NotReceiver)
    } else {
        match state.ledger.transfer_lamports(receiver, fee_collector, PLATFORM_FEE as nat) {
            Err(e) => Err(e),
            Ok(ledger) => Ok(
                SwapState {
                    offer: OfferView {
                        status: SwapStatus::Accepted,
                        accepted_at: Some(now),
                        ..state.offer
                    },
                    ledger,
                },
            ),
        }
    }
}

/// The initiator cancelling a pending offer. No asset moves.
pub open spec fn spec_cancel_offer(offer: OfferView, authority: Address, now: int) -> Result<
    OfferView,
    SwapError,
> {
    if offer.status != SwapStatus::Pending {
        Err(SwapError::OfferNotPending)
    } else if authority != offer.initiator {
        Err(SwapError::NotInitiator)
    } else {
        Ok(OfferView { status: SwapStatus::Cancelled, cancelled_at: Some(now), ..offer })
    }
}

/// Moving the escrowed item in slot `nft_index` out of custody to `to`, for an offer whose
/// status is `required`; `mismatch` is the error for any other status.
pub open spec fn release_item(
    state: SwapState,
    custody: Option<Custody>,
    nft_index: nat,
    required: SwapStatus,
    mismatch: SwapError,
    to: Address,
) -> Result<LedgerView, SwapError> {
    if state.offer.status != required {
        Err(mismatch)
    } else if nft_index >= state.offer.initiator_nfts.len() {
        Err(SwapError::InvalidNftIndex)
    } else {
        match custody {
            None => Err(SwapError::CustodyUnavailable),
            Some(custody) => state.ledger.transfer_item(
                state.offer.initiator_nfts[nft_index as int],
                custody.authority,
                to,
            ),
        }
    }
}

/// Moving the escrowed amount out of the vault to `to`, for an offer whose status is
/// `required`; `mismatch` is the error for any other status.
pub open spec fn release_amount(
    state: SwapState,
    custody: Option<Custody>,
    required: SwapStatus,
    mismatch: SwapError,
    to: Address,
) -> Result<LedgerView, SwapError> {
    if state.offer.status != required {
        Err(mismatch)
    } else {
        match custody {
            None => Err(SwapError::CustodyUnavailable),
            Some(custody) => state.ledger.transfer_lamports(
                custody.vault,
                to,
                state.offer.initiator_sol,
            ),
        }
    }
}

/// Settling slot `nft_index` of an accepted offer: the item goes to the receiver.
pub open spec fn spec_transfer_initiator_nft_to_receiver(
    state: SwapState,
    custody: Option<Custody>,
    nft_index: nat,
) -> Result<LedgerView, SwapError> {
    release_item(
        state,
        custody,
        nft_index,
        SwapStatus::Accepted,
        SwapError::OfferNotAccepted,
        state.offer.receiver,
    )
}

/// The receiver handing one of its own items to the initiator of an accepted offer.
pub open spec fn spec_transfer_receiver_nft_to_initiator(
    state: SwapState,
    receiver: Address,
    nft_mint: Address,
) -> Result<LedgerView, SwapError> {
    if state.offer.status != SwapStatus::Accepted {
        Err(SwapError::OfferNotAccepted)
    } else if receiver != state.offer.receiver {
        Err(SwapError::NotReceiver)
    } else {
        state.ledger.transfer_item(nft_mint, receiver, state.offer.initiator)
    }
}

/// Settling the amount of an accepted offer: it goes to the receiver.
pub open spec fn spec_transfer_escrowed_sol(state: SwapState, custody: Option<Custody>) -> Result<
    LedgerView,
    SwapError,
> {
    release_amount(
        state,
        custody,
        SwapStatus::Accepted,
        SwapError::OfferNotAccepted,
        state.offer.receiver,
    )
}

/// Returning slot `nft_index` of a cancelled offer: the item goes back to the initiator.
pub open spec fn spec_return_escrowed_nft(
    state: SwapState,
    custody: Option<Custody>,
    nft_index: nat,
) -> Result<LedgerView, SwapError> {
    release_item(
        state,
        custody,
        nft_index,
        SwapStatus::Cancelled,
        SwapError::OfferNotCancelled,
        state.offer.initiator,
    )
}

/// Returning the amount of a cancelled offer: it goes back to the initiator.
pub open spec fn spec_return_escrowed_sol(state: SwapState, custody: Option<Custody>) -> Result<
    LedgerView,
    SwapError,
> {
    release_amount(
        state,
        custody,
        SwapStatus::Cancelled,
        SwapError::OfferNotCancelled,
        state.offer.initiator,
    )
}

/// Pledging `items` one after the other, each by the initiator.
pub open spec fn spec_escrow_items(
    state: SwapState,
    custody: Option<Custody>,
    items: Seq<Address>,
) -> Result<SwapState, SwapError>
    decreases items.len(),
{
    if items.len() == 0 {
        Ok(state)
    } else {
        match spec_escrow_items(state, custody, items.drop_last()) {
            Err(e) => Err(e),
            Ok(so_far) => spec_escrow_initiator_nft(
                so_far,
                custody,
                so_far.offer.initiator,
                items.last(),
            ),
        }
    }
}

/// Returning the first `count` slots of a cancelled offer, in slot order.
pub open spec fn spec_return_items(state: SwapState, custody: Option<Custody>, count: nat) -> Result<
    LedgerView,
    SwapError,
>
    decreases count,
{
    if count == 0 {
        Ok(state.ledger)
    } else {
        match spec_return_items(state, custody, (count - 1) as nat) {
            Err(e) => Err(e),
            Ok(ledger) => spec_return_escrowed_nft(
                SwapState { offer: state.offer, ledger },
                custody,
                (count - 1) as nat,
            ),
        }
    }
}

/// Settling the first `count` slots of an accepted offer, in slot order.
pub open spec fn spec_settle_items(state: SwapState, custody: Option<Custody>, count: nat) -> Result<
    LedgerView,
    SwapError,
>
    decreases count,
{
    if count == 0 {
        Ok(state.ledger)
    } else {
        match spec_settle_items(state, custody, (count - 1) as nat) {
            Err(e) => Err(e),
            Ok(ledger) => spec_transfer_initiator_nft_to_receiver(
                SwapState { offer: state.offer, ledger },
                custody,
                (count - 1) as nat,
            ),
        }
    }
}

} // verus!
