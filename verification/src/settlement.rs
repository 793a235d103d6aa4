use crate::address::Address;
use crate::custody::{custody_of, Custody};
use crate::error::SwapError;
use crate::ledger::Ledger;
use crate::model::{
    spec_return_escrowed_nft, spec_return_escrowed_sol, spec_transfer_escrowed_sol,
    spec_transfer_initiator_nft_to_receiver, spec_transfer_receiver_nft_to_initiator, SwapState,
};
use crate::offer::{SwapOffer, SwapStatus, MAX_NFTS_PER_SIDE};
use vstd::prelude::*;

verus! {

/// `r` is `outcome` carried out: on success the ledger is the new one, on refusal nothing
/// has changed. The offer stays as it was either way.
pub open spec fn settled(
    outcome: Result<crate::ledger::LedgerView, SwapError>,
    offer_before: SwapOffer,
    ledger_before: Ledger,
    offer_after: SwapOffer,
    ledger_after: Ledger,
    r: Result<(), SwapError>,
) -> bool {
    &&& offer_after == offer_before
    &&& match outcome {
        Ok(ledger) => r is Ok && ledger_after@ == ledger,
        Err(e) => r is Err && r->Err_0 == e && ledger_after == ledger_before,
    }
}

/// The item in slot `nft_index` of `offer`, if the slot is filled.
fn escrowed_item(offer: &SwapOffer, nft_index: u8) -> (item: Option<Address>)
    ensures
        item is Some <==> nft_index < offer@.initiator_nfts.len(),
        item is Some ==> item->0 == offer@.initiator_nfts[nft_index as int],
{
    if (nft_index as usize) < offer.initiator_nft_count as usize && (nft_index as usize)
        < MAX_NFTS_PER_SIDE {
        Some(offer.initiator_nfts[nft_index as usize])
    } else {
        None
    }
}

/// What settling an escrowed item works on: the accepted offer and the ledger.
pub struct TransferEscrowedNft {
    pub offer: SwapOffer,
    pub ledger: Ledger,
}

impl TransferEscrowedNft {
    /// The offer and the ledger, as the model sees them.
    pub open spec fn state(self) -> SwapState {
        SwapState { offer: self.offer@, ledger: self.ledger@ }
    }

    /// `post` and `r` are what settling slot `nft_index` under `custody` makes of `pre`.
    pub open spec fn transferred(
        pre: TransferEscrowedNft,
        post: TransferEscrowedNft,
        custody: Option<Custody>,
        nft_index: u8,
        r: Result<(), SwapError>,
    ) -> bool {
        settled(
            spec_transfer_initiator_nft_to_receiver(pre.state(), custody, nft_index as nat),
            pre.offer,
            pre.ledger,
            post.offer,
            post.ledger,
            r,
        )
    }

    /// Settles slot `nft_index` under the custody addresses `custody`: an accepted offer and
    /// a filled slot are asked for, in this order; then the item of that slot moves from
    /// custody to the receiver.
    pub fn release(&mut self, custody: Option<Custody>, nft_index: u8) -> (r: Result<
        (),
        SwapError,
    >)
        ensures
            TransferEscrowedNft::transferred(*old(self), *final(self), custody, nft_index, r),
    {
        if self.offer.status != SwapStatus::Accepted {
            return Err(SwapError::OfferNotAccepted);
        }
        let item = match escrowed_item(&self.offer, nft_index) {
            Some(item) => item,
            None => {
                return Err(SwapError::InvalidNftIndex);
            },
        };
        let custody = match custody {
            Some(custody) => custody,
            None => {
                return Err(SwapError::CustodyUnavailable);
            },
        };
        self.ledger.transfer_item(item, custody.authority, self.offer.receiver)
    }
}

/// Transfers an escrowed item of the initiator to the receiver, after acceptance: derives
/// the custody addresses of the offer and settles the slot under them.
pub fn transfer_initiator_nft_to_receiver(ctx: &mut TransferEscrowedNft, nft_index: u8) -> (r:
    Result<(), SwapError>)
    ensures
        TransferEscrowedNft::transferred(
            *old(ctx),
            *final(ctx),
            custody_of(old(ctx).offer.offer_id@),
            nft_index,
            r,
        ),
{
    let custody = Custody::locate(ctx.offer.offer_id.as_str());
    ctx.release(custody, nft_index)
}

/// What handing over a receiver's item works on: the accepted offer, the caller, the item,
/// and the ledger.
pub struct TransferReceiverNft {
    pub offer: SwapOffer,
    pub receiver: Address,
    pub nft_mint: Address,
    pub ledger: Ledger,
}

impl TransferReceiverNft {
    /// The offer and the ledger, as the model sees them.
    pub open spec fn state(self) -> SwapState {
        SwapState { offer: self.offer@, ledger: self.ledger@ }
    }

    /// `post` and `r` are what handing the item over makes of `pre`.
    pub open spec fn transferred(
        pre: TransferReceiverNft,
        post: TransferReceiverNft,
        r: Result<(), SwapError>,
    ) -> bool {
        &&& post.receiver == pre.receiver
        &&& post.nft_mint == pre.nft_mint
        &&& settled(
            spec_transfer_receiver_nft_to_initiator(pre.state(), pre.receiver, pre.nft_mint),
            pre.offer,
            pre.ledger,
            post.offer,
            post.ledger,
            r,
        )
    }
}

/// Transfers an item from the receiver to the initiator, after acceptance: an accepted offer
/// and the receiver calling are asked for, in this order; then the item moves from the
/// caller straight to the initiator.
pub fn transfer_receiver_nft_to_initiator(ctx: &mut TransferReceiverNft) -> (r: Result<
    (),
    SwapError,
>)
    ensures
        TransferReceiverNft::transferred(*old(ctx), *final(ctx), r),
{
    if ctx.offer.status != SwapStatus::Accepted {
        return Err(SwapError::OfferNotAccepted);
    }
    if !(ctx.receiver == ctx.offer.receiver) {
        return Err(SwapError::NotReceiver);
    }
    ctx.ledger.transfer_item(ctx.nft_mint, ctx.receiver, ctx.offer.initiator)
}

/// What settling the escrowed amount works on: the accepted offer and the ledger.
pub struct TransferEscrowedSol {
    pub offer: SwapOffer,
    pub ledger: Ledger,
}

impl TransferEscrowedSol {
    /// The offer and the ledger, as the model sees them.
    pub open spec fn state(self) -> SwapState {
        SwapState { offer: self.offer@, ledger: self.ledger@ }
    }

    /// `post` and `r` are what settling the amount under `custody` makes of `pre`.
    pub open spec fn transferred(
        pre: TransferEscrowedSol,
        post: TransferEscrowedSol,
        custody: Option<Custody>,
        r: Result<(), SwapError>,
    ) -> bool {
        settled(
            spec_transfer_escrowed_sol(pre.state(), custody),
            pre.offer,
            pre.ledger,
            post.offer,
            post.ledger,
            r,
        )
    }

    /// Settles the amount under the custody addresses `custody`: an accepted offer is asked
    /// for; then the initiator's amount, where it is not zero, moves from the vault to the
    /// receiver.
    pub fn release(&mut self, custody: Option<Custody>) -> (r: Result<(), SwapError>)
        ensures
            TransferEscrowedSol::transferred(*old(self), *final(self), custody, r),
    {
        if self.offer.status != SwapStatus::Accepted {
            return Err(SwapError::OfferNotAccepted);
        }
        let custody = match custody {
            Some(custody) => custody,
            None => {
                return Err(SwapError::CustodyUnavailable);
            },
        };
        move_amount(&mut self.ledger, custody.vault, self.offer.receiver, self.offer.initiator_sol)
    }
}

/// Moves `lamports` from `from` to `to` where it is not zero, and nothing where it is.
fn move_amount(ledger: &mut Ledger, from: Address, to: Address, lamports: u64) -> (r: Result<
    (),
    SwapError,
>)
    ensures
        match old(ledger)@.transfer_lamports(from, to, lamports as nat) {
            Ok(moved) => r is Ok && final(ledger)@ == moved,
            Err(e) => r is Err && r->Err_0 == e && *final(ledger) == *old(ledger),
        },
{
    if lamports > 0 {
        ledger.transfer_lamports(from, to, lamports)
    } else {
        proof {
            ledger.lemma_view_total();
            assert(ledger@.transfer_lamports(from, to, 0)->Ok_0.balances =~= ledger@.balances);
        }
        Ok(())
    }
}

/// Transfers the escrowed amount to the receiver, after acceptance: derives the custody
/// addresses of the offer and settles the amount under them.
pub fn transfer_escrowed_sol(ctx: &mut TransferEscrowedSol) -> (r: Result<(), SwapError>)
    ensures
        TransferEscrowedSol::transferred(
            *old(ctx),
            *final(ctx),
            custody_of(old(ctx).offer.offer_id@),
            r,
        ),
{
    let custody = Custody::locate(ctx.offer.offer_id.as_str());
    ctx.release(custody)
}

/// What returning an escrowed item works on: the cancelled offer and the ledger.
pub struct ReturnEscrowedNft {
    pub offer: SwapOffer,
    pub ledger: Ledger,
}

impl ReturnEscrowedNft {
    /// The offer and the ledger, as the model sees them.
    pub open spec fn state(self) -> SwapState {
        SwapState { offer: self.offer@, ledger: self.ledger@ }
    }

    /// `post` and `r` are what returning slot `nft_index` under `custody` makes of `pre`.
    pub open spec fn returned(
        pre: ReturnEscrowedNft,
        post: ReturnEscrowedNft,
        custody: Option<Custody>,
        nft_index: u8,
        r: Result<(), SwapError>,
    ) -> bool {
        settled(
            spec_return_escrowed_nft(pre.state(), custody, nft_index as nat),
            pre.offer,
            pre.ledger,
            post.offer,
            post.ledger,
            r,
        )
    }

    /// Returns slot `nft_index` under the custody addresses `custody`: a cancelled offer and
    /// a filled slot are asked for, in this order; then the item of that slot moves from
    /// custody back to the initiator.
    pub fn refund(&mut self, custody: Option<Custody>, nft_index: u8) -> (r: Result<
        (),
        SwapError,
    >)
        ensures
            ReturnEscrowedNft::returned(*old(self), *final(self), custody, nft_index, r),
    {
        if self.offer.status != SwapStatus::Cancelled {
            return Err(SwapError::OfferNotCancelled);
        }
        let item = match escrowed_item(&self.offer, nft_index) {
            Some(item) => item,
            None => {
                return Err(SwapError::InvalidNftIndex);
            },
        };
        let custody = match custody {
            Some(custody) => custody,
            None => {
                return Err(SwapError::CustodyUnavailable);
            },
        };
        self.ledger.transfer_item(item, custody.authority, self.offer.initiator)
    }
}

/// Returns an escrowed item to the initiator, after cancellation: derives the custody
/// addresses of the offer and returns the slot under them.
pub fn return_escrowed_nft(ctx: &mut ReturnEscrowedNft, nft_index: u8) -> (r: Result<
    (),
    SwapError,
>)
    ensures
        ReturnEscrowedNft::returned(
            *old(ctx),
            *final(ctx),
            custody_of(old(ctx).offer.offer_id@),
            nft_index,
            r,
        ),
{
    let custody = Custody::locate(ctx.offer.offer_id.as_str());
    ctx.refund(custody, nft_index)
}

/// What returning the escrowed amount works on: the cancelled offer and the ledger.
pub struct ReturnEscrowedSol {
    pub offer: SwapOffer,
    pub ledger: Ledger,
}

impl ReturnEscrowedSol {
    /// The offer and the ledger, as the model sees them.
    pub open spec fn state(self) -> SwapState {
        SwapState { offer: self.offer@, ledger: self.ledger@ }
    }

    /// `post` and `r` are what returning the amount under `custody` makes of `pre`.
    pub open spec fn returned(
        pre: ReturnEscrowedSol,
        post: ReturnEscrowedSol,
        custody: Option<Custody>,
        r: Result<(), SwapError>,
    ) -> bool {
        settled(
            spec_return_escrowed_sol(pre.state(), custody),
            pre.offer,
            pre.ledger,
            post.offer,
            post.ledger,
            r,
        )
    }

    /// Returns the amount under the custody addresses `custody`: a cancelled offer is asked
    /// for; then the initiator's amount, where it is not zero, moves from the vault back to
    /// the initiator.
    pub fn refund(&mut self, custody: Option<Custody>) -> (r: Result<(), SwapError>)
        ensures
            ReturnEscrowedSol::returned(*old(self), *final(self), custody, r),
    {
        if self.offer.status != SwapStatus::Cancelled {
            return Err(SwapError::OfferNotCancelled);
        }
        let custody = match custody {
            Some(custody) => custody,
            None => {
                return Err(SwapError::CustodyUnavailable);
            },
        };
        move_amount(&mut self.ledger, custody.vault, self.offer.initiator, self.offer.initiator_sol)
    }
}

/// Returns the escrowed amount to the initiator, after cancellation: derives the custody
/// addresses of the offer and returns the amount under them.
pub fn return_escrowed_sol(ctx: &mut ReturnEscrowedSol) -> (r: Result<(), SwapError>)
    ensures
        ReturnEscrowedSol::returned(
            *old(ctx),
            *final(ctx),
            custody_of(old(ctx).offer.offer_id@),
            r,
        ),
{
    let custody = Custody::locate(ctx.offer.offer_id.as_str());
    ctx.refund(custody)
}

} // verus!
