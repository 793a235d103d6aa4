use crate::address::Address;
use crate::custody::{custody_of, Custody};
use crate::error::SwapError;
use crate::events::{OfferAccepted, OfferCancelled, OfferCreated};
use crate::ledger::Ledger;
use crate::model::{
    spec_accept_offer, spec_cancel_offer, spec_create_offer, spec_escrow_initiator_nft, SwapState,
};
use crate::offer::{SwapOffer, SwapStatus, MAX_NFTS_PER_SIDE, PLATFORM_FEE};
use vstd::prelude::*;

verus! {

/// What creating an offer works on: the slot for the new record, the two parties, and the
/// ledger that holds the initiator's balance.
pub struct CreateOffer {
    pub offer: SwapOffer,
    pub initiator: Address,
    pub receiver: Address,
    pub ledger: Ledger,
}

impl CreateOffer {
    /// `post` and `r` are what creating an offer under `custody` makes of `pre`: the new
    /// record, the amount escrowed and the notice, or the error with nothing changed.
    pub open spec fn created(
        pre: CreateOffer,
        post: CreateOffer,
        custody: Option<Custody>,
        offer_id: Seq<char>,
        initiator_sol: u64,
        receiver_sol: u64,
        now: i64,
        r: Result<OfferCreated, SwapError>,
    ) -> bool {
        match spec_create_offer(
            pre.ledger@,
            custody,
            pre.initiator,
            pre.receiver,
            offer_id,
            initiator_sol as nat,
            receiver_sol as nat,
            now as int,
        ) {
            Ok(next) => {
                &&& r is Ok
                &&& r->Ok_0.offer_id@ == offer_id
                &&& r->Ok_0.initiator == pre.initiator
                &&& r->Ok_0.receiver == pre.receiver
                &&& r->Ok_0.created_at == now
                &&& post.offer@ == next.offer
                &&& post.offer.well_formed()
                &&& post.ledger@ == next.ledger
                &&& post.initiator == pre.initiator
                &&& post.receiver == pre.receiver
            },
            Err(e) => r is Err && r->Err_0 == e && post == pre,
        }
    }

    /// Creates the offer `offer_id` under the custody addresses `custody`: escrows
    /// `initiator_sol` from the initiator in the vault, where it is not zero, and writes the
    /// pending record.
    pub fn open(
        &mut self,
        custody: Option<Custody>,
        offer_id: String,
        initiator_sol: u64,
        receiver_sol: u64,
        now: i64,
    ) -> (r: Result<OfferCreated, SwapError>)
        ensures
            CreateOffer::created(
                *old(self),
                *final(self),
                custody,
                offer_id@,
                initiator_sol,
                receiver_sol,
                now,
                r,
            ),
    {
        let custody = match custody {
            Some(custody) => custody,
            None => {
                return Err(SwapError::CustodyUnavailable);
            },
        };
        if initiator_sol > 0 {
            match self.ledger.transfer_lamports(self.initiator, custody.vault, initiator_sol) {
                Ok(()) => {},
                Err(e) => {
                    return Err(e);
                },
            }
        } else {
            proof {
                let before = self.ledger@;
                self.ledger.lemma_view_total();
                assert(before.transfer_lamports(self.initiator, custody.vault, 0)->Ok_0.balances
                    =~= before.balances);
            }
        }
        let notice = OfferCreated {
            offer_id: offer_id.clone(),
            initiator: self.initiator,
            receiver: self.receiver,
            created_at: now,
        };
        let nobody = Address::new([0u8; 32]);
        self.offer = SwapOffer {
            initiator: self.initiator,
            receiver: self.receiver,
            offer_id,
            initiator_nfts: [nobody; MAX_NFTS_PER_SIDE],
            initiator_nft_count: 0,
            receiver_nfts: [nobody; MAX_NFTS_PER_SIDE],
            receiver_nft_count: 0,
            initiator_sol,
            receiver_sol,
            status: SwapStatus::Pending,
            created_at: now,
            accepted_at: None,
            cancelled_at: None,
            bump: custody.bump,
        };
        proof {
            assert(self.offer@.initiator_nfts =~= Seq::<Address>::empty());
            assert(self.offer@.receiver_nfts =~= Seq::<Address>::empty());
        }
        Ok(notice)
    }
}

/// Creates a new swap offer and escrows the initiator's amount: derives the custody
/// addresses of `offer_id` and creates the offer under them.
pub fn create_offer(
    ctx: &mut CreateOffer,
    offer_id: String,
    initiator_sol: u64,
    receiver_sol: u64,
    now: i64,
) -> (r: Result<OfferCreated, SwapError>)
    ensures
        CreateOffer::created(
            *old(ctx),
            *final(ctx),
            custody_of(offer_id@),
            offer_id@,
            initiator_sol,
            receiver_sol,
            now,
            r,
        ),
{
    let custody = Custody::locate(offer_id.as_str());
    ctx.open(custody, offer_id, initiator_sol, receiver_sol, now)
}

/// What pledging an item works on: the offer, the caller who owns the item, the item, and
/// the ledger that says who holds it.
pub struct EscrowNft {
    pub offer: SwapOffer,
    pub owner: Address,
    pub nft_mint: Address,
    pub ledger: Ledger,
}

impl EscrowNft {
    /// The offer and the ledger, as the model sees them.
    pub open spec fn state(self) -> SwapState {
        SwapState { offer: self.offer@, ledger: self.ledger@ }
    }

    /// `post` and `r` are what pledging the item under `custody` makes of `pre`: the item in
    /// custody and in the next slot, or the error with nothing changed.
    pub open spec fn escrowed(
        pre: EscrowNft,
        post: EscrowNft,
        custody: Option<Custody>,
        r: Result<(), SwapError>,
    ) -> bool {
        match spec_escrow_initiator_nft(pre.state(), custody, pre.owner, pre.nft_mint) {
            Ok(next) => {
                &&& r is Ok
                &&& post.state() == next
                &&& pre.offer.well_formed() ==> post.offer.well_formed()
                &&& post.owner == pre.owner
                &&& post.nft_mint == pre.nft_mint
            },
            Err(e) => r is Err && r->Err_0 == e && post == pre,
        }
    }

    /// Pledges the item under the custody addresses `custody`: a pending offer, the
    /// initiator calling, and a free slot are asked for, in this order; then the item moves
    /// from the caller into custody and is appended to the initiator's list.
    pub fn deposit(&mut self, custody: Option<Custody>) -> (r: Result<(), SwapError>)
        ensures
            EscrowNft::escrowed(*old(self), *final(self), custody, r),
    {
        if self.offer.status != SwapStatus::Pending {
            return Err(SwapError::OfferNotPending);
        }
        if !(self.owner == self.offer.initiator) {
            return Err(SwapError::NotInitiator);
        }
        if self.offer.initiator_nft_count >= MAX_NFTS_PER_SIDE as u8 {
            return Err(SwapError::MaxNftsExceeded);
        }
        let custody = match custody {
            Some(custody) => custody,
            None => {
                return Err(SwapError::CustodyUnavailable);
            },
        };
        match self.ledger.transfer_item(self.nft_mint, self.owner, custody.authority) {
            Ok(()) => {},
            Err(e) => {
                return Err(e);
            },
        }
        let slot = self.offer.initiator_nft_count as usize;
        self.offer.initiator_nfts[slot] = self.nft_mint;
        self.offer.initiator_nft_count += 1;
        proof {
            assert(self.offer@.initiator_nfts =~= old(self).offer@.initiator_nfts.push(
                self.nft_mint,
            ));
        }
        Ok(())
    }
}

/// Escrows one item of the initiator: derives the custody addresses of the offer and pledges
/// the item under them.
pub fn escrow_initiator_nft(ctx: &mut EscrowNft) -> (r: Result<(), SwapError>)
    ensures
        EscrowNft::escrowed(*old(ctx), *final(ctx), custody_of(old(ctx).offer.offer_id@), r),
{
    let custody = Custody::locate(ctx.offer.offer_id.as_str());
    ctx.deposit(custody)
}

/// What accepting works on: the offer, the caller, the account that collects the fee, and
/// the ledger that holds the caller's balance.
pub struct AcceptOffer {
    pub offer: SwapOffer,
    pub receiver: Address,
    pub fee_collector: Address,
    pub ledger: Ledger,
}

impl AcceptOffer {
    /// The offer and the ledger, as the model sees them.
    pub open spec fn state(self) -> SwapState {
        SwapState { offer: self.offer@, ledger: self.ledger@ }
    }

    /// `post` and `r` are what accepting at `now` makes of `pre`: the fee paid, the offer
    /// accepted and the notice, or the error with nothing changed.
    pub open spec fn accepted(
        pre: AcceptOffer,
        post: AcceptOffer,
        now: i64,
        r: Result<OfferAccepted, SwapError>,
    ) -> bool {
        match spec_accept_offer(pre.state(), pre.receiver, pre.fee_collector, now as int) {
            Ok(next) => {
                &&& r is Ok
                &&& r->Ok_0.offer_id@ == pre.offer@.offer_id
                &&& r->Ok_0.accepted_at == now
                &&& post.state() == next
                &&& pre.offer.well_formed() ==> post.offer.well_formed()
                &&& post.receiver == pre.receiver
                &&& post.fee_collector == pre.fee_collector
            },
            Err(e) => r is Err && r->Err_0 == e && post == pre,
        }
    }
}

/// Accepts the offer: a pending offer and the receiver calling are asked for, in this order;
/// then the platform fee moves from the receiver to the fee collector, and the offer becomes
/// accepted at `now`.
pub fn accept_offer(ctx: &mut AcceptOffer, now: i64) -> (r: Result<OfferAccepted, SwapError>)
    ensures
        AcceptOffer::accepted(*old(ctx), *final(ctx), now, r),
{
    if ctx.offer.status != SwapStatus::Pending {
        return Err(SwapError::OfferNotPending);
    }
    if !(ctx.receiver == ctx.offer.receiver) {
        return Err(SwapError::NotReceiver);
    }
    match ctx.ledger.transfer_lamports(ctx.receiver, ctx.fee_collector, PLATFORM_FEE) {
        Ok(()) => {},
        Err(e) => {
            return Err(e);
        },
    }
    ctx.offer.status = SwapStatus::Accepted;
    ctx.offer.accepted_at = Some(now);
    Ok(OfferAccepted { offer_id: ctx.offer.offer_id.clone(), accepted_at: now })
}

/// What cancelling works on: the offer and the caller.
pub struct CancelOffer {
    pub offer: SwapOffer,
    pub authority: Address,
}

impl CancelOffer {
    /// `post` and `r` are what cancelling at `now` makes of `pre`: the offer cancelled and
    /// the notice, or the error with nothing changed.
    pub open spec fn cancelled(
        pre: CancelOffer,
        post: CancelOffer,
        now: i64,
        r: Result<OfferCancelled, SwapError>,
    ) -> bool {
        match spec_cancel_offer(pre.offer@, pre.authority, now as int) {
            Ok(next) => {
                &&& r is Ok
                &&& r->Ok_0.offer_id@ == pre.offer@.offer_id
                &&& r->Ok_0.cancelled_at == now
                &&& post.offer@ == next
                &&& pre.offer.well_formed() ==> post.offer.well_formed()
                &&& post.authority == pre.authority
            },
            Err(e) => r is Err && r->Err_0 == e && post == pre,
        }
    }
}

/// Cancels the offer: a pending offer and the initiator calling are asked for, in this
/// order; then the offer becomes cancelled at `now`. No asset moves.
pub fn cancel_offer(ctx: &mut CancelOffer, now: i64) -> (r: Result<OfferCancelled, SwapError>)
    ensures
        CancelOffer::cancelled(*old(ctx), *final(ctx), now, r),
{
    if ctx.offer.status != SwapStatus::Pending {
        return Err(SwapError::OfferNotPending);
    }
    if !(ctx.authority == ctx.offer.initiator) {
        return Err(SwapError::NotInitiator);
    }
    ctx.offer.status = SwapStatus::Cancelled;
    ctx.offer.cancelled_at = Some(now);
    Ok(OfferCancelled { offer_id: ctx.offer.offer_id.clone(), cancelled_at: now })
}

} // verus!
