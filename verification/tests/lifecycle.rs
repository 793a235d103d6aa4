use midswap::{
    accept_offer, cancel_offer, create_offer, escrow_initiator_nft, AcceptOffer, Address,
    CancelOffer, CreateOffer, Custody, ErrorKind, EscrowNft, Ledger, SwapError, SwapOffer,
    SwapStatus, MAX_NFTS_PER_SIDE, PLATFORM_FEE,
};

fn addr(n: u8) -> Address {
    Address::new([n; 32])
}

fn initiator() -> Address {
    addr(1)
}

fn receiver() -> Address {
    addr(2)
}

fn collector() -> Address {
    addr(3)
}

/// A ledger in which the initiator and the receiver hold `lamports` each and the initiator
/// holds the items 50..=56.
fn funded(lamports: u64) -> Ledger {
    let mut ledger = Ledger::new();
    assert!(ledger.credit(initiator(), lamports));
    assert!(ledger.credit(receiver(), lamports));
    for n in 50..=56u8 {
        ledger.assign(addr(n), initiator());
    }
    ledger
}

fn created(id: &str, initiator_sol: u64, lamports: u64) -> (SwapOffer, Ledger) {
    let mut ctx = CreateOffer {
        offer: SwapOffer::default(),
        initiator: initiator(),
        receiver: receiver(),
        ledger: funded(lamports),
    };
    create_offer(&mut ctx, id.to_string(), initiator_sol, 0, 1_000).unwrap();
    (ctx.offer, ctx.ledger)
}

#[test]
fn blank_offer_is_pending_and_empty() {
    let offer = SwapOffer::default();
    assert_eq!(offer.status, SwapStatus::Pending);
    assert_eq!(offer.offer_id, "");
    assert_eq!(offer.initiator_nft_count, 0);
    assert_eq!(offer.receiver_nft_count, 0);
    assert_eq!(offer.initiator_sol, 0);
    assert_eq!(offer.receiver_sol, 0);
    assert_eq!(offer.accepted_at, None);
    assert_eq!(offer.cancelled_at, None);
}

#[test]
fn platform_parameters_are_fixed() {
    assert_eq!(PLATFORM_FEE, 10_000_000);
    assert_eq!(MAX_NFTS_PER_SIDE, 5);
}

#[test]
fn create_offer_records_the_terms() {
    let mut ctx = CreateOffer {
        offer: SwapOffer::default(),
        initiator: initiator(),
        receiver: receiver(),
        ledger: funded(5_000_000),
    };
    let notice = create_offer(&mut ctx, "trade-1".to_string(), 2_000_000, 750, 1_700_000_000)
        .unwrap();
    let custody = Custody::locate("trade-1").unwrap();
    assert_eq!(notice.offer_id, "trade-1");
    assert_eq!(notice.initiator, initiator());
    assert_eq!(notice.receiver, receiver());
    assert_eq!(notice.created_at, 1_700_000_000);
    assert_eq!(ctx.offer.initiator, initiator());
    assert_eq!(ctx.offer.receiver, receiver());
    assert_eq!(ctx.offer.offer_id, "trade-1");
    assert_eq!(ctx.offer.initiator_nft_count, 0);
    assert_eq!(ctx.offer.receiver_nft_count, 0);
    assert_eq!(ctx.offer.initiator_sol, 2_000_000);
    assert_eq!(ctx.offer.receiver_sol, 750);
    assert_eq!(ctx.offer.status, SwapStatus::Pending);
    assert_eq!(ctx.offer.created_at, 1_700_000_000);
    assert_eq!(ctx.offer.accepted_at, None);
    assert_eq!(ctx.offer.cancelled_at, None);
    assert_eq!(ctx.offer.bump, custody.bump);
    assert_eq!(ctx.initiator, initiator());
    assert_eq!(ctx.receiver, receiver());
}

#[test]
fn create_offer_escrows_the_amount_in_the_vault() {
    let (_, ledger) = created("trade-1", 2_000_000, 5_000_000);
    let custody = Custody::locate("trade-1").unwrap();
    assert_eq!(ledger.balance(&initiator()), 3_000_000);
    assert_eq!(ledger.balance(&custody.vault), 2_000_000);
    assert_eq!(ledger.balance(&custody.authority), 0);
    assert_eq!(ledger.balance(&receiver()), 5_000_000);
    assert_eq!(ledger.supply(), 10_000_000);
}

#[test]
fn create_offer_with_no_amount_moves_nothing() {
    let (offer, ledger) = created("trade-1", 0, 5_000_000);
    let custody = Custody::locate("trade-1").unwrap();
    assert_eq!(offer.initiator_sol, 0);
    assert_eq!(ledger.balance(&initiator()), 5_000_000);
    assert_eq!(ledger.balance(&custody.vault), 0);
}

#[test]
fn create_offer_needs_the_amount_in_the_wallet() {
    let mut ctx = CreateOffer {
        offer: SwapOffer::default(),
        initiator: initiator(),
        receiver: receiver(),
        ledger: funded(1_999_999),
    };
    let refused = create_offer(&mut ctx, "trade-1".to_string(), 2_000_000, 0, 1_000);
    let custody = Custody::locate("trade-1").unwrap();
    assert_eq!(refused.unwrap_err(), SwapError::InsufficientFunds);
    assert_eq!(ctx.offer.offer_id, "");
    assert_eq!(ctx.offer.initiator_sol, 0);
    assert_eq!(ctx.ledger.balance(&initiator()), 1_999_999);
    assert_eq!(ctx.ledger.balance(&custody.vault), 0);
}

#[test]
fn create_offer_needs_an_identifier_that_derives_custody() {
    let mut ctx = CreateOffer {
        offer: SwapOffer::default(),
        initiator: initiator(),
        receiver: receiver(),
        ledger: funded(5_000_000),
    };
    let refused = create_offer(&mut ctx, "x".repeat(33), 2_000_000, 0, 1_000);
    assert_eq!(refused.unwrap_err(), SwapError::CustodyUnavailable);
    assert_eq!(SwapError::CustodyUnavailable.kind(), ErrorKind::CustodyUnavailable);
    assert_eq!(ctx.offer.offer_id, "");
    assert_eq!(ctx.ledger.balance(&initiator()), 5_000_000);
}

#[test]
fn open_uses_the_custody_it_is_given() {
    let mut ctx = CreateOffer {
        offer: SwapOffer::default(),
        initiator: initiator(),
        receiver: receiver(),
        ledger: funded(5_000_000),
    };
    let custody = Custody { authority: addr(90), bump: 17, vault: addr(91) };
    ctx.open(Some(custody), "trade-1".to_string(), 1_234, 0, 1_000).unwrap();
    assert_eq!(ctx.offer.bump, 17);
    assert_eq!(ctx.ledger.balance(&addr(91)), 1_234);
    assert_eq!(ctx.ledger.balance(&initiator()), 5_000_000 - 1_234);

    let mut none = CreateOffer {
        offer: SwapOffer::default(),
        initiator: initiator(),
        receiver: receiver(),
        ledger: funded(5_000_000),
    };
    let refused = none.open(None, "trade-1".to_string(), 1_234, 0, 1_000);
    assert_eq!(refused.unwrap_err(), SwapError::CustodyUnavailable);
    assert_eq!(none.ledger.balance(&initiator()), 5_000_000);
}

#[test]
fn escrow_moves_the_item_into_custody_and_fills_the_first_slot() {
    let (offer, ledger) = created("trade-1", 0, 5_000_000);
    let custody = Custody::locate("trade-1").unwrap();
    let mut ctx = EscrowNft { offer, owner: initiator(), nft_mint: addr(50), ledger };
    assert_eq!(escrow_initiator_nft(&mut ctx), Ok(()));
    assert_eq!(ctx.offer.initiator_nft_count, 1);
    assert_eq!(ctx.offer.initiator_nfts[0], addr(50));
    assert_eq!(ctx.offer.receiver_nft_count, 0);
    assert_eq!(ctx.offer.status, SwapStatus::Pending);
    assert_eq!(ctx.ledger.holder(&addr(50)), Some(custody.authority));
    assert_eq!(ctx.ledger.holder(&addr(51)), Some(initiator()));
}

#[test]
fn five_escrows_fill_the_slots_in_call_order_and_the_sixth_is_refused() {
    let (mut offer, mut ledger) = created("trade-1", 0, 5_000_000);
    let custody = Custody::locate("trade-1").unwrap();
    let order = [53u8, 50, 54, 51, 52];
    for n in order {
        let mut ctx = EscrowNft { offer, owner: initiator(), nft_mint: addr(n), ledger };
        assert_eq!(escrow_initiator_nft(&mut ctx), Ok(()));
        offer = ctx.offer;
        ledger = ctx.ledger;
    }
    assert_eq!(offer.initiator_nft_count, 5);
    for (slot, n) in order.iter().enumerate() {
        assert_eq!(offer.initiator_nfts[slot], addr(*n));
        assert_eq!(ledger.holder(&addr(*n)), Some(custody.authority));
    }
    let mut sixth = EscrowNft { offer, owner: initiator(), nft_mint: addr(55), ledger };
    let refused = escrow_initiator_nft(&mut sixth);
    assert_eq!(refused, Err(SwapError::MaxNftsExceeded));
    assert_eq!(refused.unwrap_err().kind(), ErrorKind::CapacityExceeded);
    assert_eq!(sixth.offer.initiator_nft_count, 5);
    assert_eq!(sixth.ledger.holder(&addr(55)), Some(initiator()));
    for (slot, n) in order.iter().enumerate() {
        assert_eq!(sixth.offer.initiator_nfts[slot], addr(*n));
    }
}

#[test]
fn escrow_is_for_the_initiator_only() {
    let (offer, ledger) = created("trade-1", 0, 5_000_000);
    let mut ctx = EscrowNft { offer, owner: receiver(), nft_mint: addr(50), ledger };
    assert_eq!(escrow_initiator_nft(&mut ctx), Err(SwapError::NotInitiator));
    assert_eq!(SwapError::NotInitiator.kind(), ErrorKind::Unauthorized);
    assert_eq!(ctx.offer.initiator_nft_count, 0);
    assert_eq!(ctx.ledger.holder(&addr(50)), Some(initiator()));
}

#[test]
fn escrow_needs_the_item_in_the_callers_hands() {
    let (offer, mut ledger) = created("trade-1", 0, 5_000_000);
    ledger.assign(addr(60), receiver());
    let mut held_elsewhere = EscrowNft { offer, owner: initiator(), nft_mint: addr(60), ledger };
    assert_eq!(escrow_initiator_nft(&mut held_elsewhere), Err(SwapError::AssetUnavailable));
    assert_eq!(held_elsewhere.offer.initiator_nft_count, 0);
    assert_eq!(held_elsewhere.ledger.holder(&addr(60)), Some(receiver()));

    let mut unknown = EscrowNft {
        offer: held_elsewhere.offer,
        owner: initiator(),
        nft_mint: addr(61),
        ledger: held_elsewhere.ledger,
    };
    assert_eq!(escrow_initiator_nft(&mut unknown), Err(SwapError::AssetUnavailable));
    assert_eq!(unknown.offer.initiator_nft_count, 0);
}

#[test]
fn escrow_of_the_same_item_twice_is_refused() {
    let (offer, ledger) = created("trade-1", 0, 5_000_000);
    let mut ctx = EscrowNft { offer, owner: initiator(), nft_mint: addr(50), ledger };
    assert_eq!(escrow_initiator_nft(&mut ctx), Ok(()));
    assert_eq!(escrow_initiator_nft(&mut ctx), Err(SwapError::AssetUnavailable));
    assert_eq!(ctx.offer.initiator_nft_count, 1);
}

#[test]
fn escrow_is_for_pending_offers_only() {
    for status in [SwapStatus::Accepted, SwapStatus::Cancelled, SwapStatus::Expired] {
        let (mut offer, ledger) = created("trade-1", 0, 5_000_000);
        offer.status = status;
        let mut ctx = EscrowNft { offer, owner: initiator(), nft_mint: addr(50), ledger };
        assert_eq!(escrow_initiator_nft(&mut ctx), Err(SwapError::OfferNotPending));
        assert_eq!(ctx.offer.initiator_nft_count, 0);
        assert_eq!(ctx.ledger.holder(&addr(50)), Some(initiator()));
    }
}

#[test]
fn escrow_asks_for_status_then_caller_then_capacity() {
    let (mut offer, ledger) = created("trade-1", 0, 5_000_000);
    offer.initiator_nft_count = 5;
    offer.status = SwapStatus::Accepted;
    let mut ctx = EscrowNft { offer, owner: receiver(), nft_mint: addr(60), ledger };
    assert_eq!(escrow_initiator_nft(&mut ctx), Err(SwapError::OfferNotPending));
    ctx.offer.status = SwapStatus::Pending;
    assert_eq!(escrow_initiator_nft(&mut ctx), Err(SwapError::NotInitiator));
    ctx.owner = initiator();
    assert_eq!(escrow_initiator_nft(&mut ctx), Err(SwapError::MaxNftsExceeded));
    ctx.offer.initiator_nft_count = 4;
    assert_eq!(escrow_initiator_nft(&mut ctx), Err(SwapError::AssetUnavailable));
}

#[test]
fn deposit_uses_the_custody_it_is_given() {
    let (offer, ledger) = created("trade-1", 0, 5_000_000);
    let custody = Custody { authority: addr(90), bump: 17, vault: addr(91) };
    let mut ctx = EscrowNft { offer, owner: initiator(), nft_mint: addr(50), ledger };
    assert_eq!(ctx.deposit(None), Err(SwapError::CustodyUnavailable));
    assert_eq!(ctx.ledger.holder(&addr(50)), Some(initiator()));
    assert_eq!(ctx.deposit(Some(custody)), Ok(()));
    assert_eq!(ctx.ledger.holder(&addr(50)), Some(addr(90)));
}

#[test]
fn accept_charges_the_fee_and_commits_the_offer() {
    let (offer, ledger) = created("trade-1", 2_000_000, 50_000_000);
    let mut ctx = AcceptOffer { offer, receiver: receiver(), fee_collector: collector(), ledger };
    let notice = accept_offer(&mut ctx, 2_000).unwrap();
    assert_eq!(notice.offer_id, "trade-1");
    assert_eq!(notice.accepted_at, 2_000);
    assert_eq!(ctx.offer.status, SwapStatus::Accepted);
    assert_eq!(ctx.offer.accepted_at, Some(2_000));
    assert_eq!(ctx.offer.cancelled_at, None);
    assert_eq!(ctx.offer.created_at, 1_000);
    assert_eq!(ctx.ledger.balance(&receiver()), 40_000_000);
    assert_eq!(ctx.ledger.balance(&collector()), 10_000_000);
    assert_eq!(ctx.ledger.balance(&initiator()), 48_000_000);
}

#[test]
fn accept_is_for_the_receiver_only() {
    let (offer, ledger) = created("trade-1", 0, 50_000_000);
    let mut ctx = AcceptOffer { offer, receiver: initiator(), fee_collector: collector(), ledger };
    let refused = accept_offer(&mut ctx, 2_000).unwrap_err();
    assert_eq!(refused, SwapError::NotReceiver);
    assert_eq!(refused.kind(), ErrorKind::Unauthorized);
    assert_eq!(ctx.offer.status, SwapStatus::Pending);
    assert_eq!(ctx.offer.accepted_at, None);
    assert_eq!(ctx.ledger.balance(&initiator()), 50_000_000);
    assert_eq!(ctx.ledger.balance(&collector()), 0);
}

#[test]
fn accept_needs_the_fee_in_the_receivers_wallet() {
    let (offer, ledger) = created("trade-1", 0, 9_999_999);
    let mut ctx = AcceptOffer { offer, receiver: receiver(), fee_collector: collector(), ledger };
    let refused = accept_offer(&mut ctx, 2_000).unwrap_err();
    assert_eq!(refused, SwapError::InsufficientFunds);
    assert_eq!(refused.kind(), ErrorKind::InsufficientFunds);
    assert_eq!(ctx.offer.status, SwapStatus::Pending);
    assert_eq!(ctx.offer.accepted_at, None);
    assert_eq!(ctx.ledger.balance(&receiver()), 9_999_999);
    assert_eq!(ctx.ledger.balance(&collector()), 0);
}

#[test]
fn accept_works_only_once() {
    let (offer, ledger) = created("trade-1", 0, 50_000_000);
    let mut ctx = AcceptOffer { offer, receiver: receiver(), fee_collector: collector(), ledger };
    assert!(accept_offer(&mut ctx, 2_000).is_ok());
    let again = accept_offer(&mut ctx, 900_000_000).unwrap_err();
    assert_eq!(again, SwapError::OfferNotPending);
    assert_eq!(again.kind(), ErrorKind::StatusMismatch);
    assert_eq!(ctx.offer.accepted_at, Some(2_000));
    assert_eq!(ctx.ledger.balance(&receiver()), 40_000_000);
    assert_eq!(ctx.ledger.balance(&collector()), 10_000_000);
}

#[test]
fn accept_is_for_pending_offers_only() {
    for status in [SwapStatus::Cancelled, SwapStatus::Expired] {
        let (mut offer, ledger) = created("trade-1", 0, 50_000_000);
        offer.status = status;
        let mut ctx =
            AcceptOffer { offer, receiver: receiver(), fee_collector: collector(), ledger };
        assert_eq!(accept_offer(&mut ctx, 2_000).unwrap_err(), SwapError::OfferNotPending);
        assert_eq!(ctx.offer.status, status);
        assert_eq!(ctx.ledger.balance(&receiver()), 50_000_000);
    }
}

#[test]
fn cancel_marks_the_offer_cancelled() {
    let (offer, _) = created("trade-1", 0, 50_000_000);
    let mut ctx = CancelOffer { offer, authority: initiator() };
    let notice = cancel_offer(&mut ctx, 3_000).unwrap();
    assert_eq!(notice.offer_id, "trade-1");
    assert_eq!(notice.cancelled_at, 3_000);
    assert_eq!(ctx.offer.status, SwapStatus::Cancelled);
    assert_eq!(ctx.offer.cancelled_at, Some(3_000));
    assert_eq!(ctx.offer.accepted_at, None);
}

#[test]
fn cancel_is_for_the_initiator_only() {
    let (offer, _) = created("trade-1", 0, 50_000_000);
    let mut ctx = CancelOffer { offer, authority: receiver() };
    assert_eq!(cancel_offer(&mut ctx, 3_000).unwrap_err(), SwapError::NotInitiator);
    assert_eq!(ctx.offer.status, SwapStatus::Pending);
    assert_eq!(ctx.offer.cancelled_at, None);
}

#[test]
fn cancel_works_only_once() {
    let (offer, _) = created("trade-1", 0, 50_000_000);
    let mut ctx = CancelOffer { offer, authority: initiator() };
    assert!(cancel_offer(&mut ctx, 3_000).is_ok());
    assert_eq!(cancel_offer(&mut ctx, 4_000).unwrap_err(), SwapError::OfferNotPending);
    assert_eq!(ctx.offer.cancelled_at, Some(3_000));
}

#[test]
fn an_accepted_offer_cannot_be_cancelled() {
    let (offer, ledger) = created("trade-1", 0, 50_000_000);
    let mut accept =
        AcceptOffer { offer, receiver: receiver(), fee_collector: collector(), ledger };
    assert!(accept_offer(&mut accept, 2_000).is_ok());
    let mut ctx = CancelOffer { offer: accept.offer, authority: initiator() };
    let refused = cancel_offer(&mut ctx, 3_000).unwrap_err();
    assert_eq!(refused, SwapError::OfferNotPending);
    assert_eq!(refused.kind(), ErrorKind::StatusMismatch);
    assert_eq!(ctx.offer.status, SwapStatus::Accepted);
    assert_eq!(ctx.offer.cancelled_at, None);
}

#[test]
fn a_cancelled_offer_cannot_be_accepted() {
    let (offer, ledger) = created("trade-1", 0, 50_000_000);
    let mut cancel = CancelOffer { offer, authority: initiator() };
    assert!(cancel_offer(&mut cancel, 3_000).is_ok());
    let mut ctx = AcceptOffer {
        offer: cancel.offer,
        receiver: receiver(),
        fee_collector: collector(),
        ledger,
    };
    assert_eq!(accept_offer(&mut ctx, 4_000).unwrap_err(), SwapError::OfferNotPending);
    assert_eq!(ctx.offer.status, SwapStatus::Cancelled);
    assert_eq!(ctx.ledger.balance(&receiver()), 50_000_000);
}
