use crate::address::Address;
use crate::custody::Custody;
use crate::error::{ErrorKind, SwapError};
use crate::ledger::LedgerView;
use crate::model::{
    spec_accept_offer, spec_cancel_offer, spec_create_offer, spec_escrow_initiator_nft,
    spec_escrow_items, spec_return_escrowed_nft, spec_return_escrowed_sol, spec_return_items,
    spec_settle_items, spec_transfer_escrowed_sol, spec_transfer_initiator_nft_to_receiver,
    spec_transfer_receiver_nft_to_initiator, SwapState,
};
use crate::offer::{OfferView, SwapStatus, MAX_NFTS_PER_SIDE, PLATFORM_FEE};
use vstd::prelude::*;

verus! {

/// An offer is accepted at most once: after one acceptance every further attempt, by
/// whomever and whenever, is refused for its status.
pub proof fn lemma_accept_only_once(
    state: SwapState,
    receiver: Address,
    fee_collector: Address,
    now: int,
    second_caller: Address,
    second_collector: Address,
    later: int,
)
    requires
        spec_accept_offer(state, receiver, fee_collector, now) is Ok,
    ensures
        spec_accept_offer(
            spec_accept_offer(state, receiver, fee_collector, now)->Ok_0,
            second_caller,
            second_collector,
            later,
        ) == Err::<SwapState, SwapError>(SwapError::OfferNotPending),
        SwapError::OfferNotPending.kind() == ErrorKind::StatusMismatch,
{
}

/// While an offer is pending, every settlement operation is refused for its status,
/// whatever the other inputs are.
pub proof fn lemma_pending_refuses_settlement(
    state: SwapState,
    custody: Option<Custody>,
    nft_index: nat,
    caller: Address,
    nft_mint: Address,
)
    requires
        state.offer.status == SwapStatus::Pending,
    ensures
        spec_transfer_initiator_nft_to_receiver(state, custody, nft_index) == Err::<
            LedgerView,
            SwapError,
        >(SwapError::OfferNotAccepted),
        spec_transfer_receiver_nft_to_initiator(state, caller, nft_mint) == Err::<
            LedgerView,
            SwapError,
        >(SwapError::OfferNotAccepted),
        spec_transfer_escrowed_sol(state, custody) == Err::<LedgerView, SwapError>(
            SwapError::OfferNotAccepted,
        ),
        spec_return_escrowed_nft(state, custody, nft_index) == Err::<LedgerView, SwapError>(
            SwapError::OfferNotCancelled,
        ),
        spec_return_escrowed_sol(state, custody) == Err::<LedgerView, SwapError>(
            SwapError::OfferNotCancelled,
        ),
        SwapError::OfferNotAccepted.kind() == ErrorKind::StatusMismatch,
        SwapError::OfferNotCancelled.kind() == ErrorKind::StatusMismatch,
{
}

/// Once an offer is accepted, cancelling it and returning its assets are refused for its
/// status, whatever the other inputs are.
pub proof fn lemma_accepted_refuses_cancel_and_return(
    state: SwapState,
    custody: Option<Custody>,
    nft_index: nat,
    caller: Address,
    now: int,
)
    requires
        state.offer.status == SwapStatus::Accepted,
    ensures
        spec_cancel_offer(state.offer, caller, now) == Err::<OfferView, SwapError>(
            SwapError::OfferNotPending,
        ),
        spec_return_escrowed_nft(state, custody, nft_index) == Err::<LedgerView, SwapError>(
            SwapError::OfferNotCancelled,
        ),
        spec_return_escrowed_sol(state, custody) == Err::<LedgerView, SwapError>(
            SwapError::OfferNotCancelled,
        ),
        SwapError::OfferNotPending.kind() == ErrorKind::StatusMismatch,
        SwapError::OfferNotCancelled.kind() == ErrorKind::StatusMismatch,
{
}

/// An escrowed item is delivered once: after slot `nft_index` has been settled, settling
/// the same slot again is refused because custody no longer holds the item. This is stated
/// for offers whose receiver is not the custody address itself.
pub proof fn lemma_settled_slot_is_not_replayed(
    state: SwapState,
    custody: Option<Custody>,
    nft_index: nat,
)
    requires
        spec_transfer_initiator_nft_to_receiver(state, custody, nft_index) is Ok,
        custody is Some ==> state.offer.receiver != custody->0.authority,
    ensures
        spec_transfer_initiator_nft_to_receiver(
            SwapState {
                offer: state.offer,
                ledger: spec_transfer_initiator_nft_to_receiver(state, custody, nft_index)->Ok_0,
            },
            custody,
            nft_index,
        ) == Err::<LedgerView, SwapError>(SwapError::AssetUnavailable),
{
}

/// A full item list refuses one more item: with the maximum number of items pledged, the
/// initiator's next pledge on a pending offer is refused for capacity.
pub proof fn lemma_full_list_refuses_item(
    state: SwapState,
    custody: Option<Custody>,
    nft_mint: Address,
)
    requires
        state.offer.status == SwapStatus::Pending,
        state.offer.initiator_nfts.len() >= MAX_NFTS_PER_SIDE,
    ensures
        spec_escrow_initiator_nft(state, custody, state.offer.initiator, nft_mint) == Err::<
            SwapState,
            SwapError,
        >(SwapError::MaxNftsExceeded),
        SwapError::MaxNftsExceeded.kind() == ErrorKind::CapacityExceeded,
{
}

/// What a successful run of pledges tells about its start and its end.
proof fn lemma_escrow_items_facts(state: SwapState, custody: Option<Custody>, items: Seq<Address>)
    requires
        spec_escrow_items(state, custody, items) is Ok,
    ensures
        ({
            let done = spec_escrow_items(state, custody, items)->Ok_0;
            &&& done.offer == OfferView {
                initiator_nfts: state.offer.initiator_nfts + items,
                ..state.offer
            }
            &&& done.ledger.balances == state.ledger.balances
            &&& done.ledger.supply == state.ledger.supply
            &&& done.ledger.holders.dom() == state.ledger.holders.dom()
            &&& items.len() > 0 ==> {
                &&& custody is Some
                &&& state.offer.status == SwapStatus::Pending
                &&& state.offer.initiator_nfts.len() + items.len() <= MAX_NFTS_PER_SIDE
                &&& custody->0.authority != state.offer.initiator ==> items.no_duplicates()
                &&& forall|m: Address|
                    #![trigger done.ledger.holders[m]]
                    done.ledger.holders[m] == if items.contains(m) {
                        custody->0.authority
                    } else {
                        state.ledger.holders[m]
                    }
            }
            &&& forall|i: int|
                0 <= i < items.len() ==> state.ledger.holds(
                    state.offer.initiator,
                    #[trigger] items[i],
                )
        }),
    decreases items.len(),
{
    let done = spec_escrow_items(state, custody, items)->Ok_0;
    if items.len() == 0 {
        assert(state.offer.initiator_nfts + items =~= state.offer.initiator_nfts);
    } else {
        let earlier = items.drop_last();
        let item = items.last();
        lemma_escrow_items_facts(state, custody, earlier);
        let so_far = spec_escrow_items(state, custody, earlier)->Ok_0;
        let authority = custody->0.authority;
        let initiator = state.offer.initiator;
        assert(done == spec_escrow_initiator_nft(so_far, custody, initiator, item)->Ok_0);
        assert(so_far.ledger.holds(initiator, item));
        assert((state.offer.initiator_nfts + earlier).push(item) =~= state.offer.initiator_nfts
            + items);
        assert(done.ledger.holders.dom() =~= state.ledger.holders.dom());
        assert forall|m: Address|
            #![trigger done.ledger.holders[m]]
            done.ledger.holders[m] == if items.contains(m) {
                authority
            } else {
                state.ledger.holders[m]
            } by {
            if m == item {
                assert(items[items.len() - 1] == m);
            } else if earlier.contains(m) {
                let j = choose|j: int| 0 <= j < earlier.len() && earlier[j] == m;
                assert(items[j] == m);
            } else if items.contains(m) {
                let j = choose|j: int| 0 <= j < items.len() && items[j] == m;
                assert(earlier[j] == m);
            }
        }
        if earlier.contains(item) {
            let j = choose|j: int| 0 <= j < earlier.len() && earlier[j] == item;
            assert(earlier.len() > 0);
            assert(so_far.ledger.holders[item] == authority);
            assert(authority == initiator);
            assert(state.ledger.holds(initiator, earlier[j]));
        } else {
            if earlier.len() > 0 {
                assert(so_far.ledger.holders[item] == state.ledger.holders[item]);
            }
            assert(state.ledger.holds(initiator, item));
        }
        assert forall|i: int| 0 <= i < items.len() implies state.ledger.holds(
            initiator,
            #[trigger] items[i],
        ) by {
            if i < earlier.len() {
                assert(earlier[i] == items[i]);
            }
        }
        if authority != initiator {
            assert(!earlier.contains(item));
            assert forall|i: int, j: int|
                0 <= i < items.len() && 0 <= j < items.len() && i != j implies items[i]
                != items[j] by {
                if i < earlier.len() && j < earlier.len() {
                    assert(earlier[i] == items[i] && earlier[j] == items[j]);
                } else if i < earlier.len() {
                    assert(earlier[i] == items[i]);
                } else {
                    assert(earlier[j] == items[j]);
                }
            }
        }
    }
}

/// Pledged items fill the slots in call order: a run of successful pledges appends exactly
/// the pledged items, in the order of the calls, never beyond the capacity, and changes
/// nothing else of the offer.
pub proof fn lemma_pledges_fill_slots_in_call_order(
    state: SwapState,
    custody: Option<Custody>,
    items: Seq<Address>,
)
    requires
        spec_escrow_items(state, custody, items) is Ok,
    ensures
        spec_escrow_items(state, custody, items)->Ok_0.offer == (OfferView {
            initiator_nfts: state.offer.initiator_nfts + items,
            ..state.offer
        }),
        items.len() > 0 ==> state.offer.initiator_nfts.len() + items.len() <= MAX_NFTS_PER_SIDE,
        forall|i: int|
            0 <= i < items.len() ==> spec_escrow_items(
                state,
                custody,
                items,
            )->Ok_0.offer.initiator_nfts[state.offer.initiator_nfts.len() + i] == items[i],
{
    lemma_escrow_items_facts(state, custody, items);
}

/// Up to the capacity, pledges succeed: on a pending offer with custody addresses, the
/// initiator can pledge any distinct items it holds as long as free slots remain.
pub proof fn lemma_pledges_succeed_within_capacity(
    state: SwapState,
    custody: Option<Custody>,
    items: Seq<Address>,
)
    requires
        state.offer.status == SwapStatus::Pending,
        custody is Some,
        state.offer.initiator_nfts.len() + items.len() <= MAX_NFTS_PER_SIDE,
        items.no_duplicates(),
        forall|i: int|
            0 <= i < items.len() ==> state.ledger.holds(state.offer.initiator, #[trigger] items[i]),
    ensures
        spec_escrow_items(state, custody, items) is Ok,
    decreases items.len(),
{
    if items.len() > 0 {
        let earlier = items.drop_last();
        let item = items.last();
        assert forall|i: int| 0 <= i < earlier.len() implies state.ledger.holds(
            state.offer.initiator,
            #[trigger] earlier[i],
        ) by {
            assert(earlier[i] == items[i]);
        }
        lemma_pledges_succeed_within_capacity(state, custody, earlier);
        lemma_escrow_items_facts(state, custody, earlier);
        let so_far = spec_escrow_items(state, custody, earlier)->Ok_0;
        assert(state.ledger.holds(state.offer.initiator, items[items.len() - 1]));
        if earlier.contains(item) {
            let j = choose|j: int| 0 <= j < earlier.len() && earlier[j] == item;
            assert(items[j] == items[items.len() - 1]);
        }
        if earlier.len() > 0 {
            assert(so_far.ledger.holders[item] == state.ledger.holders[item]);
        }
        assert(so_far.ledger.holds(state.offer.initiator, item));
    }
}

/// What moving the first `count` escrowed items out of custody to `to` makes of the holders,
/// where custody holds every escrowed item.
proof fn lemma_release_items_facts(
    state: SwapState,
    custody: Custody,
    count: nat,
    required: SwapStatus,
    to: Address,
)
    requires
        state.offer.status == required,
        count <= state.offer.initiator_nfts.len(),
        forall|i: int|
            0 <= i < state.offer.initiator_nfts.len() ==> state.ledger.holds(
                custody.authority,
                #[trigger] state.offer.initiator_nfts[i],
            ),
        custody.authority != to ==> state.offer.initiator_nfts.no_duplicates(),
    ensures
        ({
            let moved = released(state, custody, count, required, to);
            &&& moved is Ok
            &&& moved->Ok_0.balances == state.ledger.balances
            &&& moved->Ok_0.supply == state.ledger.supply
            &&& moved->Ok_0.holders.dom() == state.ledger.holders.dom()
            &&& forall|m: Address|
                #![trigger moved->Ok_0.holders[m]]
                moved->Ok_0.holders[m] == if state.offer.initiator_nfts.take(count as int).contains(
                    m,
                ) {
                    to
                } else {
                    state.ledger.holders[m]
                }
        }),
    decreases count,
{
    let items = state.offer.initiator_nfts;
    if count == 0 {
        assert(items.take(0).len() == 0);
    } else {
        let before = (count - 1) as nat;
        lemma_release_items_facts(state, custody, before, required, to);
        let so_far = released(state, custody, before, required, to)->Ok_0;
        let item = items[before as int];
        let moved = released(state, custody, count, required, to);
        assert(state.ledger.holds(custody.authority, items[before as int]));
        if items.take(before as int).contains(item) {
            let j = choose|j: int|
                0 <= j < items.take(before as int).len() && items.take(before as int)[j] == item;
            assert(items[j] == items[before as int]);
        }
        assert(so_far.holds(custody.authority, item));
        assert(moved is Ok);
        assert(moved->Ok_0.holders.dom() =~= state.ledger.holders.dom());
        assert forall|m: Address|
            #![trigger moved->Ok_0.holders[m]]
            moved->Ok_0.holders[m] == if items.take(count as int).contains(m) {
                to
            } else {
                state.ledger.holders[m]
            } by {
            if m == item {
                assert(items.take(count as int)[before as int] == m);
            } else if items.take(before as int).contains(m) {
                let j = choose|j: int|
                    0 <= j < items.take(before as int).len() && items.take(before as int)[j] == m;
                assert(items.take(count as int)[j] == m);
            } else if items.take(count as int).contains(m) {
                let j = choose|j: int|
                    0 <= j < items.take(count as int).len() && items.take(count as int)[j] == m;
                assert(items.take(before as int)[j] == m);
            }
        }
    }
}

/// Moving the first `count` escrowed items out of custody to `to`, in slot order, for an
/// offer whose status is `required`.
spec fn released(
    state: SwapState,
    custody: Custody,
    count: nat,
    required: SwapStatus,
    to: Address,
) -> Result<LedgerView, SwapError>
    decreases count,
{
    if count == 0 {
        Ok(state.ledger)
    } else {
        match released(state, custody, (count - 1) as nat, required, to) {
            Err(e) => Err(e),
            Ok(ledger) => crate::model::release_item(
                SwapState { offer: state.offer, ledger },
                Some(custody),
                (count - 1) as nat,
                required,
                if required == SwapStatus::Accepted {
                    SwapError::OfferNotAccepted
                } else {
                    SwapError::OfferNotCancelled
                },
                to,
            ),
        }
    }
}

proof fn lemma_released_is_return(state: SwapState, custody: Custody, count: nat)
    ensures
        spec_return_items(state, Some(custody), count) == released(
            state,
            custody,
            count,
            SwapStatus::Cancelled,
            state.offer.initiator,
        ),
    decreases count,
{
    if count > 0 {
        lemma_released_is_return(state, custody, (count - 1) as nat);
    }
}

proof fn lemma_released_is_settle(state: SwapState, custody: Custody, count: nat)
    ensures
        spec_settle_items(state, Some(custody), count) == released(
            state,
            custody,
            count,
            SwapStatus::Accepted,
            state.offer.receiver,
        ),
    decreases count,
{
    if count > 0 {
        lemma_released_is_settle(state, custody, (count - 1) as nat);
    }
}

/// Cancelling gives everything back: after an offer was created with any amount, any items
/// were pledged, and the initiator cancelled, every return succeeds, and once all slots and
/// the amount have been returned the ledger is what it was before the offer was created.
/// So the initiator's balance and the items it holds are as before.
pub proof fn lemma_cancel_round_trip(
    ledger: LedgerView,
    custody: Option<Custody>,
    initiator: Address,
    receiver: Address,
    offer_id: Seq<char>,
    initiator_sol: nat,
    receiver_sol: nat,
    created_at: int,
    items: Seq<Address>,
    cancelled_at: int,
)
    requires
        ledger.total(),
        spec_create_offer(
            ledger,
            custody,
            initiator,
            receiver,
            offer_id,
            initiator_sol,
            receiver_sol,
            created_at,
        ) is Ok,
        spec_escrow_items(
            spec_create_offer(
                ledger,
                custody,
                initiator,
                receiver,
                offer_id,
                initiator_sol,
                receiver_sol,
                created_at,
            )->Ok_0,
            custody,
            items,
        ) is Ok,
    ensures
        ({
            let created = spec_create_offer(
                ledger,
                custody,
                initiator,
                receiver,
                offer_id,
                initiator_sol,
                receiver_sol,
                created_at,
            )->Ok_0;
            let pledged = spec_escrow_items(created, custody, items)->Ok_0;
            let cancelled = spec_cancel_offer(pledged.offer, initiator, cancelled_at);
            let items_back = spec_return_items(
                SwapState { offer: cancelled->Ok_0, ledger: pledged.ledger },
                custody,
                items.len(),
            );
            let all_back = spec_return_escrowed_sol(
                SwapState { offer: cancelled->Ok_0, ledger: items_back->Ok_0 },
                custody,
            );
            &&& cancelled is Ok
            &&& items_back is Ok
            &&& all_back == Ok::<LedgerView, SwapError>(ledger)
        }),
{
    let created = spec_create_offer(
        ledger,
        custody,
        initiator,
        receiver,
        offer_id,
        initiator_sol,
        receiver_sol,
        created_at,
    )->Ok_0;
    let pledged = spec_escrow_items(created, custody, items)->Ok_0;
    let cancelled = spec_cancel_offer(pledged.offer, initiator, cancelled_at);
    let places = custody->0;
    lemma_escrow_items_facts(created, custody, items);
    assert(created.offer.initiator_nfts + items =~= items);
    let state = SwapState { offer: cancelled->Ok_0, ledger: pledged.ledger };
    assert(state.offer.initiator_nfts == items);
    assert forall|i: int| 0 <= i < items.len() implies state.ledger.holds(
        places.authority,
        #[trigger] state.offer.initiator_nfts[i],
    ) by {
        assert(created.ledger.holds(initiator, items[i]));
        assert(pledged.ledger.holders[items[i]] == places.authority);
    }
    lemma_release_items_facts(state, places, items.len(), SwapStatus::Cancelled, initiator);
    lemma_released_is_return(state, places, items.len());
    let items_back = spec_return_items(state, custody, items.len());
    assert(items.take(items.len() as int) =~= items);
    assert(items_back->Ok_0.holders =~= ledger.holders) by {
        assert forall|m: Address| ledger.holders.dom().contains(m) implies #[trigger]
            items_back->Ok_0.holders[m] == ledger.holders[m] by {
            if items.contains(m) {
                let j = choose|j: int| 0 <= j < items.len() && items[j] == m;
                assert(created.ledger.holds(initiator, items[j]));
            } else if items.len() > 0 {
                assert(pledged.ledger.holders[m] == created.ledger.holders[m]);
            }
        }
    }
    let all_back = spec_return_escrowed_sol(
        SwapState { offer: cancelled->Ok_0, ledger: items_back->Ok_0 },
        custody,
    );
    assert(all_back is Ok);
    assert(all_back->Ok_0.balances =~= ledger.balances);
}

/// Acceptance settles everything: after an offer was created with any amount, distinct
/// items were pledged, and a receiver other than the vault accepted, every settlement
/// succeeds, and once all
/// slots and the amount have been settled the receiver holds every pledged item, no other
/// item has moved, and the balances differ from those before the offer was created by the
/// amount, gone from the initiator to the receiver, and by the fee, gone from the receiver
/// to the fee collector. Nothing is left in the vault.
pub proof fn lemma_accepted_offer_settles(
    ledger: LedgerView,
    custody: Option<Custody>,
    initiator: Address,
    receiver: Address,
    offer_id: Seq<char>,
    initiator_sol: nat,
    receiver_sol: nat,
    created_at: int,
    items: Seq<Address>,
    fee_collector: Address,
    accepted_at: int,
)
    requires
        ledger.total(),
        items.no_duplicates(),
        custody is Some ==> receiver != custody->0.vault,
        spec_create_offer(
            ledger,
            custody,
            initiator,
            receiver,
            offer_id,
            initiator_sol,
            receiver_sol,
            created_at,
        ) is Ok,
        spec_escrow_items(
            spec_create_offer(
                ledger,
                custody,
                initiator,
                receiver,
                offer_id,
                initiator_sol,
                receiver_sol,
                created_at,
            )->Ok_0,
            custody,
            items,
        ) is Ok,
        spec_accept_offer(
            spec_escrow_items(
                spec_create_offer(
                    ledger,
                    custody,
                    initiator,
                    receiver,
                    offer_id,
                    initiator_sol,
                    receiver_sol,
                    created_at,
                )->Ok_0,
                custody,
                items,
            )->Ok_0,
            receiver,
            fee_collector,
            accepted_at,
        ) is Ok,
    ensures
        ({
            let created = spec_create_offer(
                ledger,
                custody,
                initiator,
                receiver,
                offer_id,
                initiator_sol,
                receiver_sol,
                created_at,
            )->Ok_0;
            let pledged = spec_escrow_items(created, custody, items)->Ok_0;
            let accepted = spec_accept_offer(pledged, receiver, fee_collector, accepted_at)->Ok_0;
            let items_out = spec_settle_items(accepted, custody, items.len());
            let settled = spec_transfer_escrowed_sol(
                SwapState { offer: accepted.offer, ledger: items_out->Ok_0 },
                custody,
            );
            &&& items_out is Ok
            &&& settled is Ok
            &&& settled->Ok_0.supply == ledger.supply
            &&& settled->Ok_0.holders.dom() == ledger.holders.dom()
            &&& forall|m: Address|
                #![trigger settled->Ok_0.holders[m]]
                settled->Ok_0.holders[m] == if items.contains(m) {
                    receiver
                } else {
                    ledger.holders[m]
                }
            &&& forall|k: Address|
                #![trigger settled->Ok_0.balances[k]]
                settled->Ok_0.balances[k] == ledger.balances[k] + net_gain(
                    k,
                    initiator,
                    receiver,
                    initiator_sol as int,
                ) + net_gain(k, receiver, fee_collector, PLATFORM_FEE as int)
        }),
{
    let created = spec_create_offer(
        ledger,
        custody,
        initiator,
        receiver,
        offer_id,
        initiator_sol,
        receiver_sol,
        created_at,
    )->Ok_0;
    let pledged = spec_escrow_items(created, custody, items)->Ok_0;
    let accepted = spec_accept_offer(pledged, receiver, fee_collector, accepted_at)->Ok_0;
    let places = custody->0;
    lemma_escrow_items_facts(created, custody, items);
    assert(created.offer.initiator_nfts + items =~= items);
    assert(accepted.offer.initiator_nfts == items);
    assert forall|i: int| 0 <= i < items.len() implies accepted.ledger.holds(
        places.authority,
        #[trigger] accepted.offer.initiator_nfts[i],
    ) by {
        assert(created.ledger.holds(initiator, items[i]));
        assert(pledged.ledger.holders[items[i]] == places.authority);
    }
    lemma_release_items_facts(accepted, places, items.len(), SwapStatus::Accepted, receiver);
    lemma_released_is_settle(accepted, places, items.len());
    let items_out = spec_settle_items(accepted, custody, items.len());
    assert(items.take(items.len() as int) =~= items);
    let settled = spec_transfer_escrowed_sol(
        SwapState { offer: accepted.offer, ledger: items_out->Ok_0 },
        custody,
    );
    assert(settled is Ok);
    assert forall|m: Address|
        #![trigger settled->Ok_0.holders[m]]
        settled->Ok_0.holders[m] == if items.contains(m) {
            receiver
        } else {
            ledger.holders[m]
        } by {
        if !items.contains(m) && items.len() > 0 {
            assert(pledged.ledger.holders[m] == created.ledger.holders[m]);
        }
    }
}

/// What `key` gains when `lamports` move from `from` to `to`: negative for the payer,
/// positive for the payee, zero for everyone else and when both are the same account.
pub open spec fn net_gain(key: Address, from: Address, to: Address, lamports: int) -> int {
    (if key == to {
        lamports
    } else {
        0
    }) - (if key == from {
        lamports
    } else {
        0
    })
}

/// A decided offer is frozen: once an offer has left the pending status, it can be neither
/// accepted nor cancelled, and no item can be added to it, whoever calls. So the status
/// moves at most once, the item list stays as it is, and the time of the decision stays
/// as recorded.
pub proof fn lemma_decided_offer_is_frozen(
    state: SwapState,
    custody: Option<Custody>,
    caller: Address,
    other: Address,
    now: int,
)
    requires
        state.offer.status != SwapStatus::Pending,
    ensures
        spec_accept_offer(state, caller, other, now) == Err::<SwapState, SwapError>(
            SwapError::OfferNotPending,
        ),
        spec_cancel_offer(state.offer, caller, now) == Err::<OfferView, SwapError>(
            SwapError::OfferNotPending,
        ),
        spec_escrow_initiator_nft(state, custody, caller, other) == Err::<SwapState, SwapError>(
            SwapError::OfferNotPending,
        ),
{
}

/// The status moves one way: accepting takes a pending offer to accepted and cancelling
/// takes a pending offer to cancelled, each recording its time; pledging an item leaves the
/// status alone.
pub proof fn lemma_status_moves_one_way(
    state: SwapState,
    custody: Option<Custody>,
    caller: Address,
    other: Address,
    now: int,
)
    ensures
        spec_accept_offer(state, caller, other, now) is Ok ==> {
            &&& state.offer.status.may_become(
                spec_accept_offer(state, caller, other, now)->Ok_0.offer.status,
            )
            &&& spec_accept_offer(state, caller, other, now)->Ok_0.offer.status
                == SwapStatus::Accepted
            &&& spec_accept_offer(state, caller, other, now)->Ok_0.offer.accepted_at == Some(now)
        },
        spec_cancel_offer(state.offer, caller, now) is Ok ==> {
            &&& state.offer.status.may_become(
                spec_cancel_offer(state.offer, caller, now)->Ok_0.status,
            )
            &&& spec_cancel_offer(state.offer, caller, now)->Ok_0.status == SwapStatus::Cancelled
            &&& spec_cancel_offer(state.offer, caller, now)->Ok_0.cancelled_at == Some(now)
        },
        spec_escrow_initiator_nft(state, custody, caller, other) is Ok ==> spec_escrow_initiator_nft(
            state,
            custody,
            caller,
            other,
        )->Ok_0.offer.status == state.offer.status,
{
}

} // verus!
