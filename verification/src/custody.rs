use crate::address::Address;
use anchor_lang::prelude::Pubkey;
use vstd::prelude::*;

verus! {

/// The program that owns every offer and every custody address derived here.
pub const PROGRAM_ID: [u8; 32] = [
    218, 7, 92, 178, 255, 94, 198, 129, 118, 19, 222, 83, 11, 105, 42, 135,
    53, 71, 119, 105, 218, 71, 67, 12, 189, 129, 84, 51, 92, 74, 131, 39,
];

/// Namespace tag of the address under which an offer is stored and its items are held.
pub const OFFER_SEED: [u8; 5] = [111, 102, 102, 101, 114];

/// Namespace tag of the address that holds an offer's escrowed balance.
pub const ESCROW_SOL_SEED: [u8; 10] = [101, 115, 99, 114, 111, 119, 95, 115, 111, 108];

/// What `Pubkey::try_find_program_address` returns for the seeds `[tag, offer_id]` under
/// `program_id`: the derived address and its bump seed, or `None` where no address can be
/// derived. The derivation hashes its arguments and depends on nothing else.
pub uninterp spec fn program_address(tag: Seq<u8>, offer_id: Seq<char>, program_id: Seq<u8>) -> Option<(Seq<u8>, u8)>;

/// Calls `Pubkey::try_find_program_address` with the two seeds `tag` and the bytes of
/// `offer_id`. Trusted: the result is the derivation named by [`program_address`].
#[verifier::external_body]
fn find_program_address(tag: &[u8], offer_id: &str, program_id: &Address) -> (r: Option<(Address, u8)>)
    ensures
        match r {
            Some((address, bump)) => program_address(tag@, offer_id@, program_id@) == Some((address@, bump)),
            None => program_address(tag@, offer_id@, program_id@).is_none(),
        },
{
    let program = Pubkey::new_from_array(program_id.bytes);
    match Pubkey::try_find_program_address(&[tag, offer_id.as_bytes()], &program) {
        Some((key, bump)) => Some((Address { bytes: key.to_bytes() }, bump)),
        None => None,
    }
}

/// The custody addresses of one offer.
#[derive(Clone, Copy, Debug)]
pub struct Custody {
    /// Holds the escrowed items; also where the offer record is stored.
    pub authority: Address,
    /// Bump seed that goes with `authority`.
    pub bump: u8,
    /// Holds the escrowed balance.
    pub vault: Address,
}

/// The custody addresses that `offer_id` derives, if it derives both.
pub open spec fn custody_of(offer_id: Seq<char>) -> Option<Custody> {
    match (
        program_address(OFFER_SEED@, offer_id, PROGRAM_ID@),
        program_address(ESCROW_SOL_SEED@, offer_id, PROGRAM_ID@),
    ) {
        (Some((authority, bump)), Some((vault, _))) => Some(
            Custody { authority: Address::from_seq(authority), bump, vault: Address::from_seq(vault) },
        ),
        _ => None,
    }
}

impl Custody {
    /// Derives the custody addresses of the offer named `offer_id`.
    pub fn locate(offer_id: &str) -> (r: Option<Custody>)
        ensures
            r == custody_of(offer_id@),
    {
        let program = Address::new(PROGRAM_ID);
        let offer_seed = OFFER_SEED;
        let escrow_seed = ESCROW_SOL_SEED;
        let authority = find_program_address(offer_seed.as_slice(), offer_id, &program);
        let vault = find_program_address(escrow_seed.as_slice(), offer_id, &program);
        match (authority, vault) {
            (Some((authority, bump)), Some((vault, _))) => {
                proof {
                    Address::lemma_view_injective(authority, authority);
                    Address::lemma_view_injective(vault, vault);
                }
                Some(Custody { authority, bump, vault })
            },
            _ => None,
        }
    }
}

} // verus!
