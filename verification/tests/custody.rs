use anchor_lang::prelude::Pubkey;
use midswap::custody::{ESCROW_SOL_SEED, OFFER_SEED};
use midswap::{Custody, MIDEVIL_COLLECTION, PROGRAM_ID};
use std::str::FromStr;

#[test]
fn locate_agrees_with_direct_derivation() {
    let program = Pubkey::new_from_array(PROGRAM_ID);
    let (authority, bump) = Pubkey::find_program_address(&[b"offer", b"trade-1"], &program);
    let (vault, _) = Pubkey::find_program_address(&[b"escrow_sol", b"trade-1"], &program);
    let custody = Custody::locate("trade-1").unwrap();
    assert_eq!(custody.authority.bytes, authority.to_bytes());
    assert_eq!(custody.bump, bump);
    assert_eq!(custody.vault.bytes, vault.to_bytes());
    assert_ne!(custody.authority.bytes, custody.vault.bytes);
}

#[test]
fn located_authority_is_rebuilt_from_its_bump() {
    let program = Pubkey::new_from_array(PROGRAM_ID);
    let custody = Custody::locate("trade-1").unwrap();
    let rebuilt =
        Pubkey::create_program_address(&[b"offer", b"trade-1", &[custody.bump]], &program).unwrap();
    assert_eq!(rebuilt.to_bytes(), custody.authority.bytes);
}

#[test]
fn locate_gives_the_same_addresses_every_time() {
    let first = Custody::locate("trade-1").unwrap();
    let second = Custody::locate("trade-1").unwrap();
    assert_eq!(first.authority, second.authority);
    assert_eq!(first.vault, second.vault);
    assert_eq!(first.bump, second.bump);
}

#[test]
fn different_offers_have_different_custody() {
    let first = Custody::locate("trade-1").unwrap();
    let second = Custody::locate("trade-2").unwrap();
    assert_ne!(first.authority, second.authority);
    assert_ne!(first.vault, second.vault);
}

#[test]
fn locate_takes_identifiers_up_to_the_seed_limit() {
    let longest = "a".repeat(32);
    assert!(Custody::locate(&longest).is_some());
    assert!(Custody::locate("").is_some());
}

#[test]
fn locate_refuses_identifiers_beyond_the_seed_limit() {
    let too_long = "a".repeat(33);
    assert!(Custody::locate(&too_long).is_none());
}

#[test]
fn program_id_is_the_declared_address() {
    let declared = Pubkey::from_str("Fg6PaFpoGXkYsidMpWTK6W2BeZ7FEfcYkg476zPFsLnS").unwrap();
    assert_eq!(declared.to_bytes(), PROGRAM_ID);
}

#[test]
fn seeds_are_the_namespace_tags() {
    assert_eq!(&OFFER_SEED, b"offer");
    assert_eq!(&ESCROW_SOL_SEED, b"escrow_sol");
}

#[test]
fn collection_address_is_well_formed() {
    assert!(Pubkey::from_str(MIDEVIL_COLLECTION).is_ok());
}
