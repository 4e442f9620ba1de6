use anchor_lang::prelude::Pubkey;
use communities::address::community_address;
use communities::address::membership_address;
use communities::address::poll_address;
use communities::address::vote_address;
use communities::Address;
use std::str::FromStr;

fn program() -> Address {
    Address::new([7u8; 32])
}

fn deployed() -> Pubkey {
    Pubkey::from_str("6Cy6o9mfHJkwN2VrTVGHT6Jp9rhSp88thgEJFTyw2JBi").unwrap()
}

const DEVS: [u8; 32] = [
    0, 87, 34, 76, 77, 174, 51, 183, 78, 161, 125, 87, 194, 20, 59, 197, 217, 46, 68, 64, 53, 250,
    90, 185, 112, 68, 174, 66, 93, 37, 217, 249,
];

const ALICE_IN_DEVS: [u8; 32] = [
    129, 202, 161, 69, 206, 211, 164, 181, 45, 21, 243, 27, 9, 238, 57, 74, 190, 104, 120, 244,
    208, 35, 88, 69, 114, 156, 200, 211, 116, 137, 59, 153,
];

const FIRST_POLL_OF_DEVS: [u8; 32] = [
    185, 47, 83, 153, 137, 141, 55, 140, 89, 135, 101, 51, 215, 192, 104, 149, 160, 220, 59, 0,
    140, 15, 112, 45, 166, 164, 63, 196, 33, 60, 157, 206,
];

const ALICE_ON_FIRST_POLL: [u8; 32] = [
    2, 194, 77, 92, 58, 40, 222, 94, 121, 238, 151, 144, 156, 215, 18, 36, 205, 145, 136, 157,
    116, 176, 100, 126, 232, 70, 40, 141, 156, 46, 79, 61,
];

#[test]
fn community_address_of_devs() {
    assert_eq!(community_address(&program(), "Devs"), Some((Address::new(DEVS), 255)));
}

#[test]
fn membership_address_of_alice_in_devs() {
    let alice = Address::new([1u8; 32]);
    assert_eq!(
        membership_address(&program(), &Address::new(DEVS), &alice),
        Some((Address::new(ALICE_IN_DEVS), 255))
    );
}

#[test]
fn poll_address_of_first_poll() {
    assert_eq!(
        poll_address(&program(), &Address::new(DEVS), 0),
        Some((Address::new(FIRST_POLL_OF_DEVS), 252))
    );
}

#[test]
fn vote_address_of_alice_on_first_poll() {
    let alice = Address::new([1u8; 32]);
    assert_eq!(
        vote_address(&program(), &Address::new(FIRST_POLL_OF_DEVS), &alice),
        Some((Address::new(ALICE_ON_FIRST_POLL), 255))
    );
}

#[test]
fn community_address_is_the_program_derived_address() {
    let id = deployed();
    let (expected, bump) = Pubkey::find_program_address(&[b"community", b"Rustaceans"], &id);
    assert_eq!(
        community_address(&Address::new(id.to_bytes()), "Rustaceans"),
        Some((Address::new(expected.to_bytes()), bump))
    );
}

#[test]
fn membership_address_is_the_program_derived_address() {
    let id = deployed();
    let community = [3u8; 32];
    let member = [4u8; 32];
    let (expected, bump) =
        Pubkey::find_program_address(&[b"membership", &community, &member], &id);
    assert_eq!(
        membership_address(
            &Address::new(id.to_bytes()),
            &Address::new(community),
            &Address::new(member)
        ),
        Some((Address::new(expected.to_bytes()), bump))
    );
}

#[test]
fn poll_address_is_the_program_derived_address() {
    let id = deployed();
    let community = [3u8; 32];
    let index: u64 = 0x0102_0304_0506_0708;
    let (expected, bump) =
        Pubkey::find_program_address(&[b"poll", &community, &index.to_le_bytes()], &id);
    assert_eq!(
        poll_address(&Address::new(id.to_bytes()), &Address::new(community), index),
        Some((Address::new(expected.to_bytes()), bump))
    );
}

#[test]
fn vote_address_is_the_program_derived_address() {
    let id = deployed();
    let poll = [5u8; 32];
    let voter = [6u8; 32];
    let (expected, bump) = Pubkey::find_program_address(&[b"vote", &poll, &voter], &id);
    assert_eq!(
        vote_address(&Address::new(id.to_bytes()), &Address::new(poll), &Address::new(voter)),
        Some((Address::new(expected.to_bytes()), bump))
    );
}

#[test]
fn derive_puts_the_tag_before_the_parts() {
    let parts = vec![b"Devs".to_vec()];
    assert_eq!(communities::address::derive(&program(), "community", &parts), community_address(&program(), "Devs"));
    assert_ne!(communities::address::derive(&program(), "vote", &parts), communities::address::derive(&program(), "poll", &parts));
}

#[test]
fn derive_is_repeatable() {
    let parts = vec![vec![1u8, 2, 3], vec![4u8, 5]];
    let first = communities::address::derive(&program(), "poll", &parts);
    assert!(first.is_some());
    assert_eq!(communities::address::derive(&program(), "poll", &parts), first);
}

#[test]
fn derive_depends_on_every_input() {
    let devs = community_address(&program(), "Devs").unwrap().0;
    assert_ne!(devs, community_address(&program(), "devs").unwrap().0);
    assert_ne!(devs, community_address(&Address::new([8u8; 32]), "Devs").unwrap().0);
    let alice = Address::new([1u8; 32]);
    let bob = Address::new([2u8; 32]);
    assert_ne!(
        membership_address(&program(), &devs, &alice),
        membership_address(&program(), &devs, &bob)
    );
    assert_ne!(
        membership_address(&program(), &devs, &alice),
        vote_address(&program(), &devs, &alice)
    );
    assert_ne!(poll_address(&program(), &devs, 0), poll_address(&program(), &devs, 1));
    assert_ne!(poll_address(&program(), &devs, 1), poll_address(&program(), &devs, 256));
}

#[test]
fn derive_address_differs_from_its_inputs() {
    let alice = Address::new([1u8; 32]);
    let (a, _) = membership_address(&program(), &alice, &alice).unwrap();
    assert_ne!(a, alice);
    assert_ne!(a, program());
}

#[test]
fn name_of_thirty_two_bytes_has_an_address() {
    let name = "a".repeat(32);
    assert!(community_address(&program(), &name).is_some());
}

#[test]
fn name_of_thirty_three_bytes_has_no_address() {
    let name = "a".repeat(33);
    assert_eq!(community_address(&program(), &name), None);
}

#[test]
fn name_is_measured_in_bytes() {
    // Eleven characters of three bytes each.
    let name = "\u{20ac}".repeat(11);
    assert_eq!(name.len(), 33);
    assert_eq!(community_address(&program(), &name), None);
}

#[test]
fn long_tag_has_no_address() {
    let tag = "t".repeat(33);
    assert_eq!(communities::address::derive(&program(), &tag, &vec![]), None);
}

#[test]
fn fifteen_parts_have_no_address() {
    let fourteen: Vec<Vec<u8>> = (0..14u8).map(|i| vec![i]).collect();
    assert!(communities::address::derive(&program(), "poll", &fourteen).is_some());
    let fifteen: Vec<Vec<u8>> = (0..15u8).map(|i| vec![i]).collect();
    assert_eq!(communities::address::derive(&program(), "poll", &fifteen), None);
}

#[test]
fn empty_name_has_an_address() {
    let id = deployed();
    let (expected, bump) = Pubkey::find_program_address(&[b"community", b""], &id);
    assert_eq!(
        community_address(&Address::new(id.to_bytes()), ""),
        Some((Address::new(expected.to_bytes()), bump))
    );
}

#[test]
fn address_keeps_its_bytes() {
    let mut bytes = [0u8; 32];
    for (i, b) in bytes.iter_mut().enumerate() {
        *b = i as u8;
    }
    let a = Address::new(bytes);
    assert_eq!(a.to_bytes(), bytes);
    assert_eq!(a.to_seed(), bytes.to_vec());
}

#[test]
fn same_compares_all_bytes() {
    let a = Address::new([1u8; 32]);
    let mut last = [1u8; 32];
    last[31] = 0;
    let mut first = [1u8; 32];
    first[0] = 0;
    assert!(a.same(&Address::new([1u8; 32])));
    assert!(!a.same(&Address::new(last)));
    assert!(!a.same(&Address::new(first)));
}
