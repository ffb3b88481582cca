use anchor_lang::prelude::Pubkey;
use anchor_lang::solana_program::hash::hash;
use anchor_lang::AnchorSerialize;
use profile_links::layout::{
    ADDRESS_LEN, HEADER_LEN, LINK_SPACE, PREFIX_LEN, PROFILE_INIT_SPACE, PROFILE_SPACE,
};
use profile_links::{Address, Link, UserProfile};

fn owner() -> Address {
    let mut bytes = [0u8; 32];
    for i in 0..32 {
        bytes[i] = (i * 7 + 1) as u8;
    }
    Address::new(bytes)
}

fn full_profile() -> UserProfile {
    let mut links = Vec::new();
    for i in 0..10 {
        let digit = char::from(b'0' + i as u8);
        links.push(Link {
            label: digit.to_string().repeat(50),
            url: digit.to_string().repeat(100),
        });
    }
    UserProfile { authority: owner(), bump: 255, display_name: "d".repeat(50), links }
}

fn small_profile() -> UserProfile {
    UserProfile {
        authority: owner(),
        bump: 253,
        display_name: "alice".to_string(),
        links: vec![
            Link { label: "gh".to_string(), url: "https://x/a".to_string() },
            Link { label: "ünï".to_string(), url: "https://x/€".to_string() },
        ],
    }
}

/// The same record as Borsh writes it behind an account discriminator.
fn written_by_borsh(profile: &UserProfile) -> Vec<u8> {
    let mut out = hash(b"account:UserProfile").to_bytes()[..8].to_vec();
    let links: Vec<(String, String)> =
        profile.links.iter().map(|l| (l.label.clone(), l.url.clone())).collect();
    let fields = (
        Pubkey::new_from_array(profile.authority.bytes),
        profile.bump,
        profile.display_name.clone(),
        links,
    );
    out.extend(fields.try_to_vec().unwrap());
    out
}

#[test]
fn the_space_of_a_profile() {
    assert_eq!(HEADER_LEN, 8);
    assert_eq!(ADDRESS_LEN, 32);
    assert_eq!(PREFIX_LEN, 4);
    assert_eq!(LINK_SPACE, 158);
    assert_eq!(PROFILE_INIT_SPACE, 1671);
    assert_eq!(PROFILE_SPACE, 1679);
}

#[test]
fn a_full_profile_takes_all_the_space_and_reads_back() {
    let profile = full_profile();
    let bytes = profile.serialize().unwrap();
    assert_eq!(bytes.len(), 1679);
    assert_eq!(UserProfile::deserialize(&bytes), Some(profile));
}

#[test]
fn an_empty_profile_in_bytes() {
    let profile =
        UserProfile { authority: Address::new([9u8; 32]), bump: 254, display_name: "ab".to_string(), links: vec![] };
    let mut expected = vec![32u8, 37, 119, 205, 179, 180, 13, 194];
    expected.extend([9u8; 32]);
    expected.push(254);
    expected.extend([2u8, 0, 0, 0, b'a', b'b']);
    expected.extend([0u8, 0, 0, 0]);
    assert_eq!(profile.serialize(), Some(expected.clone()));
    assert_eq!(UserProfile::deserialize(&expected), Some(profile));
}

#[test]
fn a_link_in_bytes() {
    let profile = UserProfile {
        authority: Address::new([0u8; 32]),
        bump: 1,
        display_name: String::new(),
        links: vec![Link { label: "é".to_string(), url: "u".to_string() }],
    };
    let bytes = profile.serialize().unwrap();
    assert_eq!(
        &bytes[41..],
        &[0u8, 0, 0, 0, 1, 0, 0, 0, 2, 0, 0, 0, 0xc3, 0xa9, 1, 0, 0, 0, b'u'][..]
    );
}

#[test]
fn the_layout_is_that_of_borsh() {
    for profile in [small_profile(), full_profile()] {
        assert_eq!(profile.serialize().unwrap(), written_by_borsh(&profile));
    }
}

#[test]
fn the_header_is_the_hash_of_the_account_name() {
    let bytes = small_profile().serialize().unwrap();
    assert_eq!(&bytes[..8], &hash(b"account:UserProfile").to_bytes()[..8]);
}

#[test]
fn bytes_behind_a_profile_are_not_looked_at() {
    let profile = small_profile();
    let mut bytes = profile.serialize().unwrap();
    bytes.resize(PROFILE_SPACE, 0);
    assert_eq!(UserProfile::deserialize(&bytes), Some(profile.clone()));
    bytes[PROFILE_SPACE - 1] = 0xff;
    assert_eq!(UserProfile::deserialize(&bytes), Some(profile));
}

#[test]
fn a_profile_over_the_space_is_not_written() {
    let mut profile = full_profile();
    profile.display_name.push('x');
    assert_eq!(profile.serialize(), None);

    let mut profile = full_profile();
    profile.links[9].url.push('x');
    assert_eq!(profile.serialize(), None);

    let mut profile = full_profile();
    profile.links.push(Link { label: String::new(), url: String::new() });
    assert_eq!(profile.serialize(), None);
}

#[test]
fn a_profile_is_written_as_long_as_it_fits() {
    // A label over its bound in a record that is otherwise small still fits
    // the space: the bound is the business of the operations.
    let mut profile = small_profile();
    profile.links[0].label = "l".repeat(60);
    let bytes = profile.serialize().unwrap();
    assert_eq!(UserProfile::deserialize(&bytes), Some(profile));
}

#[test]
fn bytes_that_hold_no_profile_are_refused() {
    let good = small_profile().serialize().unwrap();
    assert_eq!(UserProfile::deserialize(&[]), None);
    assert_eq!(UserProfile::deserialize(&good[..40]), None);
    for cut in 0..good.len() {
        assert_eq!(UserProfile::deserialize(&good[..cut]), None);
    }
    let mut wrong_header = good.clone();
    wrong_header[3] ^= 1;
    assert_eq!(UserProfile::deserialize(&wrong_header), None);
    // The display name "alice" begins at byte 45: 0xff is never valid UTF-8.
    let mut wrong_text = good.clone();
    wrong_text[45] = 0xff;
    assert_eq!(UserProfile::deserialize(&wrong_text), None);
    // A count of links larger than the bytes hold.
    let mut wrong_count = good.clone();
    wrong_count[50] = 3;
    assert_eq!(UserProfile::deserialize(&wrong_count), None);
}

#[test]
fn a_length_takes_four_bytes_lowest_first() {
    let profile = UserProfile {
        authority: Address::new([0u8; 32]),
        bump: 0,
        display_name: "n".repeat(300),
        links: vec![],
    };
    let bytes = profile.serialize().unwrap();
    assert_eq!(&bytes[41..45], &[44u8, 1, 0, 0][..]);
    assert_eq!(UserProfile::deserialize(&bytes), Some(profile));
}
