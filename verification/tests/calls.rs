use profile_links::address::find_profile_address;
use profile_links::{
    add_link, create_profile, remove_link, update_link, AddLink, Address, Context, CreateProfile,
    ErrorCode, Link, ProfileAccount, ProfileSlot, RemoveLink, Signer, UpdateLink, UserProfile,
};

fn program() -> Address {
    Address::new([7u8; 32])
}

fn alice() -> Address {
    Address::new([1u8; 32])
}

fn mallory() -> Address {
    Address::new([2u8; 32])
}

fn signed(key: Address) -> Signer {
    Signer { key, is_signer: true }
}

fn vacant_slot_of(owner: Address) -> ProfileSlot {
    let (key, _) = find_profile_address(&owner, &program()).unwrap();
    ProfileSlot { key, data: None }
}

fn created(owner: Address, name: &str) -> ProfileAccount {
    let mut ctx = Context {
        program_id: program(),
        accounts: CreateProfile { user_profile: vacant_slot_of(owner), authority: signed(owner) },
    };
    assert_eq!(create_profile(&mut ctx, name.to_string()), Ok(()));
    ProfileAccount { key: ctx.accounts.user_profile.key, data: ctx.accounts.user_profile.data.unwrap() }
}

fn adding(account: ProfileAccount, authority: Signer) -> Context<AddLink> {
    Context { program_id: program(), accounts: AddLink { user_profile: account, authority } }
}

fn updating(account: ProfileAccount, authority: Signer) -> Context<UpdateLink> {
    Context { program_id: program(), accounts: UpdateLink { user_profile: account, authority } }
}

fn removing(account: ProfileAccount, authority: Signer) -> Context<RemoveLink> {
    Context { program_id: program(), accounts: RemoveLink { user_profile: account, authority } }
}

fn link(label: &str, url: &str) -> Link {
    Link { label: label.to_string(), url: url.to_string() }
}

fn with_links(owner: Address, count: usize) -> ProfileAccount {
    let mut ctx = adding(created(owner, "alice"), signed(owner));
    for i in 0..count {
        assert_eq!(add_link(&mut ctx, format!("label{}", i), format!("https://x/{}", i)), Ok(()));
    }
    ctx.accounts.user_profile
}

#[test]
fn create_profile_writes_an_empty_profile() {
    let account = created(alice(), "alice");
    let (key, bump) = find_profile_address(&alice(), &program()).unwrap();
    assert_eq!(account.key, key);
    assert_eq!(
        account.data,
        UserProfile { authority: alice(), bump, display_name: "alice".to_string(), links: vec![] }
    );
}

#[test]
fn create_profile_takes_a_display_name_of_fifty_bytes() {
    let name = "n".repeat(50);
    let account = created(alice(), &name);
    assert_eq!(account.data.display_name, name);
    assert!(account.data.links.is_empty());
}

#[test]
fn create_profile_refuses_a_display_name_of_fifty_one_bytes() {
    let mut ctx = Context {
        program_id: program(),
        accounts: CreateProfile { user_profile: vacant_slot_of(alice()), authority: signed(alice()) },
    };
    let before = ctx.clone();
    assert_eq!(create_profile(&mut ctx, "n".repeat(51)), Err(ErrorCode::DisplayNameTooLong));
    assert_eq!(ctx, before);
    assert_eq!(ctx.accounts.user_profile.data, None);
}

#[test]
fn create_profile_counts_bytes_not_characters() {
    // Seventeen characters of three bytes each: fifty-one bytes.
    let mut ctx = Context {
        program_id: program(),
        accounts: CreateProfile { user_profile: vacant_slot_of(alice()), authority: signed(alice()) },
    };
    assert_eq!(create_profile(&mut ctx, "€".repeat(17)), Err(ErrorCode::DisplayNameTooLong));
    // Sixteen of them and two of one byte: fifty bytes.
    let name = format!("{}ab", "€".repeat(16));
    assert_eq!(create_profile(&mut ctx, name.clone()), Ok(()));
    assert_eq!(ctx.accounts.user_profile.data.unwrap().display_name, name);
}

#[test]
fn create_profile_succeeds_only_once() {
    let mut ctx = Context {
        program_id: program(),
        accounts: CreateProfile { user_profile: vacant_slot_of(alice()), authority: signed(alice()) },
    };
    assert_eq!(create_profile(&mut ctx, "alice".to_string()), Ok(()));
    let before = ctx.clone();
    assert_eq!(create_profile(&mut ctx, "again".to_string()), Err(ErrorCode::AddressAlreadyInUse));
    assert_eq!(ctx, before);
}

#[test]
fn create_profile_refuses_a_caller_who_has_not_signed() {
    let mut ctx = Context {
        program_id: program(),
        accounts: CreateProfile {
            user_profile: vacant_slot_of(alice()),
            authority: Signer { key: alice(), is_signer: false },
        },
    };
    assert_eq!(create_profile(&mut ctx, "alice".to_string()), Err(ErrorCode::AuthorizationFailure));
    assert_eq!(ctx.accounts.user_profile.data, None);
}

#[test]
fn create_profile_refuses_the_slot_of_another_owner() {
    let mut ctx = Context {
        program_id: program(),
        accounts: CreateProfile { user_profile: vacant_slot_of(alice()), authority: signed(mallory()) },
    };
    assert_eq!(create_profile(&mut ctx, "mallory".to_string()), Err(ErrorCode::AuthorizationFailure));
    assert_eq!(ctx.accounts.user_profile.data, None);
}

#[test]
fn create_at_goes_by_the_address_that_was_found() {
    let slot = ProfileSlot { key: Address::new([9u8; 32]), data: None };
    let mut accounts = CreateProfile { user_profile: slot, authority: signed(alice()) };
    assert_eq!(accounts.create_at(None, "alice".to_string()), Err(ErrorCode::AuthorizationFailure));
    assert_eq!(
        accounts.create_at(Some((Address::new([8u8; 32]), 254)), "alice".to_string()),
        Err(ErrorCode::AuthorizationFailure)
    );
    assert_eq!(accounts.create_at(Some((Address::new([9u8; 32]), 254)), "alice".to_string()), Ok(()));
    assert_eq!(
        accounts.user_profile.data,
        Some(UserProfile {
            authority: alice(),
            bump: 254,
            display_name: "alice".to_string(),
            links: vec![],
        })
    );
}

#[test]
fn ten_links_are_added_and_the_eleventh_is_refused() {
    let account = with_links(alice(), 10);
    assert_eq!(account.data.links.len(), 10);
    for i in 0..10 {
        assert_eq!(account.data.links[i], link(&format!("label{}", i), &format!("https://x/{}", i)));
    }
    let mut ctx = adding(account, signed(alice()));
    let before = ctx.clone();
    assert_eq!(
        add_link(&mut ctx, "one".to_string(), "too-many".to_string()),
        Err(ErrorCode::LinkLimitReached)
    );
    assert_eq!(ctx, before);
    assert_eq!(ctx.accounts.user_profile.data.links.len(), 10);
}

#[test]
fn add_link_refuses_texts_over_their_bounds() {
    let mut ctx = adding(created(alice(), "alice"), signed(alice()));
    let before = ctx.clone();
    assert_eq!(add_link(&mut ctx, "l".repeat(51), "u".to_string()), Err(ErrorCode::LabelTooLong));
    assert_eq!(add_link(&mut ctx, "l".to_string(), "u".repeat(101)), Err(ErrorCode::UrlTooLong));
    assert_eq!(add_link(&mut ctx, "l".repeat(51), "u".repeat(101)), Err(ErrorCode::LabelTooLong));
    assert_eq!(ctx, before);
    assert_eq!(add_link(&mut ctx, "l".repeat(50), "u".repeat(100)), Ok(()));
    assert_eq!(ctx.accounts.user_profile.data.links, vec![link(&"l".repeat(50), &"u".repeat(100))]);
}

#[test]
fn update_link_replaces_one_link_only() {
    let mut ctx = updating(with_links(alice(), 4), signed(alice()));
    assert_eq!(update_link(&mut ctx, 2, "new".to_string(), "https://new".to_string()), Ok(()));
    assert_eq!(
        ctx.accounts.user_profile.data.links,
        vec![
            link("label0", "https://x/0"),
            link("label1", "https://x/1"),
            link("new", "https://new"),
            link("label3", "https://x/3"),
        ]
    );
}

#[test]
fn update_link_refuses_an_index_out_of_range() {
    let mut ctx = updating(with_links(alice(), 4), signed(alice()));
    let before = ctx.clone();
    assert_eq!(
        update_link(&mut ctx, 4, "new".to_string(), "https://new".to_string()),
        Err(ErrorCode::IndexOutOfBounds)
    );
    assert_eq!(
        update_link(&mut ctx, 255, "new".to_string(), "https://new".to_string()),
        Err(ErrorCode::IndexOutOfBounds)
    );
    assert_eq!(ctx, before);
}

#[test]
fn update_link_refuses_texts_over_their_bounds() {
    let mut ctx = updating(with_links(alice(), 1), signed(alice()));
    let before = ctx.clone();
    assert_eq!(update_link(&mut ctx, 0, "l".repeat(51), "u".to_string()), Err(ErrorCode::LabelTooLong));
    assert_eq!(update_link(&mut ctx, 0, "l".to_string(), "u".repeat(101)), Err(ErrorCode::UrlTooLong));
    assert_eq!(update_link(&mut ctx, 1, "l".repeat(51), "u".to_string()), Err(ErrorCode::IndexOutOfBounds));
    assert_eq!(ctx, before);
}

#[test]
fn remove_link_moves_the_later_links_to_the_front() {
    let mut ctx = removing(with_links(alice(), 5), signed(alice()));
    assert_eq!(remove_link(&mut ctx, 1), Ok(()));
    assert_eq!(
        ctx.accounts.user_profile.data.links,
        vec![
            link("label0", "https://x/0"),
            link("label2", "https://x/2"),
            link("label3", "https://x/3"),
            link("label4", "https://x/4"),
        ]
    );
    assert_eq!(remove_link(&mut ctx, 3), Ok(()));
    assert_eq!(ctx.accounts.user_profile.data.links.len(), 3);
}

#[test]
fn remove_link_refuses_an_index_out_of_range() {
    let mut ctx = removing(with_links(alice(), 2), signed(alice()));
    let before = ctx.clone();
    assert_eq!(remove_link(&mut ctx, 2), Err(ErrorCode::IndexOutOfBounds));
    assert_eq!(ctx, before);
    let mut empty = removing(created(alice(), "alice"), signed(alice()));
    assert_eq!(remove_link(&mut empty, 0), Err(ErrorCode::IndexOutOfBounds));
}

#[test]
fn a_stranger_changes_nothing() {
    let account = with_links(alice(), 3);

    let mut add = adding(account.clone(), signed(mallory()));
    let before = add.clone();
    assert_eq!(add_link(&mut add, "x".to_string(), "y".to_string()), Err(ErrorCode::AuthorizationFailure));
    assert_eq!(add, before);

    let mut update = updating(account.clone(), signed(mallory()));
    assert_eq!(
        update_link(&mut update, 0, "x".to_string(), "y".to_string()),
        Err(ErrorCode::AuthorizationFailure)
    );
    assert_eq!(update.accounts.user_profile, account);

    let mut remove = removing(account.clone(), signed(mallory()));
    assert_eq!(remove_link(&mut remove, 0), Err(ErrorCode::AuthorizationFailure));
    assert_eq!(remove.accounts.user_profile, account);
}

#[test]
fn the_guard_comes_before_every_other_check() {
    let account = with_links(alice(), 10);
    let mut add = adding(account.clone(), signed(mallory()));
    assert_eq!(add_link(&mut add, "x".to_string(), "y".to_string()), Err(ErrorCode::AuthorizationFailure));
    let mut remove = removing(account, signed(mallory()));
    assert_eq!(remove_link(&mut remove, 200), Err(ErrorCode::AuthorizationFailure));
}

#[test]
fn an_owner_who_has_not_signed_changes_nothing() {
    let account = with_links(alice(), 1);
    let mut ctx = removing(account.clone(), Signer { key: alice(), is_signer: false });
    assert_eq!(remove_link(&mut ctx, 0), Err(ErrorCode::AuthorizationFailure));
    assert_eq!(ctx.accounts.user_profile, account);
}

#[test]
fn a_record_at_another_address_is_refused() {
    let mut account = with_links(alice(), 1);
    account.key = Address::new([3u8; 32]);
    let mut ctx = adding(account.clone(), signed(alice()));
    assert_eq!(add_link(&mut ctx, "x".to_string(), "y".to_string()), Err(ErrorCode::AuthorizationFailure));
    assert_eq!(ctx.accounts.user_profile, account);
}

#[test]
fn a_record_with_another_bump_is_refused() {
    let mut account = with_links(alice(), 1);
    account.data.bump = account.data.bump.wrapping_sub(1);
    let mut ctx = adding(account.clone(), signed(alice()));
    assert_eq!(add_link(&mut ctx, "x".to_string(), "y".to_string()), Err(ErrorCode::AuthorizationFailure));
    assert_eq!(ctx.accounts.user_profile, account);
}

#[test]
fn a_record_under_another_program_is_refused() {
    let account = with_links(alice(), 1);
    let mut ctx = Context {
        program_id: Address::new([8u8; 32]),
        accounts: AddLink { user_profile: account.clone(), authority: signed(alice()) },
    };
    assert_eq!(add_link(&mut ctx, "x".to_string(), "y".to_string()), Err(ErrorCode::AuthorizationFailure));
    assert_eq!(ctx.accounts.user_profile, account);
}

#[test]
fn create_add_add_remove() {
    let mut add = adding(created(alice(), "alice"), signed(alice()));
    assert_eq!(add_link(&mut add, "gh".to_string(), "https://x/a".to_string()), Ok(()));
    assert_eq!(add_link(&mut add, "tw".to_string(), "https://x/b".to_string()), Ok(()));
    let mut remove = removing(add.accounts.user_profile, signed(alice()));
    assert_eq!(remove_link(&mut remove, 0), Ok(()));
    assert_eq!(remove.accounts.user_profile.data.links, vec![link("tw", "https://x/b")]);
    assert_eq!(remove.accounts.user_profile.data.display_name, "alice");
    assert_eq!(remove.accounts.user_profile.data.authority, alice());
}

#[test]
fn every_refusal_has_its_message() {
    assert_eq!(ErrorCode::IndexOutOfBounds.message(), "The provided index is out of bounds.");
    assert_eq!(ErrorCode::LinkLimitReached.message(), "Cannot add more links. The limit is 10.");
    assert_eq!(ErrorCode::DisplayNameTooLong.message(), "Display name is too long.");
    assert_eq!(ErrorCode::LabelTooLong.message(), "Label is too long.");
    assert_eq!(ErrorCode::UrlTooLong.message(), "URL is too long.");
    assert_eq!(ErrorCode::AuthorizationFailure.message(), "The signer does not control this profile.");
    assert_eq!(ErrorCode::AddressAlreadyInUse.message(), "A profile already exists for this owner.");
}
