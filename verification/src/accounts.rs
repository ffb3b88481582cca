//! The accounts that a call names, and the guard that stands before every
//! change of a profile.

use crate::address::{derive_profile_address, profile_address, Address};
use crate::state::UserProfile;
use vstd::prelude::*;

verus! {

/// The party in whose name a call is made, as the host presents it.
#[derive(Clone, Copy, Debug, PartialEq, Eq)]
pub struct Signer {
    /// The identity that the party claims.
    pub key: Address,
    /// Whether the host has verified that identity's signature over the call.
    pub is_signer: bool,
}

/// A stored profile together with the address at which the host found it.
#[derive(Clone, Debug, PartialEq, Eq)]
pub struct ProfileAccount {
    pub key: Address,
    pub data: UserProfile,
}

/// A place in storage that may or may not hold a profile yet.
#[derive(Clone, Debug, PartialEq, Eq)]
pub struct ProfileSlot {
    pub key: Address,
    pub data: Option<UserProfile>,
}

/// What a call is made with: the program under which addresses are derived,
/// and the accounts that the call names.
#[derive(Clone, Debug, PartialEq, Eq)]
pub struct Context<T> {
    pub program_id: Address,
    pub accounts: T,
}

/// The accounts of a call that creates a profile.
#[derive(Clone, Debug, PartialEq, Eq)]
pub struct CreateProfile {
    pub user_profile: ProfileSlot,
    pub authority: Signer,
}

/// The accounts of a call that adds a link.
#[derive(Clone, Debug, PartialEq, Eq)]
pub struct AddLink {
    pub user_profile: ProfileAccount,
    pub authority: Signer,
}

/// The accounts of a call that replaces a link.
#[derive(Clone, Debug, PartialEq, Eq)]
pub struct UpdateLink {
    pub user_profile: ProfileAccount,
    pub authority: Signer,
}

/// The accounts of a call that removes a link.
#[derive(Clone, Debug, PartialEq, Eq)]
pub struct RemoveLink {
    pub user_profile: ProfileAccount,
    pub authority: Signer,
}

/// The bytes of an address that may be missing.
pub open spec fn address_bytes(address: Option<Address>) -> Option<Seq<u8>> {
    match address {
        Some(address) => Some(address@),
        None => None,
    }
}

/// The bytes of a found address, with its bump.
pub open spec fn found_bytes(found: Option<(Address, u8)>) -> Option<(Seq<u8>, u8)> {
    match found {
        Some((address, bump)) => Some((address@, bump)),
        None => None,
    }
}

/// What the guard decides once the record's address has been derived again:
/// the caller has signed, the record names the caller as its owner, and the
/// record lies at the derived address.
pub open spec fn guard_accepts(
    profile: ProfileAccount,
    authority: Signer,
    derived: Option<Seq<u8>>,
) -> bool {
    &&& authority.is_signer
    &&& profile.data.authority == authority.key
    &&& derived == Some(profile.key@)
}

/// Whether the guard lets `authority` change `profile` under the program
/// `program_id`. The address is derived from the caller's identity and the
/// bump that the record holds.
pub open spec fn guard_passes(program_id: Address, profile: ProfileAccount, authority: Signer) -> bool {
    guard_accepts(
        profile,
        authority,
        profile_address(authority.key, profile.data.bump, program_id),
    )
}

/// Decides on a call, given the address that was derived again for the
/// caller.
pub fn check_guard(profile: &ProfileAccount, authority: &Signer, derived: &Option<Address>) -> (ok:
    bool)
    ensures
        ok == guard_accepts(*profile, *authority, address_bytes(*derived)),
{
    if !authority.is_signer {
        return false;
    }
    if !profile.data.authority.same(&authority.key) {
        return false;
    }
    match derived {
        Some(address) => address.same(&profile.key),
        None => false,
    }
}

/// The guard of every call that changes a profile.
pub fn authorize(program_id: &Address, profile: &ProfileAccount, authority: &Signer) -> (ok: bool)
    ensures
        ok == guard_passes(*program_id, *profile, *authority),
{
    let derived = derive_profile_address(&authority.key, profile.data.bump, program_id);
    check_guard(profile, authority, &derived)
}

} // verus!
