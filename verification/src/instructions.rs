//! The four calls: creating a profile, and adding, replacing and removing a
//! link.

use crate::accounts::{
    authorize, found_bytes, guard_passes, AddLink, Context, CreateProfile, ProfileAccount,
    RemoveLink, Signer, UpdateLink,
};
use crate::address::{find_profile_address, found_profile_address, Address};
use crate::error::ErrorCode;
use crate::state::{ProfileView, UserProfile};
use vstd::prelude::*;

verus! {

/// What creation does once the address of the caller's profile has been
/// searched: the record that it writes into the slot, or the reason why it
/// writes none.
pub open spec fn creation_outcome(
    accounts: CreateProfile,
    found: Option<(Seq<u8>, u8)>,
    display_name: Seq<char>,
) -> Result<ProfileView, ErrorCode> {
    match found {
        Some((address, bump)) => {
            if !accounts.authority.is_signer || address != accounts.user_profile.key@ {
                Err(ErrorCode::AuthorizationFailure)
            } else if accounts.user_profile.data is Some {
                Err(ErrorCode::AddressAlreadyInUse)
            } else {
                ProfileView::created(accounts.authority.key@, bump, display_name)
            }
        },
        None => Err(ErrorCode::AuthorizationFailure),
    }
}

/// What `create_profile` does.
pub open spec fn create_profile_outcome(ctx: Context<CreateProfile>, display_name: Seq<char>) -> Result<
    ProfileView,
    ErrorCode,
> {
    creation_outcome(
        ctx.accounts,
        found_profile_address(ctx.accounts.authority.key, ctx.program_id),
        display_name,
    )
}

/// What a change does to a record behind the guard: the change itself where
/// the guard passes, a refusal where it does not.
pub open spec fn guarded(
    program_id: Address,
    profile: ProfileAccount,
    authority: Signer,
    change: Result<ProfileView, ErrorCode>,
) -> Result<ProfileView, ErrorCode> {
    if guard_passes(program_id, profile, authority) {
        change
    } else {
        Err(ErrorCode::AuthorizationFailure)
    }
}

/// What `add_link` does.
pub open spec fn add_link_outcome(ctx: Context<AddLink>, label: Seq<char>, url: Seq<char>) -> Result<
    ProfileView,
    ErrorCode,
> {
    guarded(
        ctx.program_id,
        ctx.accounts.user_profile,
        ctx.accounts.authority,
        ctx.accounts.user_profile.data@.append_link(label, url),
    )
}

/// What `update_link` does.
pub open spec fn update_link_outcome(
    ctx: Context<UpdateLink>,
    index: u8,
    label: Seq<char>,
    url: Seq<char>,
) -> Result<ProfileView, ErrorCode> {
    guarded(
        ctx.program_id,
        ctx.accounts.user_profile,
        ctx.accounts.authority,
        ctx.accounts.user_profile.data@.replace_link(index as int, label, url),
    )
}

/// What `remove_link` does.
pub open spec fn remove_link_outcome(ctx: Context<RemoveLink>, index: u8) -> Result<
    ProfileView,
    ErrorCode,
> {
    guarded(
        ctx.program_id,
        ctx.accounts.user_profile,
        ctx.accounts.authority,
        ctx.accounts.user_profile.data@.delete_link(index as int),
    )
}

impl CreateProfile {
    /// Creates the profile in the slot, given what the search for the
    /// caller's profile address has found.
    pub fn create_at(&mut self, found: Option<(Address, u8)>, display_name: String) -> (done:
        Result<(), ErrorCode>)
        ensures
            final(self).authority == old(self).authority,
            final(self).user_profile.key == old(self).user_profile.key,
            match done {
                Ok(()) => {
                    &&& final(self).user_profile.data matches Some(profile)
                    &&& creation_outcome(*old(self), found_bytes(found), display_name@) == Ok::<
                        ProfileView,
                        ErrorCode,
                    >(profile@)
                    &&& profile.authority == old(self).authority.key
                },
                Err(code) => {
                    &&& creation_outcome(*old(self), found_bytes(found), display_name@) == Err::<
                        ProfileView,
                        ErrorCode,
                    >(code)
                    &&& *final(self) == *old(self)
                },
            },
    {
        match found {
            None => Err(ErrorCode::AuthorizationFailure),
            Some((address, bump)) => {
                if !self.authority.is_signer || !address.same(&self.user_profile.key) {
                    return Err(ErrorCode::AuthorizationFailure);
                }
                if self.user_profile.data.is_some() {
                    return Err(ErrorCode::AddressAlreadyInUse);
                }
                match UserProfile::new(self.authority.key, bump, display_name) {
                    Ok(profile) => {
                        self.user_profile.data = Some(profile);
                        Ok(())
                    },
                    Err(code) => Err(code),
                }
            },
        }
    }
}

/// Creates the caller's profile, with the given display name and no links,
/// in the slot at the address derived for the caller.
///
/// The profile that it writes passes the guard of every later call by its
/// owner: the bump that it records leads back to the address of the slot.
pub fn create_profile(ctx: &mut Context<CreateProfile>, display_name: String) -> (done: Result<
    (),
    ErrorCode,
>)
    ensures
        final(ctx).program_id == old(ctx).program_id,
        final(ctx).accounts.authority == old(ctx).accounts.authority,
        final(ctx).accounts.user_profile.key == old(ctx).accounts.user_profile.key,
        match done {
            Ok(()) => {
                &&& final(ctx).accounts.user_profile.data matches Some(profile)
                &&& create_profile_outcome(*old(ctx), display_name@) == Ok::<
                    ProfileView,
                    ErrorCode,
                >(profile@)
                &&& guard_passes(
                    old(ctx).program_id,
                    ProfileAccount { key: old(ctx).accounts.user_profile.key, data: profile },
                    old(ctx).accounts.authority,
                )
            },
            Err(code) => {
                &&& create_profile_outcome(*old(ctx), display_name@) == Err::<
                    ProfileView,
                    ErrorCode,
                >(code)
                &&& *final(ctx) == *old(ctx)
            },
        },
{
    let found = find_profile_address(&ctx.accounts.authority.key, &ctx.program_id);
    ctx.accounts.create_at(found, display_name)
}

/// Adds a link behind the links that the caller's profile holds.
pub fn add_link(ctx: &mut Context<AddLink>, label: String, url: String) -> (done: Result<
    (),
    ErrorCode,
>)
    ensures
        final(ctx).program_id == old(ctx).program_id,
        final(ctx).accounts.authority == old(ctx).accounts.authority,
        final(ctx).accounts.user_profile.key == old(ctx).accounts.user_profile.key,
        match done {
            Ok(()) => add_link_outcome(*old(ctx), label@, url@) == Ok::<ProfileView, ErrorCode>(
                final(ctx).accounts.user_profile.data@,
            ),
            Err(code) => {
                &&& add_link_outcome(*old(ctx), label@, url@) == Err::<ProfileView, ErrorCode>(
                    code,
                )
                &&& *final(ctx) == *old(ctx)
            },
        },
{
    if !authorize(&ctx.program_id, &ctx.accounts.user_profile, &ctx.accounts.authority) {
        return Err(ErrorCode::AuthorizationFailure);
    }
    ctx.accounts.user_profile.data.append_link(label, url)
}

/// Replaces the link at `index` of the caller's profile.
pub fn update_link(ctx: &mut Context<UpdateLink>, index: u8, label: String, url: String) -> (done:
    Result<(), ErrorCode>)
    ensures
        final(ctx).program_id == old(ctx).program_id,
        final(ctx).accounts.authority == old(ctx).accounts.authority,
        final(ctx).accounts.user_profile.key == old(ctx).accounts.user_profile.key,
        match done {
            Ok(()) => update_link_outcome(*old(ctx), index, label@, url@) == Ok::<
                ProfileView,
                ErrorCode,
            >(final(ctx).accounts.user_profile.data@),
            Err(code) => {
                &&& update_link_outcome(*old(ctx), index, label@, url@) == Err::<
                    ProfileView,
                    ErrorCode,
                >(code)
                &&& *final(ctx) == *old(ctx)
            },
        },
{
    if !authorize(&ctx.program_id, &ctx.accounts.user_profile, &ctx.accounts.authority) {
        return Err(ErrorCode::AuthorizationFailure);
    }
    ctx.accounts.user_profile.data.replace_link(index, label, url)
}

/// Removes the link at `index` of the caller's profile.
pub fn remove_link(ctx: &mut Context<RemoveLink>, index: u8) -> (done: Result<(), ErrorCode>)
    ensures
        final(ctx).program_id == old(ctx).program_id,
        final(ctx).accounts.authority == old(ctx).accounts.authority,
        final(ctx).accounts.user_profile.key == old(ctx).accounts.user_profile.key,
        match done {
            Ok(()) => remove_link_outcome(*old(ctx), index) == Ok::<ProfileView, ErrorCode>(
                final(ctx).accounts.user_profile.data@,
            ),
            Err(code) => {
                &&& remove_link_outcome(*old(ctx), index) == Err::<ProfileView, ErrorCode>(code)
                &&& *final(ctx) == *old(ctx)
            },
        },
{
    if !authorize(&ctx.program_id, &ctx.accounts.user_profile, &ctx.accounts.authority) {
        return Err(ErrorCode::AuthorizationFailure);
    }
    ctx.accounts.user_profile.data.delete_link(index)
}

} // verus!
