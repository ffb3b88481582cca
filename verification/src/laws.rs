//! What holds of the operations and of the storage layout, for all inputs.

use crate::accounts::{guard_passes, Context, CreateProfile, ProfileAccount, Signer};
use crate::address::{profile_address, Address};
use crate::error::ErrorCode;
use crate::instructions::{create_profile_outcome, creation_outcome, guarded};
use crate::layout::{
    encode_profile, lemma_profile_round_trip, lemma_valid_profile_fits, parse_profile,
    PROFILE_SPACE,
};
use crate::state::{
    byte_len, LinkView, ProfileView, UserProfile, MAX_DISPLAY_NAME_LEN, MAX_LABEL_LEN, MAX_LINKS,
    MAX_URL_LEN,
};
use vstd::prelude::*;

verus! {

/// Creation succeeds exactly when the caller has signed, the slot lies at the
/// address found for the caller, the slot holds no profile yet, and the
/// display name is within its bound. The profile that it writes belongs to
/// the caller, carries the display name and holds no links. This holds
/// whatever the search for the caller's address has found.
pub proof fn lemma_create_profile_succeeds(
    accounts: CreateProfile,
    found: Option<(Seq<u8>, u8)>,
    display_name: Seq<char>,
)
    ensures
        creation_outcome(accounts, found, display_name) is Ok <==> {
            &&& accounts.authority.is_signer
            &&& found matches Some((address, _)) && address == accounts.user_profile.key@
            &&& accounts.user_profile.data is None
            &&& byte_len(display_name) <= MAX_DISPLAY_NAME_LEN
        },
        creation_outcome(accounts, found, display_name) matches Ok(profile) ==> {
            &&& profile.authority == accounts.authority.key@
            &&& found matches Some((_, bump)) && profile.bump == bump
            &&& profile.display_name == display_name
            &&& profile.links.len() == 0
            &&& profile.valid()
        },
{
}

/// Where every other condition of creation holds, a display name over its
/// bound is refused as too long.
pub proof fn lemma_long_display_name_is_refused(
    accounts: CreateProfile,
    found: Option<(Seq<u8>, u8)>,
    display_name: Seq<char>,
)
    requires
        accounts.authority.is_signer,
        found matches Some((address, _)) && address == accounts.user_profile.key@,
        accounts.user_profile.data is None,
        byte_len(display_name) > MAX_DISPLAY_NAME_LEN,
    ensures
        creation_outcome(accounts, found, display_name) == Err::<ProfileView, ErrorCode>(
            ErrorCode::DisplayNameTooLong,
        ),
{
}

/// Creation succeeds once: a slot that holds a profile takes no other. The
/// caller whose slot it is learns that the address is in use.
pub proof fn lemma_create_profile_only_once(
    accounts: CreateProfile,
    found: Option<(Seq<u8>, u8)>,
    display_name: Seq<char>,
)
    requires
        accounts.user_profile.data is Some,
    ensures
        creation_outcome(accounts, found, display_name) is Err,
        accounts.authority.is_signer && (found matches Some((address, _)) && address
            == accounts.user_profile.key@) ==> creation_outcome(accounts, found, display_name)
            == Err::<ProfileView, ErrorCode>(ErrorCode::AddressAlreadyInUse),
{
}

/// An owner has one place for a profile under a program: two creations in
/// the name of one owner that both succeed write to the same address.
pub proof fn lemma_one_address_per_owner(
    first: Context<CreateProfile>,
    second: Context<CreateProfile>,
    first_name: Seq<char>,
    second_name: Seq<char>,
)
    ensures
        (first.program_id == second.program_id && first.accounts.authority.key
            == second.accounts.authority.key && (create_profile_outcome(first, first_name) is Ok)
            && (create_profile_outcome(second, second_name) is Ok))
            ==> first.accounts.user_profile.key == second.accounts.user_profile.key,
{
    let a = first.accounts.user_profile.key;
    let b = second.accounts.user_profile.key;
    if a@ == b@ {
        assert(a.bytes =~= b.bytes);
    }
}

/// A call in the name of anyone but the owner of the record is refused,
/// whatever change it asks for. So is a call that the caller has not signed,
/// and one on a record that does not lie at the address derived for the
/// caller.
pub proof fn lemma_stranger_is_refused(
    program_id: Address,
    profile: ProfileAccount,
    authority: Signer,
    change: Result<ProfileView, ErrorCode>,
)
    ensures
        authority.key != profile.data.authority ==> guarded(program_id, profile, authority, change)
            == Err::<ProfileView, ErrorCode>(ErrorCode::AuthorizationFailure),
        !authority.is_signer ==> guarded(program_id, profile, authority, change) == Err::<
            ProfileView,
            ErrorCode,
        >(ErrorCode::AuthorizationFailure),
        profile_address(authority.key, profile.data.bump, program_id) != Some(
            profile.key@,
        ) ==> guarded(program_id, profile, authority, change) == Err::<ProfileView, ErrorCode>(
            ErrorCode::AuthorizationFailure,
        ),
        guard_passes(program_id, profile, authority) ==> guarded(
            program_id,
            profile,
            authority,
            change,
        ) == change,
{
}

/// A link is added exactly while the profile holds fewer links than it may
/// and both texts are within their bounds. It is added behind the others,
/// which stay as they are. A full profile refuses it.
pub proof fn lemma_append_link(profile: ProfileView, label: Seq<char>, url: Seq<char>)
    ensures
        profile.links.len() >= MAX_LINKS ==> profile.append_link(label, url) == Err::<
            ProfileView,
            ErrorCode,
        >(ErrorCode::LinkLimitReached),
        profile.append_link(label, url) is Ok <==> {
            &&& profile.links.len() < MAX_LINKS
            &&& byte_len(label) <= MAX_LABEL_LEN
            &&& byte_len(url) <= MAX_URL_LEN
        },
        profile.append_link(label, url) matches Ok(after) ==> {
            &&& after.links.len() == profile.links.len() + 1
            &&& after.links.last() == (LinkView { label, url })
            &&& forall|j: int| 0 <= j < profile.links.len() ==> after.links[j] == profile.links[j]
        },
{
}

/// What adding the given links one after the other does to a profile: the
/// profile after the last of them, or the first refusal.
pub open spec fn append_all(profile: ProfileView, links: Seq<LinkView>) -> Result<
    ProfileView,
    ErrorCode,
>
    decreases links.len(),
{
    if links.len() == 0 {
        Ok(profile)
    } else {
        match profile.append_link(links.first().label, links.first().url) {
            Ok(after) => append_all(after, links.drop_first()),
            Err(code) => Err(code),
        }
    }
}

/// Links within their bounds can be added one after the other until the
/// profile is full: as long as they all find room, the profile ends up with
/// them behind the links it had, in their order. Where they do not all find
/// room, the one that finds the profile full is refused.
pub proof fn lemma_links_up_to_the_limit(profile: ProfileView, links: Seq<LinkView>)
    requires
        profile.links.len() <= MAX_LINKS,
        forall|i: int| 0 <= i < links.len() ==> (#[trigger] links[i]).valid(),
    ensures
        profile.links.len() + links.len() <= MAX_LINKS ==> append_all(profile, links) == Ok::<
            ProfileView,
            ErrorCode,
        >(profile.with_links(profile.links + links)),
        profile.links.len() + links.len() > MAX_LINKS ==> append_all(profile, links) == Err::<
            ProfileView,
            ErrorCode,
        >(ErrorCode::LinkLimitReached),
    decreases links.len(),
{
    if links.len() == 0 {
        assert(profile.links + links =~= profile.links);
    } else {
        let first = links.first();
        let tail = links.drop_first();
        assert(first.valid());
        if profile.links.len() < MAX_LINKS {
            let after = profile.with_links(profile.links.push(first));
            assert(profile.append_link(first.label, first.url) == Ok::<ProfileView, ErrorCode>(
                after,
            ));
            assert forall|i: int| 0 <= i < tail.len() implies (#[trigger] tail[i]).valid() by {
                assert(tail[i] == links[i + 1]);
            }
            lemma_links_up_to_the_limit(after, tail);
            assert(after.links + tail =~= profile.links + links);
        }
    }
}

/// Replacing the link at an index changes that link and no other: the
/// number of links and every other link stay as they are. An index that
/// names no link is refused.
pub proof fn lemma_replace_link(profile: ProfileView, index: int, label: Seq<char>, url: Seq<char>)
    ensures
        !(0 <= index < profile.links.len()) ==> profile.replace_link(index, label, url) == Err::<
            ProfileView,
            ErrorCode,
        >(ErrorCode::IndexOutOfBounds),
        profile.replace_link(index, label, url) is Ok <==> {
            &&& 0 <= index < profile.links.len()
            &&& byte_len(label) <= MAX_LABEL_LEN
            &&& byte_len(url) <= MAX_URL_LEN
        },
        profile.replace_link(index, label, url) matches Ok(after) ==> {
            &&& after.links.len() == profile.links.len()
            &&& after.links[index] == (LinkView { label, url })
            &&& forall|j: int|
                0 <= j < profile.links.len() && j != index ==> after.links[j] == profile.links[j]
        },
{
}

/// Removing the link at an index leaves one link fewer: the links in front
/// of it stay where they are, and each link behind it moves one place to the
/// front. An index that names no link is refused.
pub proof fn lemma_delete_link(profile: ProfileView, index: int)
    ensures
        !(0 <= index < profile.links.len()) ==> profile.delete_link(index) == Err::<
            ProfileView,
            ErrorCode,
        >(ErrorCode::IndexOutOfBounds),
        profile.delete_link(index) is Ok <==> 0 <= index < profile.links.len(),
        profile.delete_link(index) matches Ok(after) ==> {
            &&& after.links.len() == profile.links.len() - 1
            &&& forall|j: int| 0 <= j < index ==> after.links[j] == profile.links[j]
            &&& forall|j: int|
                index < j < profile.links.len() ==> after.links[j - 1] == profile.links[j]
        },
{
}

/// No change touches the owner, the bump or the display name, and every
/// change leaves a profile that was within the bounds of the schema within
/// them.
pub proof fn lemma_changes_keep_the_schema(
    profile: ProfileView,
    index: int,
    label: Seq<char>,
    url: Seq<char>,
    after: ProfileView,
)
    requires
        profile.append_link(label, url) == Ok::<ProfileView, ErrorCode>(after)
            || profile.replace_link(index, label, url) == Ok::<ProfileView, ErrorCode>(after)
            || profile.delete_link(index) == Ok::<ProfileView, ErrorCode>(after),
    ensures
        after.authority == profile.authority,
        after.bump == profile.bump,
        after.display_name == profile.display_name,
        profile.valid() ==> after.valid(),
{
    if profile.valid() {
        let link = LinkView { label, url };
        if profile.append_link(label, url) == Ok::<ProfileView, ErrorCode>(after) {
            assert forall|i: int| 0 <= i < after.links.len() implies (
            #[trigger] after.links[i]).valid() by {
                if i < profile.links.len() {
                    assert(profile.links[i].valid());
                }
            }
        } else if profile.replace_link(index, label, url) == Ok::<ProfileView, ErrorCode>(after) {
            assert forall|i: int| 0 <= i < after.links.len() implies (
            #[trigger] after.links[i]).valid() by {
                if i != index {
                    assert(profile.links[i].valid());
                }
            }
        } else {
            assert forall|i: int| 0 <= i < after.links.len() implies (
            #[trigger] after.links[i]).valid() by {
                if i < index {
                    assert(profile.links[i].valid());
                } else {
                    assert(profile.links[i + 1].valid());
                }
            }
        }
    }
}

/// A profile within the bounds of the schema can be stored in the space
/// reserved for it, and what was stored is read back as the same profile,
/// whatever bytes follow it in storage.
pub proof fn lemma_stored_profile_reads_back(profile: UserProfile, rest: Seq<u8>)
    requires
        profile@.valid(),
    ensures
        encode_profile(profile@).len() <= PROFILE_SPACE,
        parse_profile(encode_profile(profile@) + rest) == Some(profile@),
{
    lemma_valid_profile_fits(profile@);
    lemma_profile_round_trip(profile@, rest);
}

} // verus!
