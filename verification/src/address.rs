//! Addresses, and how the address of a profile is derived from its owner.

use vstd::prelude::*;

verus! {

/// The 32 bytes that name an account: an owner's public identity, a program,
/// or the place where a record is stored.
#[derive(Clone, Copy, Debug, PartialEq, Eq)]
pub struct Address {
    pub bytes: [u8; 32],
}

impl View for Address {
    type V = Seq<u8>;

    open spec fn view(&self) -> Seq<u8> {
        self.bytes@
    }
}

impl Address {
    pub fn new(bytes: [u8; 32]) -> (address: Address)
        ensures
            address.bytes == bytes,
    {
        Address { bytes }
    }

    /// Whether two addresses hold the same bytes.
    pub fn same(&self, other: &Address) -> (equal: bool)
        ensures
            equal == (*self == *other),
            equal == (self@ == other@),
    {
        let mut i: usize = 0;
        while i < 32
            invariant
                i <= 32,
                forall|j: int| 0 <= j < i ==> self.bytes[j] == other.bytes[j],
            decreases 32 - i,
        {
            if self.bytes[i] != other.bytes[i] {
                return false;
            }
            i += 1;
        }
        assert(self.bytes =~= other.bytes);
        true
    }

    /// The address that stands in `data` from the place `at` on.
    pub fn from_slice(data: &[u8], at: usize) -> (address: Address)
        requires
            at + 32 <= data@.len(),
        ensures
            address@ == data@.subrange(at as int, at + 32),
    {
        let mut bytes: [u8; 32] = [0u8; 32];
        let len: usize = data.len();
        let mut i: usize = 0;
        while i < 32
            invariant
                i <= 32,
                at + 32 <= data@.len() == len,
                forall|j: int| 0 <= j < i ==> bytes[j] == data@[at + j],
            decreases 32 - i,
        {
            bytes.set(i, data[at + i]);
            i += 1;
        }
        assert(bytes@ =~= data@.subrange(at as int, at + 32));
        Address { bytes }
    }

    /// The bytes of the address as a vector.
    pub fn to_vec(&self) -> (out: Vec<u8>)
        ensures
            out@ == self@,
    {
        let mut out: Vec<u8> = Vec::new();
        let mut i: usize = 0;
        while i < 32
            invariant
                i <= 32,
                out@ == self@.subrange(0, i as int),
            decreases 32 - i,
        {
            out.push(self.bytes[i]);
            assert(out@ =~= self@.subrange(0, i + 1));
            i += 1;
        }
        assert(self@.subrange(0, 32) =~= self@);
        out
    }
}

/// The first seed of every profile address. It spells `profile`.
pub open spec fn profile_tag() -> Seq<u8> {
    seq![112u8, 114u8, 111u8, 102u8, 105u8, 108u8, 101u8]
}

/// The seeds from which the address of `owner`'s profile is found.
pub open spec fn profile_seeds(owner: Address) -> Seq<Seq<u8>> {
    seq![profile_tag(), owner@]
}

/// The seeds from which the address of `owner`'s profile is derived again,
/// once the bump is known.
pub open spec fn profile_seeds_with_bump(owner: Address, bump: u8) -> Seq<Seq<u8>> {
    profile_seeds(owner).push(seq![bump])
}

/// What `Pubkey::create_program_address` derives from `seeds` for the program
/// `program_id`: the address, or `None` where it reports an error.
pub uninterp spec fn program_address(seeds: Seq<Seq<u8>>, program_id: Seq<u8>) -> Option<Seq<u8>>;

/// What `Pubkey::try_find_program_address` finds for `seeds` and the program
/// `program_id`: an address and the bump that gives it, or `None`.
pub uninterp spec fn found_program_address(seeds: Seq<Seq<u8>>, program_id: Seq<u8>) -> Option<
    (Seq<u8>, u8),
>;

/// Calls `Pubkey::create_program_address`. The contract names the result and
/// claims nothing of it: an error of the outside function becomes `None`.
#[verifier::external_body]
pub(crate) fn create_program_address(seeds: &Vec<Vec<u8>>, program_id: &Address) -> (derived:
    Option<Address>)
    ensures
        derived is Some == program_address(seeds.deep_view(), program_id@) is Some,
        derived matches Some(address) ==> program_address(seeds.deep_view(), program_id@) == Some(
            address@,
        ),
{
    let parts: Vec<&[u8]> = seeds.iter().map(|seed| seed.as_slice()).collect();
    let program = anchor_lang::prelude::Pubkey::new_from_array(program_id.bytes);
    match anchor_lang::prelude::Pubkey::create_program_address(&parts, &program) {
        Ok(key) => Some(Address { bytes: key.to_bytes() }),
        Err(_) => None,
    }
}

/// Calls `Pubkey::try_find_program_address`. The contract names the result,
/// and claims what the outside source shows of a result that is found: the
/// function returns an address only when `create_program_address` gave it for
/// the same seeds followed by the one-byte seed that holds the bump.
#[verifier::external_body]
pub(crate) fn try_find_program_address(seeds: &Vec<Vec<u8>>, program_id: &Address) -> (found:
    Option<(Address, u8)>)
    ensures
        found is Some == found_program_address(seeds.deep_view(), program_id@) is Some,
        found matches Some((address, bump)) ==> {
            &&& found_program_address(seeds.deep_view(), program_id@) == Some((address@, bump))
            &&& program_address(seeds.deep_view().push(seq![bump]), program_id@) == Some(address@)
        },
{
    let parts: Vec<&[u8]> = seeds.iter().map(|seed| seed.as_slice()).collect();
    let program = anchor_lang::prelude::Pubkey::new_from_array(program_id.bytes);
    match anchor_lang::prelude::Pubkey::try_find_program_address(&parts, &program) {
        Some((key, bump)) => Some((Address { bytes: key.to_bytes() }, bump)),
        None => None,
    }
}

/// The address and bump found for `owner`'s profile under the program
/// `program_id`, `None` where the search finds none.
pub open spec fn found_profile_address(owner: Address, program_id: Address) -> Option<
    (Seq<u8>, u8),
> {
    found_program_address(profile_seeds(owner), program_id@)
}

/// The address derived for `owner`'s profile from a known bump, `None` where
/// that bump gives no address.
pub open spec fn profile_address(owner: Address, bump: u8, program_id: Address) -> Option<Seq<u8>> {
    program_address(profile_seeds_with_bump(owner, bump), program_id@)
}

fn tag_bytes() -> (tag: Vec<u8>)
    ensures
        tag@ == profile_tag(),
{
    let tag: Vec<u8> = vec![112u8, 114u8, 111u8, 102u8, 105u8, 108u8, 101u8];
    assert(tag@ =~= profile_tag());
    tag
}

fn seeds_of(owner: &Address) -> (seeds: Vec<Vec<u8>>)
    ensures
        seeds.deep_view() == profile_seeds(*owner),
{
    let mut seeds: Vec<Vec<u8>> = Vec::new();
    seeds.push(tag_bytes());
    seeds.push(owner.to_vec());
    assert(seeds.deep_view() =~~= profile_seeds(*owner));
    seeds
}

fn seeds_with_bump_of(owner: &Address, bump: u8) -> (seeds: Vec<Vec<u8>>)
    ensures
        seeds.deep_view() == profile_seeds_with_bump(*owner, bump),
{
    let mut seeds: Vec<Vec<u8>> = Vec::new();
    seeds.push(tag_bytes());
    seeds.push(owner.to_vec());
    let mut last: Vec<u8> = Vec::new();
    last.push(bump);
    seeds.push(last);
    assert(seeds.deep_view() =~~= profile_seeds_with_bump(*owner, bump));
    seeds
}

/// Searches the address of `owner`'s profile under the program `program_id`.
///
/// A search that succeeds also gives the bump with which
/// [`derive_profile_address`] arrives at the same address.
pub fn find_profile_address(owner: &Address, program_id: &Address) -> (found: Option<
    (Address, u8),
>)
    ensures
        found is Some == found_profile_address(*owner, *program_id) is Some,
        found matches Some((address, bump)) ==> {
            &&& found_profile_address(*owner, *program_id) == Some((address@, bump))
            &&& profile_address(*owner, bump, *program_id) == Some(address@)
        },
{
    let seeds = seeds_of(owner);
    try_find_program_address(&seeds, program_id)
}

/// Derives the address of `owner`'s profile from a bump that is already
/// known, without searching.
pub fn derive_profile_address(owner: &Address, bump: u8, program_id: &Address) -> (derived:
    Option<Address>)
    ensures
        derived is Some == profile_address(*owner, bump, *program_id) is Some,
        derived matches Some(address) ==> profile_address(*owner, bump, *program_id) == Some(
            address@,
        ),
{
    let seeds = seeds_with_bump_of(owner, bump);
    create_program_address(&seeds, program_id)
}

} // verus!
