//! How a profile is laid out in storage, and how much storage it needs.

use crate::state::{
    byte_len, LinkView, ProfileView, MAX_DISPLAY_NAME_LEN, MAX_LABEL_LEN, MAX_LINKS, MAX_URL_LEN,
};
use vstd::prelude::*;
use vstd::utf8::{
    decode_utf8, encode_utf8, encode_utf8_decode_utf8, encode_utf8_valid_utf8, valid_utf8,
};

verus! {

/// The bytes in front of every stored profile.
pub const HEADER_LEN: usize = 8;

/// The bytes of an address.
pub const ADDRESS_LEN: usize = 32;

/// The bytes of the number that stands in front of a text or a sequence and
/// says how long it is.
pub const PREFIX_LEN: usize = 4;

/// The storage that one link may need: two texts of full length, each with
/// its prefix.
pub const LINK_SPACE: usize = (PREFIX_LEN + MAX_LABEL_LEN) + (PREFIX_LEN + MAX_URL_LEN);

/// The storage that the fields of a profile may need: the owner, the bump,
/// the display name, and a full list of links of full length.
pub const PROFILE_INIT_SPACE: usize = ADDRESS_LEN + 1 + (PREFIX_LEN + MAX_DISPLAY_NAME_LEN) + (
PREFIX_LEN + MAX_LINKS * LINK_SPACE);

/// The storage reserved for a profile when it is created: the header and the
/// fields. It is never made larger afterwards.
pub const PROFILE_SPACE: usize = HEADER_LEN + PROFILE_INIT_SPACE;

/// The header of a stored profile: the first eight bytes of the SHA-256 hash
/// of `account:UserProfile`.
pub open spec fn header() -> Seq<u8> {
    seq![32u8, 37u8, 119u8, 205u8, 179u8, 180u8, 13u8, 194u8]
}

/// A length as four bytes, the lowest first.
pub open spec fn encode_len(len: nat) -> Seq<u8> {
    seq![
        (len % 256) as u8,
        ((len / 256) % 256) as u8,
        ((len / 65536) % 256) as u8,
        ((len / 16777216) % 256) as u8,
    ]
}

/// The length that the first four bytes of `data` stand for.
pub open spec fn decode_len(data: Seq<u8>) -> nat {
    (data[0] as nat) + 256 * (data[1] as nat) + 65536 * (data[2] as nat) + 16777216 * (
    data[3] as nat)
}

/// A text in storage: the length of its UTF-8 encoding, then the encoding.
pub open spec fn encode_text(text: Seq<char>) -> Seq<u8> {
    encode_len(byte_len(text)) + encode_utf8(text)
}

/// A link in storage: its label, then its URL.
pub open spec fn encode_link(link: LinkView) -> Seq<u8> {
    encode_text(link.label) + encode_text(link.url)
}

/// Links in storage, one behind the other.
pub open spec fn encode_links(links: Seq<LinkView>) -> Seq<u8>
    decreases links.len(),
{
    if links.len() == 0 {
        Seq::empty()
    } else {
        encode_link(links.first()) + encode_links(links.drop_first())
    }
}

/// The fields of a profile in storage: the owner, the bump, the display name,
/// the number of links and the links.
pub open spec fn encode_fields(profile: ProfileView) -> Seq<u8> {
    profile.authority + seq![profile.bump] + encode_text(profile.display_name) + encode_len(
        profile.links.len(),
    ) + encode_links(profile.links)
}

/// A profile in storage: the header, then the fields.
pub open spec fn encode_profile(profile: ProfileView) -> Seq<u8> {
    header() + encode_fields(profile)
}

/// The text at the front of `data` and the number of bytes that it takes,
/// `None` where `data` does not begin with a text.
pub open spec fn parse_text(data: Seq<u8>) -> Option<(Seq<char>, int)> {
    if data.len() < PREFIX_LEN {
        None
    } else if data.len() < PREFIX_LEN + decode_len(data) {
        None
    } else if !valid_utf8(data.subrange(PREFIX_LEN as int, PREFIX_LEN + decode_len(data))) {
        None
    } else {
        Some(
            (
                decode_utf8(data.subrange(PREFIX_LEN as int, PREFIX_LEN + decode_len(data))),
                PREFIX_LEN + decode_len(data),
            ),
        )
    }
}

/// The link at the front of `data` and the number of bytes that it takes.
pub open spec fn parse_link(data: Seq<u8>) -> Option<(LinkView, int)> {
    match parse_text(data) {
        Some((label, label_len)) => match parse_text(data.skip(label_len)) {
            Some((url, url_len)) => Some((LinkView { label, url }, label_len + url_len)),
            None => None,
        },
        None => None,
    }
}

/// The `count` links at the front of `data` and the number of bytes that
/// they take.
pub open spec fn parse_links(data: Seq<u8>, count: nat) -> Option<(Seq<LinkView>, int)>
    decreases count,
{
    if count == 0 {
        Some((Seq::empty(), 0))
    } else {
        match parse_link(data) {
            Some((link, link_len)) => match parse_links(data.skip(link_len), (count - 1) as nat) {
                Some((links, links_len)) => Some((seq![link] + links, link_len + links_len)),
                None => None,
            },
            None => None,
        }
    }
}

/// The fields of a profile at the front of `data`, which stand behind the
/// header.
pub open spec fn parse_fields(data: Seq<u8>) -> Option<ProfileView> {
    if data.len() < ADDRESS_LEN + 1 {
        None
    } else {
        match parse_text(data.skip(ADDRESS_LEN + 1)) {
            Some((display_name, name_len)) => {
                let rest = data.skip(ADDRESS_LEN + 1 + name_len);
                if rest.len() < PREFIX_LEN {
                    None
                } else {
                    match parse_links(rest.skip(PREFIX_LEN as int), decode_len(rest)) {
                        Some((links, _)) => Some(
                            ProfileView {
                                authority: data.subrange(0, ADDRESS_LEN as int),
                                bump: data[ADDRESS_LEN as int],
                                display_name,
                                links,
                            },
                        ),
                        None => None,
                    }
                }
            },
            None => None,
        }
    }
}

/// The profile that `data` begins with, `None` where it begins with none.
/// Bytes behind the profile are not looked at.
pub open spec fn parse_profile(data: Seq<u8>) -> Option<ProfileView> {
    if data.len() < HEADER_LEN || data.subrange(0, HEADER_LEN as int) != header() {
        None
    } else {
        parse_fields(data.skip(HEADER_LEN as int))
    }
}

/// The largest length that four bytes can hold.
pub open spec fn max_prefix() -> nat {
    0xffff_ffff
}

/// Four bytes hold every length up to the largest, and give it back.
pub proof fn lemma_len_round_trip(len: nat)
    requires
        len <= max_prefix(),
    ensures
        encode_len(len).len() == PREFIX_LEN,
        decode_len(encode_len(len)) == len,
{
}

/// The first four bytes alone decide the length that is read.
pub proof fn lemma_decode_len_front(front: Seq<u8>, rest: Seq<u8>)
    requires
        front.len() >= PREFIX_LEN,
    ensures
        decode_len(front + rest) == decode_len(front),
{
}

/// Every length in the link can be written in front of its text.
pub open spec fn link_encodable(link: LinkView) -> bool {
    &&& byte_len(link.label) <= max_prefix()
    &&& byte_len(link.url) <= max_prefix()
}

/// The profile can be written: the owner has the length of an address, and
/// every length can be written in front of what it counts.
pub open spec fn encodable(profile: ProfileView) -> bool {
    &&& profile.authority.len() == ADDRESS_LEN
    &&& byte_len(profile.display_name) <= max_prefix()
    &&& profile.links.len() <= max_prefix()
    &&& forall|i: int| 0 <= i < profile.links.len() ==> link_encodable(#[trigger] profile.links[i])
}

/// A text that was written is read back, whatever follows it.
pub proof fn lemma_text_round_trip(text: Seq<char>, rest: Seq<u8>)
    requires
        byte_len(text) <= max_prefix(),
    ensures
        parse_text(encode_text(text) + rest) == Some((text, encode_text(text).len() as int)),
{
    let data = encode_text(text) + rest;
    let len = byte_len(text);
    lemma_len_round_trip(len);
    assert(data =~= encode_len(len) + (encode_utf8(text) + rest));
    lemma_decode_len_front(encode_len(len), encode_utf8(text) + rest);
    assert(data.subrange(PREFIX_LEN as int, PREFIX_LEN + len) =~= encode_utf8(text));
    encode_utf8_valid_utf8(text);
    encode_utf8_decode_utf8(text);
}

/// A link that was written is read back, whatever follows it.
pub proof fn lemma_link_round_trip(link: LinkView, rest: Seq<u8>)
    requires
        link_encodable(link),
    ensures
        parse_link(encode_link(link) + rest) == Some((link, encode_link(link).len() as int)),
{
    let data = encode_link(link) + rest;
    let label = encode_text(link.label);
    assert(data =~= label + (encode_text(link.url) + rest));
    lemma_text_round_trip(link.label, encode_text(link.url) + rest);
    assert(data.skip(label.len() as int) =~= encode_text(link.url) + rest);
    lemma_text_round_trip(link.url, rest);
}

/// Links that were written are read back, whatever follows them.
pub proof fn lemma_links_round_trip(links: Seq<LinkView>, rest: Seq<u8>)
    requires
        forall|i: int| 0 <= i < links.len() ==> link_encodable(#[trigger] links[i]),
    ensures
        parse_links(encode_links(links) + rest, links.len()) == Some(
            (links, encode_links(links).len() as int),
        ),
    decreases links.len(),
{
    if links.len() == 0 {
        assert(links =~= Seq::empty());
    } else {
        let data = encode_links(links) + rest;
        let first = links.first();
        let tail = links.drop_first();
        assert(data =~= encode_link(first) + (encode_links(tail) + rest));
        lemma_link_round_trip(first, encode_links(tail) + rest);
        assert(data.skip(encode_link(first).len() as int) =~= encode_links(tail) + rest);
        assert forall|i: int| 0 <= i < tail.len() implies link_encodable(#[trigger] tail[i]) by {
            assert(tail[i] == links[i + 1]);
        }
        lemma_links_round_trip(tail, rest);
        assert(seq![first] + tail =~= links);
    }
}

/// The fields of a profile that were written are read back as they were.
pub proof fn lemma_fields_round_trip(profile: ProfileView, rest: Seq<u8>)
    requires
        encodable(profile),
    ensures
        parse_fields(encode_fields(profile) + rest) == Some(profile),
{
    let fields = encode_fields(profile) + rest;
    let name = encode_text(profile.display_name);
    let count = encode_len(profile.links.len());
    let links = encode_links(profile.links);
    let front = profile.authority + seq![profile.bump];
    let behind_name = count + (links + rest);
    assert(fields =~= front + (name + behind_name));
    assert(fields.subrange(0, ADDRESS_LEN as int) =~= profile.authority);
    assert(fields[ADDRESS_LEN as int] == profile.bump);
    assert(fields.skip(ADDRESS_LEN + 1) =~= name + behind_name);
    lemma_text_round_trip(profile.display_name, behind_name);
    assert(fields.skip(ADDRESS_LEN + 1 + name.len()) =~= behind_name);
    lemma_len_round_trip(profile.links.len());
    lemma_decode_len_front(count, links + rest);
    assert(behind_name.skip(PREFIX_LEN as int) =~= links + rest);
    lemma_links_round_trip(profile.links, rest);
}

/// A profile that was written is read back as it was, whatever bytes follow
/// it in storage.
pub proof fn lemma_profile_round_trip(profile: ProfileView, rest: Seq<u8>)
    requires
        encodable(profile),
    ensures
        parse_profile(encode_profile(profile) + rest) == Some(profile),
{
    let data = encode_profile(profile) + rest;
    assert(data.subrange(0, HEADER_LEN as int) =~= header());
    assert(data.skip(HEADER_LEN as int) =~= encode_fields(profile) + rest);
    lemma_fields_round_trip(profile, rest);
}

/// Links within their bounds take no more than the storage counted for them.
pub proof fn lemma_links_within_space(links: Seq<LinkView>)
    requires
        forall|i: int| 0 <= i < links.len() ==> (#[trigger] links[i]).valid(),
    ensures
        encode_links(links).len() <= links.len() * LINK_SPACE,
    decreases links.len(),
{
    if links.len() > 0 {
        let tail = links.drop_first();
        assert(links.first().valid());
        assert(encode_links(links).len() == encode_link(links.first()).len() + encode_links(
            tail,
        ).len());
        assert(encode_link(links.first()).len() <= LINK_SPACE);
        assert(links.len() * LINK_SPACE == tail.len() * LINK_SPACE + LINK_SPACE) by (nonlinear_arith)
            requires
                links.len() == tail.len() + 1,
        ;
        assert forall|i: int| 0 <= i < tail.len() implies (#[trigger] tail[i]).valid() by {
            assert(tail[i] == links[i + 1]);
        }
        lemma_links_within_space(tail);
    }
}

/// Every text of the link is as long as it may be.
pub open spec fn link_full(link: LinkView) -> bool {
    &&& byte_len(link.label) == MAX_LABEL_LEN
    &&& byte_len(link.url) == MAX_URL_LEN
}

/// The profile holds as much as a profile can: a display name of full
/// length and a full list of links of full length.
pub open spec fn full(profile: ProfileView) -> bool {
    &&& profile.authority.len() == ADDRESS_LEN
    &&& byte_len(profile.display_name) == MAX_DISPLAY_NAME_LEN
    &&& profile.links.len() == MAX_LINKS
    &&& forall|i: int| 0 <= i < profile.links.len() ==> link_full(#[trigger] profile.links[i])
}

/// Links of full length take exactly the storage counted for them.
pub proof fn lemma_full_links_fill_space(links: Seq<LinkView>)
    requires
        forall|i: int| 0 <= i < links.len() ==> link_full(#[trigger] links[i]),
    ensures
        encode_links(links).len() == links.len() * LINK_SPACE,
    decreases links.len(),
{
    if links.len() > 0 {
        let tail = links.drop_first();
        assert(link_full(links.first()));
        assert(encode_links(links).len() == encode_link(links.first()).len() + encode_links(
            tail,
        ).len());
        assert(encode_link(links.first()).len() == LINK_SPACE);
        assert(links.len() * LINK_SPACE == tail.len() * LINK_SPACE + LINK_SPACE) by (nonlinear_arith)
            requires
                links.len() == tail.len() + 1,
        ;
        assert forall|i: int| 0 <= i < tail.len() implies link_full(#[trigger] tail[i]) by {
            assert(tail[i] == links[i + 1]);
        }
        lemma_full_links_fill_space(tail);
    }
}

/// A profile within the bounds of the schema fits the storage that was
/// reserved for it.
pub proof fn lemma_valid_profile_fits(profile: ProfileView)
    requires
        profile.valid(),
        profile.authority.len() == ADDRESS_LEN,
    ensures
        encode_profile(profile).len() <= PROFILE_SPACE,
        encodable(profile),
{
    lemma_links_within_space(profile.links);
    assert(profile.links.len() * LINK_SPACE <= MAX_LINKS * LINK_SPACE) by (nonlinear_arith)
        requires
            profile.links.len() <= MAX_LINKS,
    ;
    assert forall|i: int| 0 <= i < profile.links.len() implies link_encodable(
        #[trigger] profile.links[i],
    ) by {
        assert(profile.links[i].valid());
    }
}

/// A profile that holds as much as a profile can takes exactly the storage
/// that was reserved for it.
pub proof fn lemma_full_profile_fills_space(profile: ProfileView)
    requires
        full(profile),
    ensures
        profile.valid(),
        encode_profile(profile).len() == PROFILE_SPACE,
{
    lemma_full_links_fill_space(profile.links);
    assert forall|i: int| 0 <= i < profile.links.len() implies (#[trigger] profile.links[i]).valid() by {
        assert(link_full(profile.links[i]));
    }
}

} // verus!
