//! Writing a profile to its bytes in storage and reading it back.

use crate::address::Address;
use crate::layout::{
    decode_len, encode_len, encode_links, encode_profile, encode_text, header, parse_link,
    parse_links, parse_profile, parse_text, ADDRESS_LEN, HEADER_LEN, PREFIX_LEN, PROFILE_SPACE,
};
use crate::state::{links_view, Link, LinkView, UserProfile};
use vstd::prelude::*;
use vstd::slice::{slice_subrange, slice_to_vec};
use vstd::utf8::{encode_utf8, encode_utf8_decode_utf8, valid_utf8};

verus! {

fn put_len(out: &mut Vec<u8>, len: usize)
    ensures
        final(out)@ == old(out)@ + encode_len(len as nat),
{
    out.push((len % 256) as u8);
    out.push(((len / 256) % 256) as u8);
    out.push(((len / 65536) % 256) as u8);
    out.push(((len / 16777216) % 256) as u8);
    assert(out@ =~= old(out)@ + encode_len(len as nat));
}

fn put_bytes(out: &mut Vec<u8>, bytes: &[u8])
    ensures
        final(out)@ == old(out)@ + bytes@,
{
    let ghost before = out@;
    let mut i: usize = 0;
    while i < bytes.len()
        invariant
            i <= bytes@.len(),
            out@ == before + bytes@.subrange(0, i as int),
        decreases bytes@.len() - i,
    {
        out.push(bytes[i]);
        assert(out@ =~= before + bytes@.subrange(0, i + 1));
        i += 1;
    }
    assert(bytes@.subrange(0, bytes@.len() as int) =~= bytes@);
}

/// Writes a text behind what `out` holds, unless the storage of a profile
/// would not take it.
fn put_text(out: &mut Vec<u8>, text: &str) -> (fits: bool)
    requires
        old(out)@.len() <= PROFILE_SPACE,
    ensures
        fits == (old(out)@.len() + encode_text(text@).len() <= PROFILE_SPACE),
        fits ==> final(out)@ == old(out)@ + encode_text(text@),
        !fits ==> final(out)@ == old(out)@,
{
    let bytes = text.as_bytes();
    let room: usize = PROFILE_SPACE - out.len();
    if room < PREFIX_LEN || bytes.len() > room - PREFIX_LEN {
        return false;
    }
    put_len(out, bytes.len());
    put_bytes(out, bytes);
    assert(out@ =~= old(out)@ + encode_text(text@));
    true
}

impl UserProfile {
    /// The bytes under which the profile is stored, or `None` where they
    /// would not fit the storage that is reserved for a profile.
    pub fn serialize(&self) -> (stored: Option<Vec<u8>>)
        ensures
            stored is Some == (encode_profile(self@).len() <= PROFILE_SPACE),
            stored matches Some(bytes) ==> bytes@ == encode_profile(self@),
    {
        let mut out: Vec<u8> = vec![32u8, 37u8, 119u8, 205u8, 179u8, 180u8, 13u8, 194u8];
        assert(out@ =~= header());
        let owner = self.authority.to_vec();
        put_bytes(&mut out, owner.as_slice());
        out.push(self.bump);
        let ghost links = links_view(self.links@);
        let ghost front = header() + self.authority@ + seq![self.bump];
        assert(out@ =~= front);
        assert(encode_profile(self@) =~= front + (encode_text(self.display_name@) + (encode_len(
            links.len(),
        ) + encode_links(links))));
        if !put_text(&mut out, self.display_name.as_str()) {
            return None;
        }
        if PROFILE_SPACE - out.len() < PREFIX_LEN {
            return None;
        }
        put_len(&mut out, self.links.len());
        assert(links.skip(0) =~= links);
        assert(out@ + encode_links(links.skip(0)) =~= encode_profile(self@));
        let mut i: usize = 0;
        while i < self.links.len()
            invariant
                i <= self.links@.len(),
                links == links_view(self.links@),
                out@.len() <= PROFILE_SPACE,
                out@ + encode_links(links.skip(i as int)) == encode_profile(self@),
            decreases self.links@.len() - i,
        {
            let link = &self.links[i];
            let ghost behind = encode_links(links.skip(i + 1));
            proof {
                assert(links.skip(i as int).first() == link@);
                assert(links.skip(i as int).drop_first() =~= links.skip(i + 1));
                assert(encode_links(links.skip(i as int)) =~= encode_text(link.label@) + (
                encode_text(link.url@) + behind));
            }
            if !put_text(&mut out, link.label.as_str()) {
                return None;
            }
            if !put_text(&mut out, link.url.as_str()) {
                return None;
            }
            assert(out@ + behind =~= encode_profile(self@));
            i += 1;
        }
        assert(links.skip(i as int) =~= Seq::empty());
        assert(out@ =~= encode_profile(self@));
        Some(out)
    }
}

/// Calls `String::from_utf8`. The contract claims what the documentation of
/// std says: the call succeeds exactly on bytes that are valid UTF-8, and the
/// text that it gives has those bytes as its encoding.
#[verifier::external_body]
pub(crate) fn string_from_utf8(bytes: Vec<u8>) -> (text: Option<String>)
    ensures
        text is Some == valid_utf8(bytes@),
        text matches Some(made) ==> encode_utf8(made@) == bytes@,
{
    match String::from_utf8(bytes) {
        Ok(made) => Some(made),
        Err(_) => None,
    }
}

fn read_len(data: &[u8], at: usize) -> (len: usize)
    requires
        at + PREFIX_LEN <= data@.len(),
    ensures
        len == decode_len(data@.skip(at as int)),
{
    let b0: usize = data[at] as usize;
    let b1: usize = data[at + 1] as usize;
    let b2: usize = data[at + 2] as usize;
    let b3: usize = data[at + 3] as usize;
    b0 + 256 * b1 + 65536 * b2 + 16777216 * b3
}

/// Reads the text that stands in `data` from the place `at` on, and says
/// where the bytes behind it begin.
fn read_text(data: &[u8], at: usize) -> (read: Option<(String, usize)>)
    requires
        at <= data@.len(),
    ensures
        match read {
            Some((text, next)) => {
                &&& at <= next <= data@.len()
                &&& parse_text(data@.skip(at as int)) == Some((text@, next - at))
            },
            None => parse_text(data@.skip(at as int)) is None,
        },
{
    let total: usize = data.len();
    if total - at < PREFIX_LEN {
        return None;
    }
    let len: usize = read_len(data, at);
    if total - at - PREFIX_LEN < len {
        return None;
    }
    let begin: usize = at + PREFIX_LEN;
    let bytes = slice_to_vec(slice_subrange(data, begin, begin + len));
    assert(bytes@ =~= data@.skip(at as int).subrange(PREFIX_LEN as int, PREFIX_LEN + len));
    match string_from_utf8(bytes) {
        Some(text) => {
            proof {
                encode_utf8_decode_utf8(text@);
            }
            Some((text, begin + len))
        },
        None => None,
    }
}

/// Reads the link that stands in `data` from the place `at` on, and says
/// where the bytes behind it begin.
fn read_link(data: &[u8], at: usize) -> (read: Option<(Link, usize)>)
    requires
        at <= data@.len(),
    ensures
        match read {
            Some((link, next)) => {
                &&& at <= next <= data@.len()
                &&& parse_link(data@.skip(at as int)) == Some((link@, next - at))
            },
            None => parse_link(data@.skip(at as int)) is None,
        },
{
    match read_text(data, at) {
        None => None,
        Some((label, middle)) => {
            assert(data@.skip(at as int).skip(middle - at) =~= data@.skip(middle as int));
            match read_text(data, middle) {
                None => None,
                Some((url, next)) => Some((Link { label, url }, next)),
            }
        },
    }
}

/// What reading `count` links gives when the first of them have been read
/// already: those links, then what the rest of the bytes gives.
spec fn joined(front: Seq<LinkView>, taken: int, rest: Option<(Seq<LinkView>, int)>) -> Option<
    (Seq<LinkView>, int),
> {
    match rest {
        Some((links, len)) => Some((front + links, taken + len)),
        None => None,
    }
}

/// Reads `count` links that stand in `data` from the place `start` on.
fn read_links(data: &[u8], start: usize, count: usize) -> (read: Option<Vec<Link>>)
    requires
        start <= data@.len(),
    ensures
        match read {
            Some(links) => parse_links(data@.skip(start as int), count as nat) matches Some(
                (parsed, _),
            ) && parsed == links_view(links@),
            None => parse_links(data@.skip(start as int), count as nat) is None,
        },
{
    let ghost whole = parse_links(data@.skip(start as int), count as nat);
    let mut links: Vec<Link> = Vec::new();
    let mut at: usize = start;
    let mut i: usize = 0;
    assert(links_view(links@) =~= Seq::empty());
    assert(whole == joined(links_view(links@), 0, whole)) by {
        if let Some((parsed, len)) = whole {
            assert(Seq::<LinkView>::empty() + parsed =~= parsed);
        }
    }
    while i < count
        invariant
            i <= count,
            start <= at <= data@.len(),
            whole == parse_links(data@.skip(start as int), count as nat),
            whole == joined(
                links_view(links@),
                at - start,
                parse_links(data@.skip(at as int), (count - i) as nat),
            ),
        decreases count - i,
    {
        let ghost front = links_view(links@);
        let ghost here = data@.skip(at as int);
        match read_link(data, at) {
            None => {
                return None;
            },
            Some((link, next)) => {
                links.push(link);
                proof {
                    let behind = parse_links(data@.skip(next as int), (count - i - 1) as nat);
                    assert(here.skip(next - at) =~= data@.skip(next as int));
                    assert(links_view(links@) =~= front.push(link@));
                    if let Some((tail, len)) = behind {
                        assert(front + (seq![link@] + tail) =~= front.push(link@) + tail);
                    }
                }
                at = next;
                i += 1;
            },
        }
    }
    assert(links_view(links@) + Seq::<LinkView>::empty() =~= links_view(links@));
    Some(links)
}

impl UserProfile {
    /// The profile that `data` begins with, or `None` where it begins with
    /// none. Bytes behind the profile are not looked at.
    pub fn deserialize(data: &[u8]) -> (read: Option<UserProfile>)
        ensures
            match read {
                Some(profile) => parse_profile(data@) == Some(profile@),
                None => parse_profile(data@) is None,
            },
    {
        let total: usize = data.len();
        if total < HEADER_LEN + ADDRESS_LEN + 1 {
            return None;
        }
        if data[0] != 32 || data[1] != 37 || data[2] != 119 || data[3] != 205 || data[4] != 179
            || data[5] != 180 || data[6] != 13 || data[7] != 194 {
            assert(data@.subrange(0, HEADER_LEN as int) != header()) by {
                if data@.subrange(0, HEADER_LEN as int) == header() {
                    assert(forall|j: int|
                        0 <= j < 8 ==> data@.subrange(0, HEADER_LEN as int)[j] == header()[j]);
                }
            }
            return None;
        }
        assert(data@.subrange(0, HEADER_LEN as int) =~= header());
        let ghost fields = data@.skip(HEADER_LEN as int);
        let authority = Address::from_slice(data, HEADER_LEN);
        let bump: u8 = data[HEADER_LEN + ADDRESS_LEN];
        let name_at: usize = HEADER_LEN + ADDRESS_LEN + 1;
        assert(fields.subrange(0, ADDRESS_LEN as int) =~= authority@);
        assert(fields.skip(ADDRESS_LEN + 1) =~= data@.skip(name_at as int));
        match read_text(data, name_at) {
            None => None,
            Some((display_name, count_at)) => {
                let ghost rest = fields.skip(ADDRESS_LEN + 1 + (count_at - name_at));
                assert(rest =~= data@.skip(count_at as int));
                if total - count_at < PREFIX_LEN {
                    return None;
                }
                let count: usize = read_len(data, count_at);
                let start: usize = count_at + PREFIX_LEN;
                assert(rest.skip(PREFIX_LEN as int) =~= data@.skip(start as int));
                match read_links(data, start, count) {
                    None => None,
                    Some(links) => Some(UserProfile { authority, bump, display_name, links }),
                }
            },
        }
    }
}

} // verus!
