//! The profile record, its links, their bounds, and the changes that a
//! record takes.

use crate::address::Address;
use crate::error::ErrorCode;
use vstd::prelude::*;
use vstd::utf8::encode_utf8;

verus! {

/// The most bytes a display name may take.
pub const MAX_DISPLAY_NAME_LEN: usize = 50;

/// The most bytes a link's label may take.
pub const MAX_LABEL_LEN: usize = 50;

/// The most bytes a link's URL may take.
pub const MAX_URL_LEN: usize = 100;

/// The most links a profile may hold.
pub const MAX_LINKS: usize = 10;

/// The number of bytes that a text takes in storage: the length of its UTF-8
/// encoding.
pub open spec fn byte_len(text: Seq<char>) -> nat {
    encode_utf8(text).len()
}

/// A labelled link. It has no identity of its own: a link is known by its
/// place in the profile that holds it.
#[derive(Clone, Debug, PartialEq, Eq)]
pub struct Link {
    pub label: String,
    pub url: String,
}

/// What a link says.
pub ghost struct LinkView {
    pub label: Seq<char>,
    pub url: Seq<char>,
}

impl View for Link {
    type V = LinkView;

    open spec fn view(&self) -> LinkView {
        LinkView { label: self.label@, url: self.url@ }
    }
}

impl LinkView {
    /// Both texts are within their bounds.
    pub open spec fn valid(self) -> bool {
        &&& byte_len(self.label) <= MAX_LABEL_LEN
        &&& byte_len(self.url) <= MAX_URL_LEN
    }
}

/// The record kept for one owner.
#[derive(Clone, Debug, PartialEq, Eq)]
pub struct UserProfile {
    /// The identity that created the record and alone may change it.
    pub authority: Address,
    /// The bump recorded at creation, with which the record's address is
    /// derived again on every later access.
    pub bump: u8,
    pub display_name: String,
    /// The links in the order in which they were added.
    pub links: Vec<Link>,
}

/// What a profile holds.
pub ghost struct ProfileView {
    pub authority: Seq<u8>,
    pub bump: u8,
    pub display_name: Seq<char>,
    pub links: Seq<LinkView>,
}

/// What a sequence of links says, link by link.
pub open spec fn links_view(links: Seq<Link>) -> Seq<LinkView> {
    Seq::new(links.len(), |i: int| links[i]@)
}

impl View for UserProfile {
    type V = ProfileView;

    open spec fn view(&self) -> ProfileView {
        ProfileView {
            authority: self.authority@,
            bump: self.bump,
            display_name: self.display_name@,
            links: links_view(self.links@),
        }
    }
}

impl ProfileView {
    /// Every bound of the schema holds: the record fits the storage that was
    /// reserved for it at creation.
    pub open spec fn valid(self) -> bool {
        &&& byte_len(self.display_name) <= MAX_DISPLAY_NAME_LEN
        &&& self.links.len() <= MAX_LINKS
        &&& forall|i: int| 0 <= i < self.links.len() ==> (#[trigger] self.links[i]).valid()
    }

    /// The same record with other links.
    pub open spec fn with_links(self, links: Seq<LinkView>) -> ProfileView {
        ProfileView { links, ..self }
    }

    /// The record that creation writes, or the reason why it writes none.
    pub open spec fn created(authority: Seq<u8>, bump: u8, display_name: Seq<char>) -> Result<
        ProfileView,
        ErrorCode,
    > {
        if byte_len(display_name) > MAX_DISPLAY_NAME_LEN {
            Err(ErrorCode::DisplayNameTooLong)
        } else {
            Ok(ProfileView { authority, bump, display_name, links: Seq::empty() })
        }
    }

    /// The record after a link was added behind the others, or the reason
    /// why none is added.
    pub open spec fn append_link(self, label: Seq<char>, url: Seq<char>) -> Result<
        ProfileView,
        ErrorCode,
    > {
        if self.links.len() >= MAX_LINKS {
            Err(ErrorCode::LinkLimitReached)
        } else if byte_len(label) > MAX_LABEL_LEN {
            Err(ErrorCode::LabelTooLong)
        } else if byte_len(url) > MAX_URL_LEN {
            Err(ErrorCode::UrlTooLong)
        } else {
            Ok(self.with_links(self.links.push(LinkView { label, url })))
        }
    }

    /// The record after the link at `index` was replaced, or the reason why
    /// none is replaced.
    pub open spec fn replace_link(self, index: int, label: Seq<char>, url: Seq<char>) -> Result<
        ProfileView,
        ErrorCode,
    > {
        if !(0 <= index < self.links.len()) {
            Err(ErrorCode::IndexOutOfBounds)
        } else if byte_len(label) > MAX_LABEL_LEN {
            Err(ErrorCode::LabelTooLong)
        } else if byte_len(url) > MAX_URL_LEN {
            Err(ErrorCode::UrlTooLong)
        } else {
            Ok(self.with_links(self.links.update(index, LinkView { label, url })))
        }
    }

    /// The record after the link at `index` was taken out and the links
    /// behind it moved one place to the front, or the reason why none is
    /// taken out.
    pub open spec fn delete_link(self, index: int) -> Result<ProfileView, ErrorCode> {
        if !(0 <= index < self.links.len()) {
            Err(ErrorCode::IndexOutOfBounds)
        } else {
            Ok(self.with_links(self.links.remove(index)))
        }
    }
}

/// The number of bytes that `text` takes in storage.
pub fn text_len(text: &str) -> (len: usize)
    ensures
        len == byte_len(text@),
{
    text.as_bytes().len()
}

impl UserProfile {
    /// Makes the record of a new profile: no links yet.
    pub fn new(authority: Address, bump: u8, display_name: String) -> (made: Result<
        UserProfile,
        ErrorCode,
    >)
        ensures
            match made {
                Ok(profile) => {
                    &&& ProfileView::created(authority@, bump, display_name@) == Ok::<
                        ProfileView,
                        ErrorCode,
                    >(profile@)
                    &&& profile.authority == authority
                    &&& profile.display_name == display_name
                },
                Err(code) => ProfileView::created(authority@, bump, display_name@) == Err::<
                    ProfileView,
                    ErrorCode,
                >(code),
            },
    {
        if text_len(display_name.as_str()) > MAX_DISPLAY_NAME_LEN {
            return Err(ErrorCode::DisplayNameTooLong);
        }
        let profile = UserProfile { authority, bump, display_name, links: Vec::new() };
        assert(profile@.links =~= Seq::empty());
        Ok(profile)
    }

    /// Adds a link behind the others.
    pub fn append_link(&mut self, label: String, url: String) -> (done: Result<(), ErrorCode>)
        ensures
            match done {
                Ok(()) => old(self)@.append_link(label@, url@) == Ok::<ProfileView, ErrorCode>(
                    final(self)@,
                ),
                Err(code) => {
                    &&& old(self)@.append_link(label@, url@) == Err::<ProfileView, ErrorCode>(code)
                    &&& *final(self) == *old(self)
                },
            },
    {
        if self.links.len() >= MAX_LINKS {
            return Err(ErrorCode::LinkLimitReached);
        }
        if text_len(label.as_str()) > MAX_LABEL_LEN {
            return Err(ErrorCode::LabelTooLong);
        }
        if text_len(url.as_str()) > MAX_URL_LEN {
            return Err(ErrorCode::UrlTooLong);
        }
        self.links.push(Link { label, url });
        assert(self@.links =~= old(self)@.links.push(LinkView { label: label@, url: url@ }));
        Ok(())
    }

    /// Replaces the link at `index`; every other link stays where it is.
    pub fn replace_link(&mut self, index: u8, label: String, url: String) -> (done: Result<
        (),
        ErrorCode,
    >)
        ensures
            match done {
                Ok(()) => old(self)@.replace_link(index as int, label@, url@) == Ok::<
                    ProfileView,
                    ErrorCode,
                >(final(self)@),
                Err(code) => {
                    &&& old(self)@.replace_link(index as int, label@, url@) == Err::<
                        ProfileView,
                        ErrorCode,
                    >(code)
                    &&& *final(self) == *old(self)
                },
            },
    {
        let at: usize = index as usize;
        if at >= self.links.len() {
            return Err(ErrorCode::IndexOutOfBounds);
        }
        if text_len(label.as_str()) > MAX_LABEL_LEN {
            return Err(ErrorCode::LabelTooLong);
        }
        if text_len(url.as_str()) > MAX_URL_LEN {
            return Err(ErrorCode::UrlTooLong);
        }
        self.links.set(at, Link { label, url });
        assert(self@.links =~= old(self)@.links.update(
            index as int,
            LinkView { label: label@, url: url@ },
        ));
        Ok(())
    }

    /// Takes out the link at `index`; the links behind it move one place to
    /// the front.
    pub fn delete_link(&mut self, index: u8) -> (done: Result<(), ErrorCode>)
        ensures
            match done {
                Ok(()) => old(self)@.delete_link(index as int) == Ok::<ProfileView, ErrorCode>(
                    final(self)@,
                ),
                Err(code) => {
                    &&& old(self)@.delete_link(index as int) == Err::<ProfileView, ErrorCode>(code)
                    &&& *final(self) == *old(self)
                },
            },
    {
        let at: usize = index as usize;
        if at >= self.links.len() {
            return Err(ErrorCode::IndexOutOfBounds);
        }
        let _ = self.links.remove(at);
        assert(self@.links =~= old(self)@.links.remove(index as int));
        Ok(())
    }
}

} // verus!
