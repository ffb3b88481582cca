//! The reasons for which a call is refused.

use vstd::prelude::*;

verus! {

/// Why a call was refused. A refused call changes nothing.
#[derive(Clone, Copy, Debug, PartialEq, Eq, Structural)]
pub enum ErrorCode {
    /// The index names no link of the profile.
    IndexOutOfBounds,
    /// The profile already holds as many links as it may.
    LinkLimitReached,
    /// The display name is longer than a profile can store.
    DisplayNameTooLong,
    /// The label is longer than a link can store.
    LabelTooLong,
    /// The URL is longer than a link can store.
    UrlTooLong,
    /// The caller did not sign, is not the owner of the record, or the record
    /// does not lie at the address derived for that owner.
    AuthorizationFailure,
    /// A record already exists at the address derived for the owner.
    AddressAlreadyInUse,
}

impl ErrorCode {
    /// The text shown to a caller for each kind of refusal.
    pub open spec fn message_text(self) -> Seq<char> {
        match self {
            ErrorCode::IndexOutOfBounds => "The provided index is out of bounds."@,
            ErrorCode::LinkLimitReached => "Cannot add more links. The limit is 10."@,
            ErrorCode::DisplayNameTooLong => "Display name is too long."@,
            ErrorCode::LabelTooLong => "Label is too long."@,
            ErrorCode::UrlTooLong => "URL is too long."@,
            ErrorCode::AuthorizationFailure => "The signer does not control this profile."@,
            ErrorCode::AddressAlreadyInUse => "A profile already exists for this owner."@,
        }
    }

    pub fn message(&self) -> (text: &'static str)
        ensures
            text@ == self.message_text(),
    {
        match self {
            ErrorCode::IndexOutOfBounds => "The provided index is out of bounds.",
            ErrorCode::LinkLimitReached => "Cannot add more links. The limit is 10.",
            ErrorCode::DisplayNameTooLong => "Display name is too long.",
            ErrorCode::LabelTooLong => "Label is too long.",
            ErrorCode::UrlTooLong => "URL is too long.",
            ErrorCode::AuthorizationFailure => "The signer does not control this profile.",
            ErrorCode::AddressAlreadyInUse => "A profile already exists for this owner.",
        }
    }
}

} // verus!
