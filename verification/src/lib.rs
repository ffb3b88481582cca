//! User profiles with a bounded list of labelled links.
//!
//! A profile is stored at an address derived from the identity that owns it,
//! and only that identity, once its signature has been verified by the host,
//! may change it. The crate states and proves what each operation does to a
//! record, how a record is laid out in storage, and how much storage it needs.

pub mod accounts;
pub mod address;
pub mod codec;
pub mod error;
pub mod instructions;
pub mod laws;
pub mod layout;
pub mod state;

pub use accounts::{
    AddLink, Context, CreateProfile, ProfileAccount, ProfileSlot, RemoveLink, Signer, UpdateLink,
};
pub use address::Address;
pub use error::ErrorCode;
pub use instructions::{add_link, create_profile, remove_link, update_link};
pub use state::{Link, UserProfile};
