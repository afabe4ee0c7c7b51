//! The data of the note service that the agenda is published to.
use vstd::prelude::*;

pub mod note;
pub mod permission;
pub mod team;
pub mod user;

verus! {

/// Who may read a note.
#[derive(Clone, Copy, Debug, PartialEq, Eq, Structural)]
pub enum ReadPermission {
    Owner,
    SignedIn,
    Guest,
}

impl ReadPermission {
    /// The name the note service uses for this value.
    pub fn as_str(&self) -> (r: &'static str)
        ensures
            r@ == match self {
                ReadPermission::Owner => "owner"@,
                ReadPermission::SignedIn => "signed_in"@,
                ReadPermission::Guest => "guest"@,
            },
    {
        match self {
            ReadPermission::Owner => "owner",
            ReadPermission::SignedIn => "signed_in",
            ReadPermission::Guest => "guest",
        }
    }
}
/// Who may change a note.
#[derive(Clone, Copy, Debug, PartialEq, Eq, Structural)]
pub enum WritePermission {
    Owner,
    SignedIn,
    Guest,
}

impl WritePermission {
    /// The name the note service uses for this value.
    pub fn as_str(&self) -> (r: &'static str)
        ensures
            r@ == match self {
                WritePermission::Owner => "owner"@,
                WritePermission::SignedIn => "signed_in"@,
                WritePermission::Guest => "guest"@,
            },
    {
        match self {
            WritePermission::Owner => "owner",
            WritePermission::SignedIn => "signed_in",
            WritePermission::Guest => "guest",
        }
    }
}
/// Who may comment on a note.
#[derive(Clone, Copy, Debug, PartialEq, Eq, Structural)]
pub enum CommentPermission {
    Disabled,
    Forbidden,
    Owners,
    SignedInUsers,
    Everyone,
}

impl CommentPermission {
    /// The name the note service uses for this value.
    pub fn as_str(&self) -> (r: &'static str)
        ensures
            r@ == match self {
                CommentPermission::Disabled => "disabled"@,
                CommentPermission::Forbidden => "forbidden"@,
                CommentPermission::Owners => "owners"@,
                CommentPermission::SignedInUsers => "signed_in_users"@,
                CommentPermission::Everyone => "everyone"@,
            },
    {
        match self {
            CommentPermission::Disabled => "disabled",
            CommentPermission::Forbidden => "forbidden",
            CommentPermission::Owners => "owners",
            CommentPermission::SignedInUsers => "signed_in_users",
            CommentPermission::Everyone => "everyone",
        }
    }
}
/// A note as the service reports it after creating one.
#[derive(Debug)]
pub struct Note {
    pub id: String,
    pub title: String,
    pub tags: Vec<String>,
}

} // verus!
