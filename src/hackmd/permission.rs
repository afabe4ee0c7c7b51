//! Permissions of a note, as the service names them.
use vstd::prelude::*;

verus! {

/// Who may read a note.
#[derive(Clone, Copy, Debug, PartialEq, Eq, Structural)]
pub enum Read {
    Owner,
    SignedIn,
    Guest,
}

impl Read {
    /// The name the note service uses for this value.
    pub fn as_str(&self) -> (r: &'static str)
        ensures
            r@ == match self {
                Read::Owner => "owner"@,
                Read::SignedIn => "signed_in"@,
                Read::Guest => "guest"@,
            },
    {
        match self {
            Read::Owner => "owner",
            Read::SignedIn => "signed_in",
            Read::Guest => "guest",
        }
    }
}
/// Who may change a note.
#[derive(Clone, Copy, Debug, PartialEq, Eq, Structural)]
pub enum Write {
    Owner,
    SignedIn,
    Guest,
}

impl Write {
    /// The name the note service uses for this value.
    pub fn as_str(&self) -> (r: &'static str)
        ensures
            r@ == match self {
                Write::Owner => "owner"@,
                Write::SignedIn => "signed_in"@,
                Write::Guest => "guest"@,
            },
    {
        match self {
            Write::Owner => "owner",
            Write::SignedIn => "signed_in",
            Write::Guest => "guest",
        }
    }
}
/// Who may comment on a note.
#[derive(Clone, Copy, Debug, PartialEq, Eq, Structural)]
pub enum Comment {
    Disabled,
    Forbidden,
    Owners,
    SignedInUsers,
    Everyone,
}

impl Comment {
    /// The name the note service uses for this value.
    pub fn as_str(&self) -> (r: &'static str)
        ensures
            r@ == match self {
                Comment::Disabled => "disabled"@,
                Comment::Forbidden => "forbidden"@,
                Comment::Owners => "owners"@,
                Comment::SignedInUsers => "signed_in_users"@,
                Comment::Everyone => "everyone"@,
            },
    {
        match self {
            Comment::Disabled => "disabled",
            Comment::Forbidden => "forbidden",
            Comment::Owners => "owners",
            Comment::SignedInUsers => "signed_in_users",
            Comment::Everyone => "everyone",
        }
    }
}
} // verus!
