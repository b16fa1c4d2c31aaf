//! Opaque user and room identifiers, and the token encoding that lets a
//! set-once cell store any of them in one machine word.
use vstd::prelude::*;

verus! {

/// Identifies a logical client, which may own several sessions.
#[derive(Clone, Copy, Debug, PartialEq, Eq, Structural, Hash)]
pub struct UserId(pub u32);

/// Identifies a room: only sessions bound to the same room see each other.
#[derive(Clone, Copy, Debug, PartialEq, Eq, Structural, Hash)]
pub struct RoomId(pub u32);

/// An identifier that is carried as a 32-bit token, one for one.
pub trait IdToken: Sized + Copy {
    /// The token that stands for this identifier.
    spec fn token_of(&self) -> u32;

    /// The identifier that a token stands for.
    spec fn of_token(t: u32) -> Self;

    /// Tokens and identifiers are in one-to-one correspondence.
    proof fn lemma_token_bijective(id: Self, t: u32)
        ensures
            Self::of_token(id.token_of()) == id,
            Self::of_token(t).token_of() == t,
    ;

    fn token(&self) -> (r: u32)
        ensures
            r == self.token_of(),
    ;

    fn from_token(t: u32) -> (r: Self)
        ensures
            r == Self::of_token(t),
    ;
}

impl IdToken for UserId {
    open spec fn token_of(&self) -> u32 {
        self.0
    }

    open spec fn of_token(t: u32) -> Self {
        UserId(t)
    }

    proof fn lemma_token_bijective(id: Self, t: u32) {
    }

    fn token(&self) -> (r: u32) {
        self.0
    }

    fn from_token(t: u32) -> (r: Self) {
        UserId(t)
    }
}

impl IdToken for RoomId {
    open spec fn token_of(&self) -> u32 {
        self.0
    }

    open spec fn of_token(t: u32) -> Self {
        RoomId(t)
    }

    proof fn lemma_token_bijective(id: Self, t: u32) {
    }

    fn token(&self) -> (r: u32) {
        self.0
    }

    fn from_token(t: u32) -> (r: Self) {
        RoomId(t)
    }
}

} // verus!
