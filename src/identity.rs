//! A lock-free set-once cell: unset until the first `set` wins, then fixed.
use vstd::prelude::*;
use std::marker::PhantomData;
use std::sync::atomic::{AtomicU64, Ordering};
use crate::ids::IdToken;

verus! {

/// The word that an unset cell holds.
pub const EMPTY_SLOT: u64 = 0;

/// The bit that marks a word as holding a token in its low half.
pub const SET_BIT: u64 = 0x1_0000_0000;

/// The word that stores token `t`.
pub open spec fn slot_for(t: u32) -> u64 {
    (t as u64) | SET_BIT
}

/// What a stored word holds: nothing, or a token.
pub open spec fn slot_holds(raw: u64) -> Option<u32> {
    if raw == EMPTY_SLOT {
        None
    } else {
        Some((raw & 0xFFFF_FFFF) as u32)
    }
}

/// A stored token reads back as itself, and never as the unset word.
pub proof fn lemma_slot_round_trip(t: u32)
    ensures
        slot_for(t) != EMPTY_SLOT,
        slot_holds(slot_for(t)) == Some(t),
{
    assert(((t as u64) | 0x1_0000_0000u64) != 0u64) by (bit_vector);
    assert(((((t as u64) | 0x1_0000_0000u64) & 0xFFFF_FFFFu64) as u32) == t) by (bit_vector);
}

/// The word stored for an identifier reads back as that identifier.
pub proof fn lemma_identity_round_trip<K: IdToken>(id: K)
    ensures
        identity_in::<K>(slot_for(id.token_of())) == Some(id),
{
    lemma_slot_round_trip(id.token_of());
    K::lemma_token_bijective(id, id.token_of());
}

/// The value that a binding returns, given what the cell held when it was
/// attempted: the value already there, else the one offered.
pub open spec fn bind_winner<K>(prior: Option<K>, value: K) -> K {
    match prior {
        Some(w) => w,
        None => value,
    }
}

/// The identifier that a stored word holds, if any.
pub open spec fn identity_in<K: IdToken>(raw: u64) -> Option<K> {
    match slot_holds(raw) {
        Some(t) => Some(K::of_token(t)),
        None => None,
    }
}

/// What an attempt to claim the unset word saw in the cell: the cell was
/// unset if the claim took, and held the reported word otherwise.
pub open spec fn claim_prior<K: IdToken>(observed: Result<u64, u64>) -> Option<K> {
    match observed {
        Ok(_) => None,
        Err(raw) => identity_in::<K>(raw),
    }
}

/// Encodes a token as the word that stores it.
pub fn slot_word(t: u32) -> (r: u64)
    ensures
        r == slot_for(t),
        slot_holds(r) == Some(t),
{
    proof {
        lemma_slot_round_trip(t);
    }
    (t as u64) | SET_BIT
}

/// Decodes a stored word.
pub fn slot_token(raw: u64) -> (r: Option<u32>)
    ensures
        r == slot_holds(raw),
{
    if raw == EMPTY_SLOT {
        None
    } else {
        Some((raw & 0xFFFF_FFFF) as u32)
    }
}

/// Relies on `AtomicU64::compare_exchange`: it stores `new` only if the cell
/// held `current`, and then returns `Ok(current)`; otherwise it stores nothing
/// and returns `Err` of the differing word it found (the strong form never
/// fails spuriously). It panics on a `failure` ordering of `Release` or
/// `AcqRel`, which `requires` rules out.
#[verifier::external_body]
fn compare_exchange(
    slot: &AtomicU64,
    current: u64,
    new: u64,
    success: Ordering,
    failure: Ordering,
) -> (r: Result<u64, u64>)
    requires
        failure != Ordering::Release,
        failure != Ordering::AcqRel,
    ensures
        r is Ok ==> r->Ok_0 == current,
        r is Err ==> r->Err_0 != current,
{
    slot.compare_exchange(current, new, success, failure)
}

/// A cell that holds either nothing or one identifier of kind `K`, set at most
/// once and read without waiting.
#[derive(Debug)]
pub struct AtomicIdentity<K> {
    slot: AtomicU64,
    kind: PhantomData<K>,
}

impl<K: IdToken> AtomicIdentity<K> {
    /// An unset cell.
    pub fn empty() -> (r: Self) {
        AtomicIdentity { slot: AtomicU64::new(EMPTY_SLOT), kind: PhantomData }
    }

    /// The identifier that a word read from the cell stands for.
    pub fn interpret(raw: u64) -> (r: Option<K>)
        ensures
            r == identity_in::<K>(raw),
    {
        match slot_token(raw) {
            Some(t) => Some(K::from_token(t)),
            None => None,
        }
    }

    /// The result of a binding attempt, given what the attempt to claim the
    /// unset cell observed: the offered value if the claim took, else the
    /// identifier that was already stored.
    pub fn resolve(observed: Result<u64, u64>, value: K) -> (r: K)
        ensures
            r == bind_winner(claim_prior::<K>(observed), value),
    {
        match observed {
            Ok(_) => value,
            Err(raw) => match Self::interpret(raw) {
                Some(w) => w,
                None => value,
            },
        }
    }

    /// Reads the cell (acquire ordering): `None` while unset, else the
    /// identifier stored by the one binding that took effect. Which of the two
    /// a concurrent reader sees depends on the other threads.
    pub fn get(&self) -> (r: Option<K>) {
        let raw = self.slot.load(Ordering::Acquire);
        Self::interpret(raw)
    }

    /// Stores `value` if the cell is unset and returns the identifier that the
    /// cell holds afterwards: `value` if this call won, else the one already
    /// stored. A differing value is refused silently, never overwritten. The
    /// outcome depends on the other threads; `resolve` gives it for each
    /// possible observation of the cell.
    pub fn set(&self, value: K) -> (r: K) {
        let t = value.token();
        let raw = slot_word(t);
        // Claim the cell only from the unset word: success publishes the new
        // word with release ordering, and either outcome reads with acquire.
        let observed = compare_exchange(&self.slot, EMPTY_SLOT, raw, Ordering::AcqRel, Ordering::Acquire);
        Self::resolve(observed, value)
    }
}

} // verus!
