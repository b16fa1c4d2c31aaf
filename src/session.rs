//! The state that every worker thread consults about one live session.
use vstd::prelude::*;
use std::sync::atomic::{AtomicBool, Ordering};
use crate::identity::AtomicIdentity;
use crate::ids::{RoomId, UserId};

verus! {

/// The state associated with a single session. Each field is read and written
/// atomically and independently of the others, from any thread, without locks.
#[derive(Debug)]
pub struct SessionState {
    /// The user this session belongs to; it correlates the sessions of one
    /// client. Starts unset and is fixed once set.
    pub user_id: AtomicIdentity<UserId>,
    /// The room this session is in: only sessions in the same room see each
    /// other. Starts unset and is fixed once set.
    pub room_id: AtomicIdentity<RoomId>,
    /// Whether this session has negotiated a data channel.
    pub has_data: AtomicBool,
    /// Whether this session wants room notifications.
    pub notify: AtomicBool,
}

impl Default for SessionState {
    /// Both identities unset, both flags false.
    fn default() -> (r: Self) {
        SessionState {
            room_id: AtomicIdentity::empty(),
            user_id: AtomicIdentity::empty(),
            has_data: AtomicBool::new(false),
            notify: AtomicBool::new(false),
        }
    }
}

impl SessionState {
    /// Binds the session to `id` unless it is already bound, and returns the
    /// user it is bound to afterwards (see `AtomicIdentity::set`).
    pub fn bind_user(&self, id: UserId) -> (r: UserId) {
        self.user_id.set(id)
    }

    /// The user the session is bound to, or `None` while unbound.
    pub fn user(&self) -> (r: Option<UserId>) {
        self.user_id.get()
    }

    /// Binds the session to room `id` unless it is already bound, and returns
    /// the room it is bound to afterwards (see `AtomicIdentity::set`).
    pub fn bind_room(&self, id: RoomId) -> (r: RoomId) {
        self.room_id.set(id)
    }

    /// The room the session is bound to, or `None` while unbound.
    pub fn room(&self) -> (r: Option<RoomId>) {
        self.room_id.get()
    }

    /// Records whether a data channel is negotiated. The flag is ordered with
    /// nothing else, so a relaxed store suffices; the flag's own writes are
    /// still seen in one order by every thread.
    pub fn set_has_data(&self, value: bool) {
        self.has_data.store(value, Ordering::Relaxed)
    }

    /// Whether a data channel is negotiated (relaxed load).
    pub fn has_data(&self) -> (r: bool) {
        self.has_data.load(Ordering::Relaxed)
    }

    /// Records whether the session wants room notifications (relaxed store).
    pub fn set_notify(&self, value: bool) {
        self.notify.store(value, Ordering::Relaxed)
    }

    /// Whether the session wants room notifications (relaxed load).
    pub fn wants_notify(&self) -> (r: bool) {
        self.notify.load(Ordering::Relaxed)
    }
}

} // verus!
