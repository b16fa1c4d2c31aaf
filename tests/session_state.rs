use janus_plugin_sfu::identity::{slot_token, slot_word, EMPTY_SLOT};
use janus_plugin_sfu::{AtomicIdentity, IdToken, RoomId, SessionState, UserId};

#[test]
fn default_state_is_unbound_and_unflagged() {
    let s = SessionState::default();
    assert_eq!(s.user(), None);
    assert_eq!(s.room(), None);
    assert!(!s.has_data());
    assert!(!s.wants_notify());
}

#[test]
fn second_room_binding_reports_the_first() {
    let s = SessionState::default();
    assert_eq!(s.room(), None);
    assert_eq!(s.bind_room(RoomId(7)), RoomId(7));
    assert_eq!(s.bind_room(RoomId(9)), RoomId(7));
    assert_eq!(s.room(), Some(RoomId(7)));
}

#[test]
fn successive_room_bindings_all_report_the_first() {
    let s = SessionState::default();
    let offered = [RoomId(1), RoomId(2), RoomId(2), RoomId(1), RoomId(2)];
    let mut replies = Vec::new();
    for r in offered.iter() {
        replies.push(s.bind_room(*r));
    }
    assert!(replies.iter().all(|r| *r == RoomId(1)));
    assert_eq!(s.room(), Some(RoomId(1)));
}

#[test]
fn reads_never_go_back_to_unset() {
    let s = SessionState::default();
    assert_eq!(s.user(), None);
    assert_eq!(s.user(), None);
    assert_eq!(s.bind_user(UserId(42)), UserId(42));
    for _ in 0..5 {
        assert_eq!(s.user(), Some(UserId(42)));
    }
}

#[test]
fn binding_same_room_twice_is_idempotent() {
    let s = SessionState::default();
    assert_eq!(s.bind_room(RoomId(3)), RoomId(3));
    assert_eq!(s.bind_room(RoomId(3)), RoomId(3));
    assert_eq!(s.room(), Some(RoomId(3)));
}

#[test]
fn flags_follow_their_last_write() {
    let s = SessionState::default();
    s.set_has_data(true);
    s.set_notify(true);
    s.set_has_data(false);
    assert!(!s.has_data());
    assert!(s.wants_notify());
    s.set_has_data(true);
    s.set_has_data(true);
    assert!(s.has_data());
    s.set_notify(false);
    assert!(!s.wants_notify());
    assert!(s.has_data());
}

#[test]
fn flags_and_identities_are_independent() {
    let s = SessionState::default();
    s.set_has_data(true);
    assert_eq!(s.room(), None);
    assert_eq!(s.user(), None);
    assert_eq!(s.bind_user(UserId(5)), UserId(5));
    assert_eq!(s.room(), None);
    assert!(!s.wants_notify());
    assert_eq!(s.bind_room(RoomId(5)), RoomId(5));
    assert_eq!(s.user(), Some(UserId(5)));
    assert!(s.has_data());
}

#[test]
fn identity_cell_holds_extreme_tokens() {
    let zero: AtomicIdentity<UserId> = AtomicIdentity::empty();
    assert_eq!(zero.get(), None);
    assert_eq!(zero.set(UserId(0)), UserId(0));
    assert_eq!(zero.get(), Some(UserId(0)));
    assert_eq!(zero.set(UserId(1)), UserId(0));

    let max: AtomicIdentity<RoomId> = AtomicIdentity::empty();
    assert_eq!(max.set(RoomId(u32::MAX)), RoomId(u32::MAX));
    assert_eq!(max.get(), Some(RoomId(u32::MAX)));
}

#[test]
fn slot_words_encode_and_decode() {
    assert_eq!(EMPTY_SLOT, 0);
    assert_eq!(slot_word(0), 0x1_0000_0000);
    assert_eq!(slot_word(7), 0x1_0000_0007);
    assert_eq!(slot_word(u32::MAX), 0x1_FFFF_FFFF);
    assert_eq!(slot_token(EMPTY_SLOT), None);
    assert_eq!(slot_token(slot_word(0)), Some(0));
    assert_eq!(slot_token(slot_word(123456)), Some(123456));
}

#[test]
fn interpret_reads_stored_words() {
    assert_eq!(AtomicIdentity::<UserId>::interpret(EMPTY_SLOT), None);
    assert_eq!(AtomicIdentity::<UserId>::interpret(slot_word(9)), Some(UserId(9)));
    assert_eq!(AtomicIdentity::<RoomId>::interpret(0x1_0000_0000), Some(RoomId(0)));
}

#[test]
fn resolve_reports_winner_for_each_observation() {
    assert_eq!(AtomicIdentity::<RoomId>::resolve(Ok(EMPTY_SLOT), RoomId(9)), RoomId(9));
    assert_eq!(AtomicIdentity::<RoomId>::resolve(Err(slot_word(7)), RoomId(9)), RoomId(7));
    assert_eq!(AtomicIdentity::<RoomId>::resolve(Err(slot_word(9)), RoomId(9)), RoomId(9));
    assert_eq!(AtomicIdentity::<RoomId>::resolve(Err(EMPTY_SLOT), RoomId(4)), RoomId(4));
}

#[test]
fn tokens_round_trip() {
    assert_eq!(UserId(17).token(), 17);
    assert_eq!(RoomId::from_token(23), RoomId(23));
    assert_eq!(UserId::from_token(UserId(u32::MAX).token()), UserId(u32::MAX));
}
