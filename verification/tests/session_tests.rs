use tv_bridge::session::FrameDisposition;
use tv_bridge::session::Session;
use tv_bridge::session::SessionState;
use tv_bridge::store::CredentialStore;
use tv_bridge::store::ROW_ACTIVE;
use tv_bridge::store::ROW_INACTIVE;

fn started_session() -> Session {
    let mut session = Session::new();
    session.note_handshake_sent();
    session
}

#[test]
fn pairing_flow_stores_token() {
    let mut store = CredentialStore::new();
    let mut session = started_session();

    let d1 = session.handle_raw(&mut store, "{\"type\":\"response\",\"id\":\"register_0\",\"payload\":{}}");
    assert_eq!(d1, FrameDisposition::PairingPrompt);
    assert_eq!(session.state, SessionState::AwaitingUserAction);
    assert!(store.get_active().is_none());

    let d2 = session.handle_raw(
        &mut store,
        "{\"type\":\"registered\",\"id\":\"register_0\",\"payload\":{\"client-key\":\"T1\"}}",
    );
    assert_eq!(d2, FrameDisposition::PairingComplete);
    assert_eq!(session.state, SessionState::Registered);
    assert_eq!(store.get_active().as_deref(), Some("T1"));
}

#[test]
fn unrecognized_frame_changes_nothing() {
    let mut store = CredentialStore::new();
    let mut session = started_session();
    let d = session.handle_raw(&mut store, "{\"type\":\"foo\",\"id\":\"bar\"}");
    assert_eq!(d, FrameDisposition::Ignored);
    assert_eq!(session.state, SessionState::HandshakeSent);
    assert_eq!(store.rows.len(), 0);
}

#[test]
fn unrecognized_frame_with_payload_changes_nothing() {
    let mut store = CredentialStore::new();
    let mut session = started_session();
    let d = session.handle_raw(&mut store, "{\"type\":\"foo\",\"id\":\"bar\",\"payload\":{}}");
    assert_eq!(d, FrameDisposition::Ignored);
    assert_eq!(session.state, SessionState::HandshakeSent);
    assert_eq!(store.rows.len(), 0);
}

#[test]
fn malformed_text_is_ignored() {
    let mut store = CredentialStore::new();
    let mut session = started_session();
    let d = session.handle_raw(&mut store, "this is not json");
    assert_eq!(d, FrameDisposition::Ignored);
    assert_eq!(session.state, SessionState::HandshakeSent);
    assert_eq!(store.rows.len(), 0);
}

#[test]
fn registered_without_key_is_ignored() {
    let mut store = CredentialStore::new();
    let mut session = started_session();
    let d = session.handle_raw(&mut store, "{\"type\":\"registered\",\"id\":\"register_0\",\"payload\":{}}");
    assert_eq!(d, FrameDisposition::Ignored);
    assert_eq!(session.state, SessionState::HandshakeSent);
    assert_eq!(store.rows.len(), 0);
}

#[test]
fn re_pairing_supersedes_old_token() {
    let mut store = CredentialStore::new();
    store.set_active(String::from("T0"));
    let mut session = started_session();
    let d = session.handle_raw(
        &mut store,
        "{\"type\":\"registered\",\"id\":\"register_0\",\"payload\":{\"client-key\":\"T2\"}}",
    );
    assert_eq!(d, FrameDisposition::PairingComplete);
    assert_eq!(store.rows.len(), 2);
    assert_eq!(store.rows[0].key, "T0");
    assert_eq!(store.rows[0].is_active, ROW_INACTIVE);
    assert_eq!(store.rows[1].key, "T2");
    assert_eq!(store.rows[1].is_active, ROW_ACTIVE);
    assert_eq!(store.get_active().as_deref(), Some("T2"));
}

#[test]
fn frames_before_handshake_are_ignored() {
    let mut store = CredentialStore::new();
    let mut session = Session::new();
    assert_eq!(session.state, SessionState::Connecting);
    let d = session.handle_raw(
        &mut store,
        "{\"type\":\"registered\",\"id\":\"register_0\",\"payload\":{\"client-key\":\"T1\"}}",
    );
    assert_eq!(d, FrameDisposition::Ignored);
    assert_eq!(session.state, SessionState::Connecting);
    assert_eq!(store.rows.len(), 0);
}

#[test]
fn frames_after_registration_are_generic() {
    let mut store = CredentialStore::new();
    let mut session = started_session();
    session.handle_raw(
        &mut store,
        "{\"type\":\"registered\",\"id\":\"register_0\",\"payload\":{\"client-key\":\"T1\"}}",
    );
    assert_eq!(session.state, SessionState::Registered);
    // a second grant is treated as a generic response: nothing is stored
    let d = session.handle_raw(
        &mut store,
        "{\"type\":\"registered\",\"id\":\"register_0\",\"payload\":{\"client-key\":\"T9\"}}",
    );
    assert_eq!(d, FrameDisposition::Ignored);
    assert_eq!(session.state, SessionState::Registered);
    assert_eq!(store.get_active().as_deref(), Some("T1"));
    assert_eq!(store.rows.len(), 1);
}
