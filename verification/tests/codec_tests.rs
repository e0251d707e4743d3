use tv_bridge::codec::build_handshake;
use tv_bridge::codec::build_launch_frame;
use tv_bridge::codec::parse_frame;
use tv_bridge::codec::str_eq;

fn string_at(text: &str, pointer: &str) -> Option<String> {
    let v: serde_json::Value = serde_json::from_str(text).ok()?;
    v.pointer(pointer).and_then(|t| t.as_str()).map(|s| s.to_string())
}

#[test]
fn launch_frame_is_exact() {
    let frame = build_launch_frame("abc123");
    assert_eq!(
        frame,
        "{\"id\":\"youtube_1\",\"payload\":{\"id\":\"youtube.leanback.v4\",\"params\":{\"contentTarget\":\"https://youtube.com/watch?v=abc123\"}},\"type\":\"request\",\"uri\":\"ssap://system.launcher/launch\"}"
    );
}

#[test]
fn launch_frame_carries_uri_and_target() {
    let frame = build_launch_frame("abc123");
    assert_eq!(string_at(&frame, "/uri").as_deref(), Some("ssap://system.launcher/launch"));
    assert_eq!(
        string_at(&frame, "/payload/params/contentTarget").as_deref(),
        Some("https://youtube.com/watch?v=abc123")
    );
    assert_eq!(string_at(&frame, "/id").as_deref(), Some("youtube_1"));
    assert_eq!(string_at(&frame, "/type").as_deref(), Some("request"));
}

#[test]
fn launch_frame_escapes_the_identifier() {
    let tricky = "a\"b\\c\nd\te\u{1}f";
    let frame = build_launch_frame(tricky);
    let target = string_at(&frame, "/payload/params/contentTarget").expect("valid JSON");
    assert_eq!(target, format!("https://youtube.com/watch?v={}", tricky));
}

#[test]
fn handshake_with_token_carries_client_key() {
    let token = String::from("TOK123");
    let hs = build_handshake(Some(&token));
    assert!(hs.contains("client-key"));
    assert_eq!(string_at(&hs, "/payload/client-key").as_deref(), Some("TOK123"));
    assert_eq!(string_at(&hs, "/id").as_deref(), Some("register_0"));
    assert_eq!(string_at(&hs, "/type").as_deref(), Some("register"));
}

#[test]
fn handshake_without_token_omits_client_key() {
    let hs = build_handshake(None);
    assert!(!hs.contains("client-key"));
    let v: serde_json::Value = serde_json::from_str(&hs).expect("valid JSON");
    assert!(v.pointer("/payload/client-key").is_none());
    assert_eq!(string_at(&hs, "/payload/pairingType").as_deref(), Some("PROMPT"));
}

#[test]
fn handshake_manifest_identifies_the_app() {
    let hs = build_handshake(None);
    assert_eq!(string_at(&hs, "/payload/manifest/signed/appId").as_deref(), Some("com.lge.test"));
    assert_eq!(string_at(&hs, "/payload/manifest/appVersion").as_deref(), Some("1.1"));
    assert_eq!(
        string_at(&hs, "/payload/manifest/signed/serial").as_deref(),
        Some("2f930e2d2cfe083771f68e4fe7bb07")
    );
    let v: serde_json::Value = serde_json::from_str(&hs).expect("valid JSON");
    let permissions = v
        .pointer("/payload/manifest/permissions")
        .and_then(|p| p.as_array())
        .expect("permission list");
    assert_eq!(permissions.len(), 52);
    let signed_permissions = v
        .pointer("/payload/manifest/signed/permissions")
        .and_then(|p| p.as_array())
        .expect("signed permission list");
    assert_eq!(signed_permissions.len(), 16);
}

#[test]
fn handshake_with_token_splices_key_into_payload() {
    let token = String::from("TOK123");
    let with_token = build_handshake(Some(&token));
    let without = build_handshake(None);
    let at = without.find("\"forcePairing\"").expect("payload starts with forcePairing");
    let expected = format!("{}\"client-key\":\"TOK123\",{}", &without[..at], &without[at..]);
    assert_eq!(with_token, expected);
}

#[test]
fn handshake_token_is_escaped() {
    let token = String::from("we\"ird\\tok");
    let hs = build_handshake(Some(&token));
    assert_eq!(string_at(&hs, "/payload/client-key").as_deref(), Some("we\"ird\\tok"));
}

#[test]
fn parse_frame_reads_type_id_and_key() {
    let m = parse_frame("{\"type\":\"registered\",\"id\":\"register_0\",\"payload\":{\"client-key\":\"K\"}}")
        .expect("expected frame shape");
    assert_eq!(m.msg_type, "registered");
    assert_eq!(m.msg_id, "register_0");
    assert_eq!(m.client_key.as_deref(), Some("K"));
}

#[test]
fn parse_frame_requires_payload() {
    assert!(parse_frame("{\"type\":\"response\",\"id\":\"register_0\"}").is_none());
    assert!(parse_frame("no json at all").is_none());
    assert!(parse_frame("{\"type\":3,\"id\":\"x\",\"payload\":{}}").is_none());
}

#[test]
fn str_eq_compares_by_characters() {
    assert!(str_eq("register_0", "register_0"));
    assert!(!str_eq("register_0", "register_1"));
    assert!(!str_eq("a", "ab"));
    assert!(str_eq("", ""));
}
