//! Protocol frame text: building the outbound handshake and launch frames as
//! JSON text, escaping strings embedded in them, and decoding inbound frames
//! into the plain values the session logic reads.

use vstd::prelude::*;

verus! {

/// The lower-case hexadecimal digit for a nibble.
pub open spec fn hex_digit(n: int) -> char {
    if n == 0 {
        '0'
    } else if n == 1 {
        '1'
    } else if n == 2 {
        '2'
    } else if n == 3 {
        '3'
    } else if n == 4 {
        '4'
    } else if n == 5 {
        '5'
    } else if n == 6 {
        '6'
    } else if n == 7 {
        '7'
    } else if n == 8 {
        '8'
    } else if n == 9 {
        '9'
    } else if n == 10 {
        'a'
    } else if n == 11 {
        'b'
    } else if n == 12 {
        'c'
    } else if n == 13 {
        'd'
    } else if n == 14 {
        'e'
    } else {
        'f'
    }
}

/// How one character appears inside a JSON string value: quote and backslash
/// take a two-character escape, the common control characters their short
/// names, any other control character the `\u00XX` form, and everything else
/// stands as itself.
pub open spec fn escaped_char(c: char) -> Seq<char> {
    if c == '"' {
        seq!['\\', '"']
    } else if c == '\\' {
        seq!['\\', '\\']
    } else if c == '\n' {
        seq!['\\', 'n']
    } else if c == '\r' {
        seq!['\\', 'r']
    } else if c == '\t' {
        seq!['\\', 't']
    } else if (c as u32) < 32 {
        seq![
            '\\',
            'u',
            '0',
            '0',
            hex_digit((c as u32) as int / 16),
            hex_digit((c as u32) as int % 16),
        ]
    } else {
        seq![c]
    }
}

/// The JSON escaping of a whole string value.
pub open spec fn json_escape(s: Seq<char>) -> Seq<char>
    decreases s.len(),
{
    if s.len() == 0 {
        Seq::empty()
    } else {
        escaped_char(s[0]) + json_escape(s.drop_first())
    }
}

/// Escaping a concatenation escapes the parts.
pub proof fn lemma_json_escape_concat(a: Seq<char>, b: Seq<char>)
    ensures
        json_escape(a + b) == json_escape(a) + json_escape(b),
    decreases a.len(),
{
    if a.len() == 0 {
        assert(a + b =~= b);
        assert(json_escape(a) + json_escape(b) =~= json_escape(b));
    } else {
        lemma_json_escape_concat(a.drop_first(), b);
        assert((a + b).len() > 0);
        assert((a + b)[0] == a[0]);
        assert((a + b).drop_first() =~= a.drop_first() + b);
        assert(json_escape(a + b) == escaped_char(a[0]) + (json_escape(a.drop_first())
            + json_escape(b)));
        assert(escaped_char(a[0]) + (json_escape(a.drop_first()) + json_escape(b)) =~= (escaped_char(
            a[0],
        ) + json_escape(a.drop_first())) + json_escape(b));
    }
}

/// Escaping one more character appends that character's escape.
pub proof fn lemma_json_escape_snoc(a: Seq<char>, c: char)
    ensures
        json_escape(a.push(c)) == json_escape(a) + escaped_char(c),
{
    let single = seq![c];
    assert(a.push(c) =~= a + single);
    lemma_json_escape_concat(a, single);
    assert(single.drop_first() =~= Seq::<char>::empty());
    assert(single[0] == c);
    assert(json_escape(Seq::<char>::empty()) == Seq::<char>::empty());
    assert(json_escape(single) == escaped_char(c) + Seq::<char>::empty());
    assert(escaped_char(c) + Seq::<char>::empty() =~= escaped_char(c));
}

/// Relies on `String::push`: appends the given character to the end of the
/// string.
pub assume_specification[ String::push ](s: &mut String, c: char)
    ensures
        final(s)@ == old(s)@.push(c),
;

/// The lower-case hexadecimal digit character for a nibble.
fn hex_char(n: u8) -> (c: char)
    requires
        n < 16,
    ensures
        c == hex_digit(n as int),
{
    if n == 0 {
        '0'
    } else if n == 1 {
        '1'
    } else if n == 2 {
        '2'
    } else if n == 3 {
        '3'
    } else if n == 4 {
        '4'
    } else if n == 5 {
        '5'
    } else if n == 6 {
        '6'
    } else if n == 7 {
        '7'
    } else if n == 8 {
        '8'
    } else if n == 9 {
        '9'
    } else if n == 10 {
        'a'
    } else if n == 11 {
        'b'
    } else if n == 12 {
        'c'
    } else if n == 13 {
        'd'
    } else if n == 14 {
        'e'
    } else {
        'f'
    }
}

/// Appends the JSON escaping of `s` to `out`.
pub fn escape_append(out: &mut String, s: &str)
    ensures
        final(out)@ == old(out)@ + json_escape(s@),
{
    let n = s.unicode_len();
    let mut i: usize = 0;
    while i < n
        invariant
            n == s@.len(),
            i <= n,
            out@ == old(out)@ + json_escape(s@.subrange(0, i as int)),
        decreases n - i,
    {
        let ghost prefix = s@.subrange(0, i as int);
        let c = s.get_char(i);
        if c == '"' {
            out.push('\\');
            out.push('"');
        } else if c == '\\' {
            out.push('\\');
            out.push('\\');
        } else if c == '\n' {
            out.push('\\');
            out.push('n');
        } else if c == '\r' {
            out.push('\\');
            out.push('r');
        } else if c == '\t' {
            out.push('\\');
            out.push('t');
        } else if (c as u32) < 32 {
            let v = c as u32;
            out.push('\\');
            out.push('u');
            out.push('0');
            out.push('0');
            out.push(hex_char((v / 16) as u8));
            out.push(hex_char((v % 16) as u8));
        } else {
            out.push(c);
        }
        proof {
            lemma_json_escape_snoc(prefix, c);
            assert(out@ =~= old(out)@ + json_escape(prefix) + escaped_char(c));
            assert(s@.subrange(0, i as int + 1) =~= prefix.push(c));
            assert(out@ =~= old(out)@ + json_escape(s@.subrange(0, i as int + 1)));
        }
        i = i + 1;
    }
    proof {
        assert(s@.subrange(0, n as int) =~= s@);
    }
}

/// Character-wise string equality, stated over the views.
pub fn str_eq(a: &str, b: &str) -> (r: bool)
    ensures
        r == (a@ == b@),
{
    let na = a.unicode_len();
    let nb = b.unicode_len();
    if na != nb {
        return false;
    }
    let mut i: usize = 0;
    while i < na
        invariant
            na == a@.len(),
            na == b@.len(),
            i <= na,
            forall|j: int| 0 <= j < i ==> a@[j] == b@[j],
        decreases na - i,
    {
        if a.get_char(i) != b.get_char(i) {
            return false;
        }
        i = i + 1;
    }
    proof {
        assert(a@ =~= b@);
    }
    true
}

// --- outbound frames ---

/// Opening of the handshake frame, up to the start of the payload object.
pub open spec fn handshake_head() -> Seq<char> {
    "{\"id\":\"register_0\",\"type\":\"register\",\"payload\":{"@
}

/// The member that carries a previously issued token into the payload.
pub open spec fn client_key_label() -> Seq<char> {
    "\"client-key\":\""@
}

/// Closes the token string and separates it from the rest of the payload.
pub open spec fn client_key_close() -> Seq<char> {
    "\","@
}

/// The member name alone, quoted; the handshake mentions it exactly when a
/// token is carried.
pub open spec fn client_key_marker() -> Seq<char> {
    "\"client-key\""@
}

/// The fixed remainder of the handshake payload, as source text.
pub const HANDSHAKE_TAIL: &'static str = "\"forcePairing\":false,\"manifest\":{\"appVersion\":\"1.1\",\"manifestVersion\":1,\"permissions\":[\"LAUNCH\",\"LAUNCH_WEBAPP\",\"APP_TO_APP\",\"CLOSE\",\"TEST_OPEN\",\"TEST_PROTECTED\",\"CONTROL_AUDIO\",\"CONTROL_DISPLAY\",\"CONTROL_INPUT_JOYSTICK\",\"CONTROL_INPUT_MEDIA_RECORDING\",\"CONTROL_INPUT_MEDIA_PLAYBACK\",\"CONTROL_INPUT_TV\",\"CONTROL_POWER\",\"READ_APP_STATUS\",\"READ_CURRENT_CHANNEL\",\"READ_INPUT_DEVICE_LIST\",\"READ_NETWORK_STATE\",\"READ_RUNNING_APPS\",\"READ_TV_CHANNEL_LIST\",\"WRITE_NOTIFICATION_TOAST\",\"READ_POWER_STATE\",\"READ_COUNTRY_INFO\",\"READ_SETTINGS\",\"CONTROL_TV_SCREEN\",\"CONTROL_TV_STANBY\",\"CONTROL_FAVORITE_GROUP\",\"CONTROL_USER_INFO\",\"CHECK_BLUETOOTH_DEVICE\",\"CONTROL_BLUETOOTH\",\"CONTROL_TIMER_INFO\",\"STB_INTERNAL_CONNECTION\",\"CONTROL_RECORDING\",\"READ_RECORDING_STATE\",\"WRITE_RECORDING_LIST\",\"READ_RECORDING_LIST\",\"READ_RECORDING_SCHEDULE\",\"WRITE_RECORDING_SCHEDULE\",\"READ_STORAGE_DEVICE_LIST\",\"READ_TV_PROGRAM_INFO\",\"CONTROL_BOX_CHANNEL\",\"READ_TV_ACR_AUTH_TOKEN\",\"READ_TV_CONTENT_STATE\",\"READ_TV_CURRENT_TIME\",\"ADD_LAUNCHER_CHANNEL\",\"SET_CHANNEL_SKIP\",\"RELEASE_CHANNEL_SKIP\",\"CONTROL_CHANNEL_BLOCK\",\"DELETE_SELECT_CHANNEL\",\"CONTROL_CHANNEL_GROUP\",\"SCAN_TV_CHANNELS\",\"CONTROL_TV_POWER\",\"CONTROL_WOL\"],\"signatures\":[{\"signature\":\"eyJhbGdvcml0aG0iOiJSU0EtU0hBMjU2Iiwia2V5SWQiOiJ0ZXN0LXNpZ25pbmctY2VydCIsInNpZ25hdHVyZVZlcnNpb24iOjF9.hrVRgjCwXVvE2OOSpDZ58hR+59aFNwYDyjQgKk3auukd7pcegmE2CzPCa0bJ0ZsRAcKkCTJrWo5iDzNhMBWRyaMOv5zWSrthlf7G128qvIlpMT0YNY+n/FaOHE73uLrS/g7swl3/qH/BGFG2Hu4RlL48eb3lLKqTt2xKHdCs6Cd4RMfJPYnzgvI4BNrFUKsjkcu+WD4OO2A27Pq1n50cMchmcaXadJhGrOqH5YmHdOCj5NSHzJYrsW0HPlpuAx/ECMeIZYDh6RMqaFM2DXzdKX9NmmyqzJ3o/0lkk/N97gfVRLW5hA29yeAwaCViZNCP8iC9aO0q9fQojoa7NQnAtw==\",\"signatureVersion\":1}],\"signed\":{\"appId\":\"com.lge.test\",\"created\":\"20140509\",\"localizedAppNames\":{\"\":\"LG Remote App\",\"ko-KR\":\"\\ub9ac\\ubaa8\\ucee8 \\uc571\",\"zxx-XX\":\"\\u041b\\u0413 R\\u044d\\u043cot\\u044d A\\u041f\\u041f\"},\"localizedVendorNames\":{\"\":\"LG Electronics\"},\"permissions\":[\"TEST_SECURE\",\"CONTROL_INPUT_TEXT\",\"CONTROL_MOUSE_AND_KEYBOARD\",\"READ_INSTALLED_APPS\",\"READ_LGE_SDX\",\"READ_NOTIFICATIONS\",\"SEARCH\",\"WRITE_SETTINGS\",\"WRITE_NOTIFICATION_ALERT\",\"CONTROL_POWER\",\"READ_CURRENT_CHANNEL\",\"READ_RUNNING_APPS\",\"READ_UPDATE_INFO\",\"UPDATE_FROM_REMOTE_APP\",\"READ_LGE_TV_INPUT_EVENTS\",\"READ_TV_CURRENT_TIME\"],\"serial\":\"2f930e2d2cfe083771f68e4fe7bb07\",\"vendorId\":\"com.lge\"}},\"pairingType\":\"PROMPT\"}}";

/// The fixed remainder of the handshake payload: the pairing manifest the
/// television expects byte for byte, and the closing braces.
pub open spec fn handshake_tail() -> Seq<char> {
    HANDSHAKE_TAIL@
}

/// The whole handshake frame: the stored token is spliced into the payload
/// when one exists and omitted otherwise (first-pairing mode).
pub open spec fn handshake_text(tok: Option<Seq<char>>) -> Seq<char> {
    match tok {
        Some(k) => handshake_head() + client_key_label() + json_escape(k) + client_key_close()
            + handshake_tail(),
        None => handshake_head() + handshake_tail(),
    }
}

/// Builds the handshake frame from the store's answer at handshake-build
/// time: the payload carries `client-key` exactly when a token was returned.
pub fn build_handshake(active: Option<&String>) -> (r: String)
    ensures
        match active {
            Some(k) => r@ == handshake_text(Some(k@)),
            None => r@ == handshake_text(None),
        },
{
    let mut out = String::new();
    out.append("{\"id\":\"register_0\",\"type\":\"register\",\"payload\":{");
    match active {
        Some(k) => {
            out.append("\"client-key\":\"");
            escape_append(&mut out, k.as_str());
            out.append("\",");
        },
        None => {
        },
    }
    out.append(HANDSHAKE_TAIL);
    proof {
        match active {
            Some(k) => {
                assert(out@ =~= handshake_text(Some(k@)));
            },
            None => {
                assert(out@ =~= handshake_text(None));
            },
        }
    }
    out
}

/// Prefix of the watch link built from a submitted video identifier.
pub open spec fn watch_prefix() -> Seq<char> {
    "https://youtube.com/watch?v="@
}

/// The watch link a launch command points the television at.
pub open spec fn watch_url(video_id: Seq<char>) -> Seq<char> {
    watch_prefix() + video_id
}

/// Opening of the launch frame, up to the contentTarget string.
pub open spec fn launch_head() -> Seq<char> {
    "{\"id\":\"youtube_1\",\"payload\":{\"id\":\"youtube.leanback.v4\",\"params\":{\"contentTarget\":\""@
}

/// Remainder of the launch frame after the contentTarget string.
pub open spec fn launch_tail() -> Seq<char> {
    "\"}},\"type\":\"request\",\"uri\":\"ssap://system.launcher/launch\"}"@
}

/// The whole launch frame for one submitted video identifier: a request with
/// the fixed correlation id, the launcher uri, and the watch link as the
/// contentTarget.
pub open spec fn launch_text(video_id: Seq<char>) -> Seq<char> {
    launch_head() + json_escape(watch_url(video_id)) + launch_tail()
}

/// Builds the outbound launch frame for one video identifier.
pub fn build_launch_frame(video_id: &str) -> (r: String)
    ensures
        r@ == launch_text(video_id@),
{
    let mut out = String::new();
    out.append(
        "{\"id\":\"youtube_1\",\"payload\":{\"id\":\"youtube.leanback.v4\",\"params\":{\"contentTarget\":\"",
    );
    escape_append(&mut out, "https://youtube.com/watch?v=");
    escape_append(&mut out, video_id);
    out.append("\"}},\"type\":\"request\",\"uri\":\"ssap://system.launcher/launch\"}");
    proof {
        lemma_json_escape_concat(watch_prefix(), video_id@);
        assert(out@ =~= launch_text(video_id@));
    }
    out
}

// --- occurrence of a member in frame text ---

/// Whether `p` occurs as a contiguous run of characters inside `t`.
pub open spec fn contains_seq(t: Seq<char>, p: Seq<char>) -> bool
    decreases t.len(),
{
    if p.len() > t.len() {
        false
    } else if p.is_prefix_of(t) {
        true
    } else if t.len() == 0 {
        false
    } else {
        contains_seq(t.drop_first(), p)
    }
}

/// A run placed between two other parts occurs in the whole.
pub proof fn lemma_concat_contains(a: Seq<char>, p: Seq<char>, b: Seq<char>)
    ensures
        contains_seq(a + p + b, p),
    decreases a.len(),
{
    let t = a + p + b;
    if a.len() == 0 {
        assert(t =~= p + b);
        assert(p =~= (p + b).subrange(0, p.len() as int));
        assert(p.is_prefix_of(p + b));
    } else {
        lemma_concat_contains(a.drop_first(), p, b);
        assert(t.drop_first() =~= a.drop_first() + p + b);
        assert(t.len() >= p.len());
    }
}

/// From an occurrence of `p` somewhere in `t`, a position where it stands.
proof fn lemma_contains_position(t: Seq<char>, p: Seq<char>) -> (k: int)
    requires
        contains_seq(t, p),
    ensures
        0 <= k,
        k + p.len() <= t.len(),
        forall|j: int| 0 <= j < p.len() ==> t[k + j] == #[trigger] p[j],
    decreases t.len(),
{
    if p.is_prefix_of(t) {
        assert(p =~= t.subrange(0, p.len() as int));
        assert forall|j: int| 0 <= j < p.len() implies t[0 + j] == #[trigger] p[j] by {
            assert(p[j] == t.subrange(0, p.len() as int)[j]);
        }
        0
    } else {
        let k1 = lemma_contains_position(t.drop_first(), p);
        assert forall|j: int| 0 <= j < p.len() implies t[(k1 + 1) + j] == #[trigger] p[j] by {
            assert(t.drop_first()[k1 + j] == p[j]);
        }
        k1 + 1
    }
}

/// A handshake built with a token mentions the client-key member.
proof fn lemma_handshake_with_token_mentions_key(k: Seq<char>)
    ensures
        contains_seq(handshake_text(Some(k)), client_key_marker()),
{
    reveal_strlit("\"client-key\":\"");
    reveal_strlit("\"client-key\"");
    reveal_strlit(":\"");
    assert(client_key_label() =~= client_key_marker() + ":\""@);
    let b = ":\""@ + json_escape(k) + client_key_close() + handshake_tail();
    assert(handshake_text(Some(k)) =~= handshake_head() + client_key_marker() + b);
    lemma_concat_contains(handshake_head(), client_key_marker(), b);
}

/// A handshake built without a token does not mention the client-key member:
/// nowhere in the fixed text does a quote stand before the letters `cl`, so
/// the quoted member name occurs nowhere.
#[verifier::rlimit(100)]
proof fn lemma_handshake_without_token_omits_key()
    ensures
        !contains_seq(handshake_text(None), client_key_marker()),
{
    reveal_strlit("{\"id\":\"register_0\",\"type\":\"register\",\"payload\":{");
    reveal_strlit("\"forcePairing\":false,\"manifest\":{\"appVersion\":\"1.1\",\"manifestVersion\":1,\"permissions\":[\"LAUNCH\",\"LAUNCH_WEBAPP\",\"APP_TO_APP\",\"CLOSE\",\"TEST_OPEN\",\"TEST_PROTECTED\",\"CONTROL_AUDIO\",\"CONTROL_DISPLAY\",\"CONTROL_INPUT_JOYSTICK\",\"CONTROL_INPUT_MEDIA_RECORDING\",\"CONTROL_INPUT_MEDIA_PLAYBACK\",\"CONTROL_INPUT_TV\",\"CONTROL_POWER\",\"READ_APP_STATUS\",\"READ_CURRENT_CHANNEL\",\"READ_INPUT_DEVICE_LIST\",\"READ_NETWORK_STATE\",\"READ_RUNNING_APPS\",\"READ_TV_CHANNEL_LIST\",\"WRITE_NOTIFICATION_TOAST\",\"READ_POWER_STATE\",\"READ_COUNTRY_INFO\",\"READ_SETTINGS\",\"CONTROL_TV_SCREEN\",\"CONTROL_TV_STANBY\",\"CONTROL_FAVORITE_GROUP\",\"CONTROL_USER_INFO\",\"CHECK_BLUETOOTH_DEVICE\",\"CONTROL_BLUETOOTH\",\"CONTROL_TIMER_INFO\",\"STB_INTERNAL_CONNECTION\",\"CONTROL_RECORDING\",\"READ_RECORDING_STATE\",\"WRITE_RECORDING_LIST\",\"READ_RECORDING_LIST\",\"READ_RECORDING_SCHEDULE\",\"WRITE_RECORDING_SCHEDULE\",\"READ_STORAGE_DEVICE_LIST\",\"READ_TV_PROGRAM_INFO\",\"CONTROL_BOX_CHANNEL\",\"READ_TV_ACR_AUTH_TOKEN\",\"READ_TV_CONTENT_STATE\",\"READ_TV_CURRENT_TIME\",\"ADD_LAUNCHER_CHANNEL\",\"SET_CHANNEL_SKIP\",\"RELEASE_CHANNEL_SKIP\",\"CONTROL_CHANNEL_BLOCK\",\"DELETE_SELECT_CHANNEL\",\"CONTROL_CHANNEL_GROUP\",\"SCAN_TV_CHANNELS\",\"CONTROL_TV_POWER\",\"CONTROL_WOL\"],\"signatures\":[{\"signature\":\"eyJhbGdvcml0aG0iOiJSU0EtU0hBMjU2Iiwia2V5SWQiOiJ0ZXN0LXNpZ25pbmctY2VydCIsInNpZ25hdHVyZVZlcnNpb24iOjF9.hrVRgjCwXVvE2OOSpDZ58hR+59aFNwYDyjQgKk3auukd7pcegmE2CzPCa0bJ0ZsRAcKkCTJrWo5iDzNhMBWRyaMOv5zWSrthlf7G128qvIlpMT0YNY+n/FaOHE73uLrS/g7swl3/qH/BGFG2Hu4RlL48eb3lLKqTt2xKHdCs6Cd4RMfJPYnzgvI4BNrFUKsjkcu+WD4OO2A27Pq1n50cMchmcaXadJhGrOqH5YmHdOCj5NSHzJYrsW0HPlpuAx/ECMeIZYDh6RMqaFM2DXzdKX9NmmyqzJ3o/0lkk/N97gfVRLW5hA29yeAwaCViZNCP8iC9aO0q9fQojoa7NQnAtw==\",\"signatureVersion\":1}],\"signed\":{\"appId\":\"com.lge.test\",\"created\":\"20140509\",\"localizedAppNames\":{\"\":\"LG Remote App\",\"ko-KR\":\"\\ub9ac\\ubaa8\\ucee8 \\uc571\",\"zxx-XX\":\"\\u041b\\u0413 R\\u044d\\u043cot\\u044d A\\u041f\\u041f\"},\"localizedVendorNames\":{\"\":\"LG Electronics\"},\"permissions\":[\"TEST_SECURE\",\"CONTROL_INPUT_TEXT\",\"CONTROL_MOUSE_AND_KEYBOARD\",\"READ_INSTALLED_APPS\",\"READ_LGE_SDX\",\"READ_NOTIFICATIONS\",\"SEARCH\",\"WRITE_SETTINGS\",\"WRITE_NOTIFICATION_ALERT\",\"CONTROL_POWER\",\"READ_CURRENT_CHANNEL\",\"READ_RUNNING_APPS\",\"READ_UPDATE_INFO\",\"UPDATE_FROM_REMOTE_APP\",\"READ_LGE_TV_INPUT_EVENTS\",\"READ_TV_CURRENT_TIME\"],\"serial\":\"2f930e2d2cfe083771f68e4fe7bb07\",\"vendorId\":\"com.lge\"}},\"pairingType\":\"PROMPT\"}}");
    reveal_strlit("\"client-key\"");
    let t = handshake_text(None);
    assert(forall|k: int|
        0 <= k < t.len() - 2 ==> !((#[trigger] t[k]) == '"' && t[k + 1] == 'c' && t[k + 2]
            == 'l'));
    if contains_seq(t, client_key_marker()) {
        let k = lemma_contains_position(t, client_key_marker());
        assert(client_key_marker()[0] == '"');
        assert(client_key_marker()[1] == 'c');
        assert(client_key_marker()[2] == 'l');
        assert(t[k] == '"');
        assert(t[k + 1] == 'c');
        assert(t[k + 2] == 'l');
        assert(0 <= k < t.len() - 2);
        assert(false);
    }
}

/// The handshake payload mentions the client-key member exactly when a token
/// was carried into it.
pub proof fn lemma_handshake_mentions_key_iff(tok: Option<Seq<char>>)
    ensures
        contains_seq(handshake_text(tok), client_key_marker()) <==> tok is Some,
{
    match tok {
        Some(k) => lemma_handshake_with_token_mentions_key(k),
        None => lemma_handshake_without_token_omits_key(),
    }
}

// --- inbound frames ---

/// An inbound protocol frame, reduced to the plain values the session logic
/// reads: its type, its correlation id, and the token carried at
/// `payload.client-key` when one is carried.
pub struct ProtocolMessage {
    pub msg_type: String,
    pub msg_id: String,
    pub client_key: Option<String>,
}

/// The mathematical image of a [`ProtocolMessage`].
pub struct FrameView {
    pub msg_type: Seq<char>,
    pub msg_id: Seq<char>,
    pub client_key: Option<Seq<char>>,
}

impl View for ProtocolMessage {
    type V = FrameView;

    open spec fn view(&self) -> FrameView {
        FrameView {
            msg_type: self.msg_type@,
            msg_id: self.msg_id@,
            client_key: match self.client_key {
                Some(k) => Some(k@),
                None => None,
            },
        }
    }
}

/// The string value at a JSON Pointer path in a JSON text, when the text
/// parses and a string sits at that path. A function of the text and the
/// path alone.
pub uninterp spec fn json_string_at(text: Seq<char>, path: Seq<char>) -> Option<Seq<char>>;

/// Whether a JSON text parses and has any value at a JSON Pointer path. A
/// function of the text and the path alone.
pub uninterp spec fn json_has_at(text: Seq<char>, path: Seq<char>) -> bool;

/// Relies on `serde_json::from_str`, `serde_json::Value::pointer` and
/// `serde_json::Value::as_str`: resolves a JSON Pointer path in the parsed
/// text and returns the string there, if the text parses and the value at the
/// path is a string. All three are deterministic in the text and path.
#[verifier::external_body]
fn string_at(raw: &str, path: &str) -> (r: Option<String>)
    ensures
        match r {
            Some(s) => json_string_at(raw@, path@) == Some(s@),
            None => json_string_at(raw@, path@) is None,
        },
{
    match serde_json::from_str::<serde_json::Value>(raw) {
        Ok(v) => match v.pointer(path) {
            Some(t) => match t.as_str() {
                Some(s) => Some(s.to_string()),
                None => None,
            },
            None => None,
        },
        Err(_) => None,
    }
}

/// Relies on `serde_json::from_str` and `serde_json::Value::pointer`: whether
/// the text parses and some value sits at the path. Deterministic in the text
/// and path.
#[verifier::external_body]
fn value_present_at(raw: &str, path: &str) -> (r: bool)
    ensures
        r == json_has_at(raw@, path@),
{
    match serde_json::from_str::<serde_json::Value>(raw) {
        Ok(v) => v.pointer(path).is_some(),
        Err(_) => false,
    }
}

/// The frame a raw inbound text decodes to: it must parse as JSON and carry a
/// string type, a string id and a payload; the token is the string at
/// `payload.client-key` when that member is a string. Anything else fails to
/// decode and is ignored by the session.
pub open spec fn parsed_frame(raw: Seq<char>) -> Option<FrameView> {
    match (json_string_at(raw, "/type"@), json_string_at(raw, "/id"@)) {
        (Some(t), Some(i)) => if json_has_at(raw, "/payload"@) {
            Some(
                FrameView {
                    msg_type: t,
                    msg_id: i,
                    client_key: json_string_at(raw, "/payload/client-key"@),
                },
            )
        } else {
            None
        },
        _ => None,
    }
}

/// Decodes one raw inbound text into the plain frame the session reads, or
/// `None` for a text without the expected shape.
pub fn parse_frame(raw: &str) -> (r: Option<ProtocolMessage>)
    ensures
        match r {
            Some(m) => parsed_frame(raw@) == Some(m@),
            None => parsed_frame(raw@) is None,
        },
{
    let t = string_at(raw, "/type");
    let i = string_at(raw, "/id");
    match (t, i) {
        (Some(msg_type), Some(msg_id)) => {
            if value_present_at(raw, "/payload") {
                let client_key = string_at(raw, "/payload/client-key");
                let m = ProtocolMessage { msg_type, msg_id, client_key };
                proof {
                    assert(parsed_frame(raw@) == Some(m@));
                }
                Some(m)
            } else {
                None
            }
        },
        _ => None,
    }
}


} // verus!
