//! What a connection does with each packet it receives, given its state.
use super::ClientState;
use crate::data_types::encoder::string::utf8_lossy;
use crate::packets::client_bound::{
    login_success_bytes, C00LoginDisconnect, C00StatusResponse, C01EncryptionRequest, C01Pong, C02LoginSuccess,
    C03SetCompression,
    ClientBoundPacket,
};
use crate::packets::server_bound::{
    decode_outcome, Decoded, S00Handshake, S00LoginStart, S00Request, S01EncryptionResponse, S01Ping,
    S01VerifyToken, S01VerifyTokenView, S04ChatMessage, S0AClickContainer, S0CPluginMessage, S11KeepAlive, S13SetPlayerPosition,
    S13SetPlayerPositionAndRotation, S15SetPlayerRotation, S1BPlayerAbilities, S1CPlayerAction,
    S1DPlayerCommand, S27SetHeldItem, S2ASetCreativeModeSlot, S2ESwingArm, S30UseItemOn, ServerBoundPacket,
};
use crate::packets::{PacketCompression, RawPacket};
use crate::DecodingError;
use vstd::prelude::*;
use vstd::string::StringExecFns;

verus! {

broadcast use vstd::string::group_string_axioms;

/// What the connection tells the server. A status request and a login start
/// are questions that the server answers: they come as `Action`s.
#[derive(Debug)]
pub enum ClientEvent {
    /// The client may now receive play packets.
    LoggedIn,
    /// The client is gone.
    Logout,
    /// The client answered a keep-alive after `delay` milliseconds.
    Ping { delay: u128 },
    ChatMessage(S04ChatMessage),
    ClickContainer(S0AClickContainer),
    PluginMessage(S0CPluginMessage),
    SetPlayerPositionAndRotation(S13SetPlayerPositionAndRotation),
    SetPlayerRotation(S15SetPlayerRotation),
    PlayerCommand(S1DPlayerCommand),
    PlayerAbilities(S1BPlayerAbilities),
    PlayerAction(S1CPlayerAction),
    SetHeldItem(S27SetHeldItem),
    SetCreativeModeSlot(S2ASetCreativeModeSlot),
    SwingArm(S2ESwingArm),
    SetPlayerPosition(S13SetPlayerPosition),
    UseItemOn(S30UseItemOn),
}

/// The server's answer to a login.
#[derive(Debug)]
pub enum LoginStartResult {
    /// Let the player in under this UUID (its 128-bit value) and name,
    /// with or without encryption and compression.
    Accept { uuid: u128, username: String, encrypt: bool, compress: bool },
    /// Refuse the player with this reason.
    Disconnect { reason: String },
}

/// Why a connection stops.
#[derive(Debug)]
pub enum ListenError {
    DecodingError(DecodingError),
    InvalidPacket { packet_id: i32, state: ClientState, packet_name: Option<String>, message: String },
}

/// What the caller is to do for the connection, in order.
#[derive(Debug)]
pub enum Action {
    /// Queue a packet.
    Send(RawPacket),
    /// Send this packet, wait until it is written, then compress in both
    /// directions with this threshold.
    EnableCompression(RawPacket, PacketCompression),
    /// Encrypt both directions with AES/CFB8, this key as key and IV.
    EnableEncryption(Vec<u8>),
    /// Hand this event to the server.
    Emit(ClientEvent),
    /// The client answered the keep-alive with this id: record it, then emit
    /// a ping event with the delay since the keep-alive was sent.
    KeepAliveAnswer(i64),
    /// Ask the server for its status and call `on_status_response`.
    AskServerListPing,
    /// Ask the server about this login and call `on_login_start_result`.
    AskLoginStart(String),
    /// Decrypt both with the server's private key (RSA, PKCS#1) and call
    /// `on_decrypted`.
    Decrypt { shared_secret: Vec<u8>, verify_token: Vec<u8> },
    /// Start sending keep-alives.
    StartKeepAlive,
}

/// What the connection waits for from the caller.
#[derive(Clone, Copy, Debug, PartialEq, Eq, Structural)]
pub enum Pending {
    Nothing,
    ServerListPing,
    LoginStart,
    Decrypt,
}

/// The hexadecimal digit for `v`, in lower case.
pub open spec fn hex_digit(v: int) -> char {
    if v < 10 {
        ('0' as int + v) as char
    } else {
        ('a' as int + v - 10) as char
    }
}

/// How `serde_json` writes one character inside a string: a quote and a
/// backslash behind a backslash; backspace, tab, line feed, form feed and
/// carriage return as `\b`, `\t`, `\n`, `\f`, `\r`; the other control
/// characters below 0x20 as `\u00` and two lower-case hexadecimal digits;
/// every other character as it is.
pub open spec fn json_escape(c: char) -> Seq<char> {
    let v = c as int;
    if c == '"' {
        seq!['\\', '"']
    } else if c == '\\' {
        seq!['\\', '\\']
    } else if v == 8 {
        seq!['\\', 'b']
    } else if v == 9 {
        seq!['\\', 't']
    } else if v == 10 {
        seq!['\\', 'n']
    } else if v == 12 {
        seq!['\\', 'f']
    } else if v == 13 {
        seq!['\\', 'r']
    } else if v < 0x20 {
        seq!['\\', 'u', '0', '0', hex_digit(v / 16), hex_digit(v % 16)]
    } else {
        seq![c]
    }
}

/// The characters of `s`, each as `json_escape` writes it.
pub open spec fn json_escaped(s: Seq<char>) -> Seq<char>
    decreases s.len(),
{
    if s.len() == 0 {
        Seq::empty()
    } else {
        json_escaped(s.drop_last()) + json_escape(s.last())
    }
}

/// Text without quotes, backslashes or control characters is written as it
/// is.
pub proof fn lemma_plain_json_escaped(s: Seq<char>)
    requires
        forall|i: int| 0 <= i < s.len() ==> #[trigger] s[i] as int >= 0x20 && s[i] != '"' && s[i] != '\\',
    ensures
        json_escaped(s) == s,
    decreases s.len(),
{
    if s.len() > 0 {
        let init = s.drop_last();
        assert forall|i: int| 0 <= i < init.len() implies #[trigger] init[i] as int >= 0x20 && init[i] != '"'
            && init[i] != '\\' by {
            assert(init[i] == s[i]);
        }
        lemma_plain_json_escaped(init);
        assert(s[s.len() - 1] as int >= 0x20);
        assert(init.push(s.last()) =~= s);
        assert(json_escape(s.last()) =~= seq![s.last()]);
    }
}

/// The JSON text of a string: in quotes, escaped as `serde_json` writes it.
pub open spec fn json_string_literal(s: Seq<char>) -> Seq<char> {
    seq!['"'] + json_escaped(s) + seq!['"']
}

/// Calls `serde_json::to_string` on the text. Claimed, from `serde_json`'s
/// string formatter and its escape table: the result is
/// `json_string_literal` of it. Serializing a string cannot fail, so the
/// unwrap does not fire.
#[verifier::external_body]
fn json_string(s: &str) -> (r: String)
    ensures
        r@ == json_string_literal(s@),
{
    serde_json::to_string(s).unwrap()
}

/// The chat component `{"text":...}` with `reason` as its text.
pub open spec fn text_component(reason: Seq<char>) -> Seq<char> {
    "{\"text\":"@ + json_string_literal(reason) + "}"@
}

/// An encryption request with an empty server id.
pub open spec fn encryption_request_bytes(public_key: Seq<u8>, verify_token: Seq<u8>) -> Seq<u8> {
    crate::data_types::encoder::string::spec_encode(Seq::empty()) + crate::data_types::encoder::varint::spec_encode(
        public_key.len() as i32,
    ) + public_key + crate::data_types::encoder::varint::spec_encode(verify_token.len() as i32) + verify_token
}

/// The compression threshold a login switches on.
pub const LOGIN_COMPRESSION: i32 = 50;

/// One client connection.
pub struct Connection {
    state: ClientState,
    pending: Pending,
    login_uuid: Option<u128>,
    login_username: Option<String>,
    login_compress: bool,
    verify_token: Vec<u8>,
    public_key: Vec<u8>,
}

pub struct ConnectionView {
    pub state: ClientState,
    pub pending: Pending,
    pub login_uuid: Option<u128>,
    pub login_username: Option<Seq<char>>,
    pub login_compress: bool,
    pub verify_token: Seq<u8>,
    pub public_key: Seq<u8>,
}

impl View for Connection {
    type V = ConnectionView;

    closed spec fn view(&self) -> ConnectionView {
        ConnectionView {
            state: self.state,
            pending: self.pending,
            login_uuid: self.login_uuid,
            login_username: match self.login_username {
                Some(n) => Some(n@),
                None => None,
            },
            login_compress: self.login_compress,
            verify_token: self.verify_token@,
            public_key: self.public_key@,
        }
    }
}

/// The packet `p` is `packet` with its id.
pub open spec fn is_packet<P: ClientBoundPacket>(p: RawPacket, packet: P) -> bool {
    p.packet_id == P::spec_packet_id() && packet.encoded_as(p.data@)
}

/// The actions that finish a login for `uuid` and `username`: compression
/// where it was asked for, then the login success.
pub open spec fn login_done(a: Seq<Action>, compress: bool, uuid: u128, username: Seq<char>) -> bool {
    let k: int = if compress { 1 } else { 0 };
    &&& a.len() == k + 1
    &&& compress ==> (a[0] matches Action::EnableCompression(p, c) && is_packet(
        p,
        C03SetCompression { threshold: LOGIN_COMPRESSION },
    ) && c@ == LOGIN_COMPRESSION)
    &&& a[k] matches Action::Send(p) && p.packet_id == 0x02 && p.data@ == login_success_bytes(uuid, username)
}

/// The error of a packet the state does not allow.
pub open spec fn invalid_packet(
    e: ListenError,
    packet_id: i32,
    state: ClientState,
    name: Option<Seq<char>>,
    message: Seq<char>,
) -> bool {
    e matches ListenError::InvalidPacket { packet_id: i, state: st, packet_name: n, message: m } && i
        == packet_id && st == state && m@ == message && match n {
        Some(t) => name == Some(t@),
        None => name is None,
    }
}

/// A decoding error `e` of the listener.
pub open spec fn decoding_failed(r: Result<Vec<Action>, ListenError>, e: crate::DecodingErrorView) -> bool {
    r matches Err(ListenError::DecodingError(x)) && x@ == e
}

/// Whether decoding the packet that the state dispatches to panics (or,
/// for a client command in play, is not implemented).
pub open spec fn packet_panics(state: ClientState, id: i32, data: Seq<u8>) -> bool {
    match state {
        ClientState::Handshaking => decode_outcome(id, data, 0x00, S00Handshake::spec_read(data, 0)) is Panic,
        ClientState::Login => (id == 0x00 && decode_outcome(id, data, 0x00, S00LoginStart::spec_read(data, 0))
            is Panic) || (id == 0x01 && decode_outcome(id, data, 0x01, S01EncryptionResponse::spec_read(data, 0))
            is Panic),
        ClientState::Play => id == 0x06 || (id == 0x04 && decode_outcome(id, data, 0x04, S04ChatMessage::spec_read(data, 0)) is Panic) || (id == 0x0A && decode_outcome(id, data, 0x0A, S0AClickContainer::spec_read(data, 0)) is Panic) || (id == 0x0C && decode_outcome(id, data, 0x0C, S0CPluginMessage::spec_read(data, 0)) is Panic) || (id == 0x13 && decode_outcome(id, data, 0x13, S13SetPlayerPositionAndRotation::spec_read(data, 0)) is Panic) || (id == 0x15 && decode_outcome(id, data, 0x15, S15SetPlayerRotation::spec_read(data, 0)) is Panic) || (id == 0x1D && decode_outcome(id, data, 0x1D, S1DPlayerCommand::spec_read(data, 0)) is Panic) || (id == 0x1B && decode_outcome(id, data, 0x1B, S1BPlayerAbilities::spec_read(data, 0)) is Panic) || (id == 0x1C && decode_outcome(id, data, 0x1C, S1CPlayerAction::spec_read(data, 0)) is Panic) || (id == 0x27 && decode_outcome(id, data, 0x27, S27SetHeldItem::spec_read(data, 0)) is Panic) || (id == 0x2A && decode_outcome(id, data, 0x2A, S2ASetCreativeModeSlot::spec_read(data, 0)) is Panic) || (id == 0x2E && decode_outcome(id, data, 0x2E, S2ESwingArm::spec_read(data, 0)) is Panic),
        _ => false,
    }
}

/// Only the state and what waits change; the login data stays.
pub open spec fn same_login(a: ConnectionView, b: ConnectionView) -> bool {
    &&& a.login_uuid == b.login_uuid
    &&& a.login_username == b.login_username
    &&& a.login_compress == b.login_compress
    &&& a.verify_token == b.verify_token
    &&& a.public_key == b.public_key
}

/// A handshake: the next state, 1 for status and 2 for login.
pub open spec fn handshake_post(old: ConnectionView, new: ConnectionView, raw: RawPacket, r: Result<Vec<Action>, ListenError>) -> bool {
    &&& same_login(old, new)
    &&& new.pending == old.pending
    &&& match decode_outcome(raw.packet_id, raw.data@, 0x00, S00Handshake::spec_read(raw.data@, 0)) {
        Decoded::Error(e) => decoding_failed(r, e) && new.state == old.state,
        Decoded::Value(h) => if h.next_state == 1 {
            r matches Ok(a) && a@.len() == 0 && new.state == ClientState::Status
        } else if h.next_state == 2 {
            r matches Ok(a) && a@.len() == 0 && new.state == ClientState::Login
        } else {
            r matches Err(e) && invalid_packet(e, 0x00, ClientState::Handshaking, Some("Handshake"@), "invalid next state"@)
                && new.state == old.state
        },
        Decoded::Panic => false,
    }
}

/// In the status state: a request asks the server for its status; a ping is
/// answered with a pong and ends the connection.
pub open spec fn status_post(old: ConnectionView, new: ConnectionView, raw: RawPacket, r: Result<Vec<Action>, ListenError>) -> bool {
    &&& same_login(old, new)
    &&& if raw.packet_id == 0x00 {
        match decode_outcome(raw.packet_id, raw.data@, 0x00, S00Request::spec_read(raw.data@, 0)) {
            Decoded::Error(e) => decoding_failed(r, e) && new.state == old.state && new.pending == old.pending,
            Decoded::Value(_) => r matches Ok(a) && a@.len() == 1 && a@[0] is AskServerListPing && new.state
                == old.state && new.pending == Pending::ServerListPing,
            Decoded::Panic => false,
        }
    } else if raw.packet_id == 0x01 {
        match decode_outcome(raw.packet_id, raw.data@, 0x01, S01Ping::spec_read(raw.data@, 0)) {
            Decoded::Error(e) => decoding_failed(r, e) && new.state == old.state && new.pending == old.pending,
            Decoded::Value(ping) => r matches Ok(a) && a@.len() == 2 && (a@[0] matches Action::Send(p) && is_packet(
                p,
                C01Pong { payload: ping.payload },
            )) && (a@[1] matches Action::Emit(ClientEvent::Logout)) && new.state == ClientState::Disconnected
                && new.pending == old.pending,
            Decoded::Panic => false,
        }
    } else {
        r matches Err(e) && invalid_packet(e, raw.packet_id, ClientState::Status, None, "unknown packet id"@)
            && new.state == old.state && new.pending == old.pending
    }
}

/// In the login state: a login start asks the server about the player; an
/// encryption response, which must follow one and carry the verify token, has
/// the secret and the token decrypted; other packets are ignored.
pub open spec fn login_post(old: ConnectionView, new: ConnectionView, raw: RawPacket, r: Result<Vec<Action>, ListenError>) -> bool {
    &&& same_login(old, new)
    &&& new.state == old.state
    &&& if raw.packet_id == 0x00 {
        match decode_outcome(raw.packet_id, raw.data@, 0x00, S00LoginStart::spec_read(raw.data@, 0)) {
            Decoded::Error(e) => decoding_failed(r, e) && new.pending == old.pending,
            Decoded::Value(ls) => r matches Ok(a) && a@.len() == 1 && (a@[0] matches Action::AskLoginStart(n)
                && n@ == ls.name) && new.pending == Pending::LoginStart,
            Decoded::Panic => false,
        }
    } else if raw.packet_id == 0x01 {
        if old.login_uuid is None || old.login_username is None {
            r matches Err(e) && invalid_packet(
                e,
                0x01,
                ClientState::Login,
                Some("encryption response"@),
                "this packet must follow a login start packet"@,
            ) && new.pending == old.pending
        } else {
            match decode_outcome(raw.packet_id, raw.data@, 0x01, S01EncryptionResponse::spec_read(raw.data@, 0)) {
                Decoded::Error(e) => decoding_failed(r, e) && new.pending == old.pending,
                Decoded::Value(er) => match er.verify_token {
                    S01VerifyTokenView::With { verify_token } => r matches Ok(a) && a@.len() == 1 && (a@[0] matches Action::Decrypt {
                        shared_secret: s,
                        verify_token: t,
                    } && s@ == er.shared_secret && t@ == verify_token) && new.pending == Pending::Decrypt,
                    S01VerifyTokenView::Without { .. } => r matches Err(e) && invalid_packet(
                        e,
                        0x01,
                        ClientState::Login,
                        Some("encryption response"@),
                        "the verify token is menatory"@,
                    ) && new.pending == old.pending,
                },
                Decoded::Panic => false,
            }
        }
    } else {
        r matches Ok(a) && a@.len() == 0 && new.pending == old.pending
    }
}

/// In play: each known packet becomes its event, a keep-alive is recorded,
/// other packets are ignored.
pub open spec fn play_post(old: ConnectionView, new: ConnectionView, raw: RawPacket, r: Result<Vec<Action>, ListenError>) -> bool {
    &&& new == old
    &&& if raw.packet_id == 0x11 {
        match decode_outcome(raw.packet_id, raw.data@, 0x11, S11KeepAlive::spec_read(raw.data@, 0)) {
            Decoded::Error(e) => decoding_failed(r, e),
            Decoded::Value(k) => r matches Ok(a) && a@.len() == 1 && (a@[0] matches Action::KeepAliveAnswer(id) && id == k.id),
            Decoded::Panic => false,
        }
    } else if raw.packet_id == 0x04 {
        match decode_outcome(raw.packet_id, raw.data@, 0x04, S04ChatMessage::spec_read(raw.data@, 0)) {
            Decoded::Error(e) => decoding_failed(r, e),
            Decoded::Value(v) => r matches Ok(a) && a@.len() == 1 && (a@[0] matches Action::Emit(ClientEvent::ChatMessage(m)) && m@ == v),
            Decoded::Panic => false,
        }
    } else if raw.packet_id == 0x0A {
        match decode_outcome(raw.packet_id, raw.data@, 0x0A, S0AClickContainer::spec_read(raw.data@, 0)) {
            Decoded::Error(e) => decoding_failed(r, e),
            Decoded::Value(v) => r matches Ok(a) && a@.len() == 1 && (a@[0] matches Action::Emit(ClientEvent::ClickContainer(m)) && m@ == v),
            Decoded::Panic => false,
        }
    } else if raw.packet_id == 0x0C {
        match decode_outcome(raw.packet_id, raw.data@, 0x0C, S0CPluginMessage::spec_read(raw.data@, 0)) {
            Decoded::Error(e) => decoding_failed(r, e),
            Decoded::Value(v) => r matches Ok(a) && a@.len() == 1 && (a@[0] matches Action::Emit(ClientEvent::PluginMessage(m)) && m@ == v),
            Decoded::Panic => false,
        }
    } else if raw.packet_id == 0x13 {
        match decode_outcome(raw.packet_id, raw.data@, 0x13, S13SetPlayerPositionAndRotation::spec_read(raw.data@, 0)) {
            Decoded::Error(e) => decoding_failed(r, e),
            Decoded::Value(v) => r matches Ok(a) && a@.len() == 1 && (a@[0] matches Action::Emit(ClientEvent::SetPlayerPositionAndRotation(m)) && m@ == v),
            Decoded::Panic => false,
        }
    } else if raw.packet_id == 0x15 {
        match decode_outcome(raw.packet_id, raw.data@, 0x15, S15SetPlayerRotation::spec_read(raw.data@, 0)) {
            Decoded::Error(e) => decoding_failed(r, e),
            Decoded::Value(v) => r matches Ok(a) && a@.len() == 1 && (a@[0] matches Action::Emit(ClientEvent::SetPlayerRotation(m)) && m@ == v),
            Decoded::Panic => false,
        }
    } else if raw.packet_id == 0x1D {
        match decode_outcome(raw.packet_id, raw.data@, 0x1D, S1DPlayerCommand::spec_read(raw.data@, 0)) {
            Decoded::Error(e) => decoding_failed(r, e),
            Decoded::Value(v) => r matches Ok(a) && a@.len() == 1 && (a@[0] matches Action::Emit(ClientEvent::PlayerCommand(m)) && m@ == v),
            Decoded::Panic => false,
        }
    } else if raw.packet_id == 0x1B {
        match decode_outcome(raw.packet_id, raw.data@, 0x1B, S1BPlayerAbilities::spec_read(raw.data@, 0)) {
            Decoded::Error(e) => decoding_failed(r, e),
            Decoded::Value(v) => r matches Ok(a) && a@.len() == 1 && (a@[0] matches Action::Emit(ClientEvent::PlayerAbilities(m)) && m@ == v),
            Decoded::Panic => false,
        }
    } else if raw.packet_id == 0x1C {
        match decode_outcome(raw.packet_id, raw.data@, 0x1C, S1CPlayerAction::spec_read(raw.data@, 0)) {
            Decoded::Error(e) => decoding_failed(r, e),
            Decoded::Value(v) => r matches Ok(a) && a@.len() == 1 && (a@[0] matches Action::Emit(ClientEvent::PlayerAction(m)) && m@ == v),
            Decoded::Panic => false,
        }
    } else if raw.packet_id == 0x27 {
        match decode_outcome(raw.packet_id, raw.data@, 0x27, S27SetHeldItem::spec_read(raw.data@, 0)) {
            Decoded::Error(e) => decoding_failed(r, e),
            Decoded::Value(v) => r matches Ok(a) && a@.len() == 1 && (a@[0] matches Action::Emit(ClientEvent::SetHeldItem(m)) && m@ == v),
            Decoded::Panic => false,
        }
    } else if raw.packet_id == 0x2A {
        match decode_outcome(raw.packet_id, raw.data@, 0x2A, S2ASetCreativeModeSlot::spec_read(raw.data@, 0)) {
            Decoded::Error(e) => decoding_failed(r, e),
            Decoded::Value(v) => r matches Ok(a) && a@.len() == 1 && (a@[0] matches Action::Emit(ClientEvent::SetCreativeModeSlot(m)) && m@ == v),
            Decoded::Panic => false,
        }
    } else if raw.packet_id == 0x2E {
        match decode_outcome(raw.packet_id, raw.data@, 0x2E, S2ESwingArm::spec_read(raw.data@, 0)) {
            Decoded::Error(e) => decoding_failed(r, e),
            Decoded::Value(v) => r matches Ok(a) && a@.len() == 1 && (a@[0] matches Action::Emit(ClientEvent::SwingArm(m)) && m@ == v),
            Decoded::Panic => false,
        }
    } else {
        r matches Ok(a) && a@.len() == 0
    }
}

/// A handshake moves the connection to the state the client asks for:
/// next state 1 is status and 2 is login; any other number is refused and
/// leaves the state as it was. A handshake never reaches play, and it
/// neither answers nor asks anything.
pub proof fn handshake_moves_to_the_requested_state(
    old: ConnectionView,
    new: ConnectionView,
    raw: RawPacket,
    r: Result<Vec<Action>, ListenError>,
)
    requires
        handshake_post(old, new, raw, r),
    ensures
        decode_outcome(raw.packet_id, raw.data@, 0x00, S00Handshake::spec_read(raw.data@, 0)) matches Decoded::Value(h)
            ==> (h.next_state == 1 <==> (r is Ok && new.state == ClientState::Status)),
        decode_outcome(raw.packet_id, raw.data@, 0x00, S00Handshake::spec_read(raw.data@, 0)) matches Decoded::Value(h)
            ==> (h.next_state == 2 <==> (r is Ok && new.state == ClientState::Login)),
        r is Ok ==> (new.state == ClientState::Status || new.state == ClientState::Login),
        r matches Ok(a) ==> a@.len() == 0,
        r is Err ==> new.state == old.state,
        new.login_username == old.login_username && new.pending == old.pending,
{
}

/// In the status state, a ping is answered with a pong that carries the
/// ping's payload, after which the connection ends; a status request asks
/// the server for its status and waits for it; nothing else is taken.
pub proof fn status_answers_pings_and_requests(
    old: ConnectionView,
    new: ConnectionView,
    raw: RawPacket,
    r: Result<Vec<Action>, ListenError>,
)
    requires
        status_post(old, new, raw, r),
    ensures
        decode_outcome(raw.packet_id, raw.data@, 0x01, S01Ping::spec_read(raw.data@, 0)) matches Decoded::Value(ping)
            ==> (r matches Ok(a) && a@.len() == 2 && (a@[0] matches Action::Send(p) && is_packet(
            p,
            C01Pong { payload: ping.payload },
        )) && new.state == ClientState::Disconnected),
        decode_outcome(raw.packet_id, raw.data@, 0x00, S00Request::spec_read(raw.data@, 0)) matches Decoded::Value(_)
            ==> (r matches Ok(a) && a@.len() == 1 && a@[0] is AskServerListPing && new.pending
            == Pending::ServerListPing),
        raw.packet_id != 0x00 && raw.packet_id != 0x01 ==> r is Err,
        new.state != old.state ==> new.state == ClientState::Disconnected,
{
}

/// In the login state the state itself never changes; a login start asks
/// the server about the player under the name it gives; an encryption
/// response before any login start is refused.
pub proof fn login_asks_about_the_player(
    old: ConnectionView,
    new: ConnectionView,
    raw: RawPacket,
    r: Result<Vec<Action>, ListenError>,
)
    requires
        login_post(old, new, raw, r),
    ensures
        new.state == old.state,
        decode_outcome(raw.packet_id, raw.data@, 0x00, S00LoginStart::spec_read(raw.data@, 0)) matches Decoded::Value(ls)
            ==> (r matches Ok(a) && a@.len() == 1 && (a@[0] matches Action::AskLoginStart(n) && n@ == ls.name)
            && new.pending == Pending::LoginStart),
        raw.packet_id == 0x01 && (old.login_uuid is None || old.login_username is None) ==> r is Err,
        raw.packet_id == 0x01 ==> (r matches Ok(a) ==> (a@.len() == 1 && a@[0] is Decrypt && new.pending
            == Pending::Decrypt)),
{
}

/// The packets a client in play may send, by id, and the kind of event each
/// is handed to the server as.
pub open spec fn play_packet_event(id: i32, e: ClientEvent) -> bool {
    ||| id == 0x04 && e is ChatMessage
    ||| id == 0x0A && e is ClickContainer
    ||| id == 0x0C && e is PluginMessage
    ||| id == 0x13 && e is SetPlayerPositionAndRotation
    ||| id == 0x15 && e is SetPlayerRotation
    ||| id == 0x1B && e is PlayerAbilities
    ||| id == 0x1C && e is PlayerAction
    ||| id == 0x1D && e is PlayerCommand
    ||| id == 0x27 && e is SetHeldItem
    ||| id == 0x2A && e is SetCreativeModeSlot
    ||| id == 0x2E && e is SwingArm
}

/// The ids of the play packets that become events.
pub open spec fn is_play_event_id(id: i32) -> bool {
    id == 0x04 || id == 0x0A || id == 0x0C || id == 0x13 || id == 0x15 || id == 0x1B || id == 0x1C
        || id == 0x1D || id == 0x27 || id == 0x2A || id == 0x2E
}

/// The single event in a list of actions, where the list is exactly one
/// emitted event.
pub open spec fn single_event(r: Result<Vec<Action>, ListenError>) -> Option<ClientEvent> {
    match r {
        Ok(a) => if a@.len() == 1 {
            match a@[0] {
                Action::Emit(e) => Some(e),
                _ => None,
            }
        } else {
            None
        },
        Err(_) => None,
    }
}

/// In play, a packet with one of the event ids either fails to decode or is
/// handed to the server as exactly one event, of the kind its id stands
/// for; a keep-alive is answered, and any other packet does nothing. The
/// state does not change.
pub proof fn play_packets_become_their_events(
    old: ConnectionView,
    new: ConnectionView,
    raw: RawPacket,
    r: Result<Vec<Action>, ListenError>,
)
    requires
        play_post(old, new, raw, r),
    ensures
        new == old,
        is_play_event_id(raw.packet_id) && !(r is Err) ==> (single_event(r) matches Some(e)
            && play_packet_event(raw.packet_id, e)),
        raw.packet_id == 0x11 && !(r is Err) ==> (r matches Ok(a) && a@.len() == 1
            && a@[0] is KeepAliveAnswer),
        !is_play_event_id(raw.packet_id) && raw.packet_id != 0x11 ==> (r matches Ok(a) && a@.len() == 0),
        r is Err ==> r matches Err(ListenError::DecodingError(_)),
{
}

/// In play, a packet with an event id whose data decode in full is never an
/// error: its decoded value is the one event emitted.
pub proof fn decoded_play_packets_are_emitted(
    old: ConnectionView,
    new: ConnectionView,
    raw: RawPacket,
    r: Result<Vec<Action>, ListenError>,
)
    requires
        play_post(old, new, raw, r),
    ensures
        decode_outcome(raw.packet_id, raw.data@, 0x04, S04ChatMessage::spec_read(raw.data@, 0)) matches Decoded::Value(v)
            ==> (single_event(r) matches Some(ClientEvent::ChatMessage(m)) && m@ == v),
        decode_outcome(raw.packet_id, raw.data@, 0x0A, S0AClickContainer::spec_read(raw.data@, 0)) matches Decoded::Value(v)
            ==> (single_event(r) matches Some(ClientEvent::ClickContainer(m)) && m@ == v),
        decode_outcome(raw.packet_id, raw.data@, 0x0C, S0CPluginMessage::spec_read(raw.data@, 0)) matches Decoded::Value(v)
            ==> (single_event(r) matches Some(ClientEvent::PluginMessage(m)) && m@ == v),
        decode_outcome(raw.packet_id, raw.data@, 0x13, S13SetPlayerPositionAndRotation::spec_read(raw.data@, 0)) matches Decoded::Value(v)
            ==> (single_event(r) matches Some(ClientEvent::SetPlayerPositionAndRotation(m)) && m@ == v),
        decode_outcome(raw.packet_id, raw.data@, 0x15, S15SetPlayerRotation::spec_read(raw.data@, 0)) matches Decoded::Value(v)
            ==> (single_event(r) matches Some(ClientEvent::SetPlayerRotation(m)) && m@ == v),
        decode_outcome(raw.packet_id, raw.data@, 0x1B, S1BPlayerAbilities::spec_read(raw.data@, 0)) matches Decoded::Value(v)
            ==> (single_event(r) matches Some(ClientEvent::PlayerAbilities(m)) && m@ == v),
        decode_outcome(raw.packet_id, raw.data@, 0x1C, S1CPlayerAction::spec_read(raw.data@, 0)) matches Decoded::Value(v)
            ==> (single_event(r) matches Some(ClientEvent::PlayerAction(m)) && m@ == v),
        decode_outcome(raw.packet_id, raw.data@, 0x1D, S1DPlayerCommand::spec_read(raw.data@, 0)) matches Decoded::Value(v)
            ==> (single_event(r) matches Some(ClientEvent::PlayerCommand(m)) && m@ == v),
        decode_outcome(raw.packet_id, raw.data@, 0x27, S27SetHeldItem::spec_read(raw.data@, 0)) matches Decoded::Value(v)
            ==> (single_event(r) matches Some(ClientEvent::SetHeldItem(m)) && m@ == v),
        decode_outcome(raw.packet_id, raw.data@, 0x2A, S2ASetCreativeModeSlot::spec_read(raw.data@, 0)) matches Decoded::Value(v)
            ==> (single_event(r) matches Some(ClientEvent::SetCreativeModeSlot(m)) && m@ == v),
        decode_outcome(raw.packet_id, raw.data@, 0x2E, S2ESwingArm::spec_read(raw.data@, 0)) matches Decoded::Value(v)
            ==> (single_event(r) matches Some(ClientEvent::SwingArm(m)) && m@ == v),
{
}

fn invalid(packet_id: i32, state: ClientState, name: Option<&str>, message: &str) -> (e: ListenError)
    ensures
        invalid_packet(e, packet_id, state, match name {
            Some(n) => Some(n@),
            None => None,
        }, message@),
{
    ListenError::InvalidPacket {
        packet_id,
        state,
        packet_name: match name {
            Some(n) => Some(String::from_str(n)),
            None => None,
        },
        message: String::from_str(message),
    }
}

impl Connection {
    /// A connection that has not shaken hands yet. `verify_token` and
    /// `public_key` go into the encryption request.
    pub fn new(verify_token: Vec<u8>, public_key: Vec<u8>) -> (c: Self)
        ensures
            c@.state == ClientState::Handshaking,
            c@.pending == Pending::Nothing,
            c@.login_uuid is None,
            c@.login_username is None,
            c@.login_compress == false,
            c@.verify_token == verify_token@,
            c@.public_key == public_key@,
    {
        Connection {
            state: ClientState::Handshaking,
            pending: Pending::Nothing,
            login_uuid: None,
            login_username: None,
            login_compress: false,
            verify_token,
            public_key,
        }
    }

    /// A connection that has not shaken hands yet, with a verify token drawn
    /// at random; `public_key` goes into the encryption request.
    pub fn start(public_key: Vec<u8>) -> (c: Self)
        ensures
            c@.state == ClientState::Handshaking,
            c@.pending == Pending::Nothing,
            c@.login_uuid is None,
            c@.login_username is None,
            c@.login_compress == false,
            c@.verify_token.len() == 4,
            c@.public_key == public_key@,
    {
        Connection::new(super::crypto::random_token(), public_key)
    }

    pub fn state(&self) -> (s: ClientState)
        ensures
            s == self@.state,
    {
        self.state
    }

    pub fn pending(&self) -> (p: Pending)
        ensures
            p == self@.pending,
    {
        self.pending
    }

    /// Marks the connection as closed.
    pub fn disconnect(&mut self)
        ensures
            final(self)@ == (ConnectionView { state: ClientState::Disconnected, ..old(self)@ }),
    {
        self.state = ClientState::Disconnected;
    }

    pub fn on_handshake(&mut self, raw: RawPacket) -> (r: Result<Vec<Action>, ListenError>)
        requires
            old(self)@.state == ClientState::Handshaking,
            !packet_panics(ClientState::Handshaking, raw.packet_id, raw.data@),
        ensures
            handshake_post(old(self)@, final(self)@, raw, r),
    {
        proof {
            reveal_strlit("Handshake");
            reveal_strlit("invalid next state");
        }
        let handshake = match S00Handshake::decode(raw) {
            Ok(h) => h,
            Err(e) => return Err(ListenError::DecodingError(e)),
        };
        if handshake.next_state == 1 {
            self.state = ClientState::Status;
            Ok(Vec::new())
        } else if handshake.next_state == 2 {
            self.state = ClientState::Login;
            Ok(Vec::new())
        } else {
            Err(invalid(0x00, ClientState::Handshaking, Some("Handshake"), "invalid next state"))
        }
    }

    pub fn on_status(&mut self, raw: RawPacket) -> (r: Result<Vec<Action>, ListenError>)
        requires
            old(self)@.state == ClientState::Status,
        ensures
            status_post(old(self)@, final(self)@, raw, r),
    {
        proof {
            reveal_strlit("unknown packet id");
        }
        if raw.packet_id == 0x00 {
            match S00Request::decode(raw) {
                Ok(_) => {
                    self.pending = Pending::ServerListPing;
                    let mut a = Vec::new();
                    a.push(Action::AskServerListPing);
                    Ok(a)
                },
                Err(e) => Err(ListenError::DecodingError(e)),
            }
        } else if raw.packet_id == 0x01 {
            match S01Ping::decode(raw) {
                Ok(ping) => {
                    self.state = ClientState::Disconnected;
                    let mut a = Vec::new();
                    a.push(Action::Send(C01Pong { payload: ping.payload }.to_rawpacket()));
                    a.push(Action::Emit(ClientEvent::Logout));
                    Ok(a)
                },
                Err(e) => Err(ListenError::DecodingError(e)),
            }
        } else {
            Err(invalid(raw.packet_id, ClientState::Status, None, "unknown packet id"))
        }
    }

    pub fn on_login(&mut self, raw: RawPacket) -> (r: Result<Vec<Action>, ListenError>)
        requires
            old(self)@.state == ClientState::Login,
            !packet_panics(ClientState::Login, raw.packet_id, raw.data@),
        ensures
            login_post(old(self)@, final(self)@, raw, r),
    {
        proof {
            reveal_strlit("encryption response");
            reveal_strlit("this packet must follow a login start packet");
            reveal_strlit("the verify token is menatory");
        }
        if raw.packet_id == 0x00 {
            match S00LoginStart::decode(raw) {
                Ok(login_start) => {
                    self.pending = Pending::LoginStart;
                    let mut a = Vec::new();
                    a.push(Action::AskLoginStart(login_start.name));
                    Ok(a)
                },
                Err(e) => Err(ListenError::DecodingError(e)),
            }
        } else if raw.packet_id == 0x01 {
            if self.login_uuid.is_none() || self.login_username.is_none() {
                return Err(invalid(
                    0x01,
                    ClientState::Login,
                    Some("encryption response"),
                    "this packet must follow a login start packet",
                ));
            }
            match S01EncryptionResponse::decode(raw) {
                Ok(response) => match response.verify_token {
                    S01VerifyToken::With { verify_token } => {
                        self.pending = Pending::Decrypt;
                        let mut a = Vec::new();
                        a.push(Action::Decrypt { shared_secret: response.shared_secret, verify_token });
                        Ok(a)
                    },
                    S01VerifyToken::Without { .. } => Err(invalid(
                        0x01,
                        ClientState::Login,
                        Some("encryption response"),
                        "the verify token is menatory",
                    )),
                },
                Err(e) => Err(ListenError::DecodingError(e)),
            }
        } else {
            Ok(Vec::new())
        }
    }

    pub fn on_play(&self, raw: RawPacket) -> (r: Result<Vec<Action>, ListenError>)
        requires
            self@.state == ClientState::Play,
            !packet_panics(ClientState::Play, raw.packet_id, raw.data@),
        ensures
            play_post(self@, self@, raw, r),
    {
        let mut a = Vec::new();
        if raw.packet_id == 0x11 {
            match S11KeepAlive::decode(raw) {
                Ok(k) => a.push(Action::KeepAliveAnswer(k.id)),
                Err(e) => return Err(ListenError::DecodingError(e)),
            }
        } else if raw.packet_id == 0x04 {
            match S04ChatMessage::decode(raw) {
                Ok(m) => a.push(Action::Emit(ClientEvent::ChatMessage(m))),
                Err(e) => return Err(ListenError::DecodingError(e)),
            }
        } else if raw.packet_id == 0x0A {
            match S0AClickContainer::decode(raw) {
                Ok(m) => a.push(Action::Emit(ClientEvent::ClickContainer(m))),
                Err(e) => return Err(ListenError::DecodingError(e)),
            }
        } else if raw.packet_id == 0x0C {
            match S0CPluginMessage::decode(raw) {
                Ok(m) => a.push(Action::Emit(ClientEvent::PluginMessage(m))),
                Err(e) => return Err(ListenError::DecodingError(e)),
            }
        } else if raw.packet_id == 0x13 {
            match S13SetPlayerPositionAndRotation::decode(raw) {
                Ok(m) => a.push(Action::Emit(ClientEvent::SetPlayerPositionAndRotation(m))),
                Err(e) => return Err(ListenError::DecodingError(e)),
            }
        } else if raw.packet_id == 0x15 {
            match S15SetPlayerRotation::decode(raw) {
                Ok(m) => a.push(Action::Emit(ClientEvent::SetPlayerRotation(m))),
                Err(e) => return Err(ListenError::DecodingError(e)),
            }
        } else if raw.packet_id == 0x1D {
            match S1DPlayerCommand::decode(raw) {
                Ok(m) => a.push(Action::Emit(ClientEvent::PlayerCommand(m))),
                Err(e) => return Err(ListenError::DecodingError(e)),
            }
        } else if raw.packet_id == 0x1B {
            match S1BPlayerAbilities::decode(raw) {
                Ok(m) => a.push(Action::Emit(ClientEvent::PlayerAbilities(m))),
                Err(e) => return Err(ListenError::DecodingError(e)),
            }
        } else if raw.packet_id == 0x1C {
            match S1CPlayerAction::decode(raw) {
                Ok(m) => a.push(Action::Emit(ClientEvent::PlayerAction(m))),
                Err(e) => return Err(ListenError::DecodingError(e)),
            }
        } else if raw.packet_id == 0x27 {
            match S27SetHeldItem::decode(raw) {
                Ok(m) => a.push(Action::Emit(ClientEvent::SetHeldItem(m))),
                Err(e) => return Err(ListenError::DecodingError(e)),
            }
        } else if raw.packet_id == 0x2A {
            match S2ASetCreativeModeSlot::decode(raw) {
                Ok(m) => a.push(Action::Emit(ClientEvent::SetCreativeModeSlot(m))),
                Err(e) => return Err(ListenError::DecodingError(e)),
            }
        } else if raw.packet_id == 0x2E {
            match S2ESwingArm::decode(raw) {
                Ok(m) => a.push(Action::Emit(ClientEvent::SwingArm(m))),
                Err(e) => return Err(ListenError::DecodingError(e)),
            }
        }
        Ok(a)
    }

    /// Decides what the packet `raw` leads to in the current state.
    pub fn on_packet(&mut self, raw: RawPacket) -> (r: Result<Vec<Action>, ListenError>)
        requires
            old(self)@.pending == Pending::Nothing,
            !packet_panics(old(self)@.state, raw.packet_id, raw.data@),
        ensures
            match old(self)@.state {
                ClientState::Handshaking => handshake_post(old(self)@, final(self)@, raw, r),
                ClientState::Status => status_post(old(self)@, final(self)@, raw, r),
                ClientState::Login => login_post(old(self)@, final(self)@, raw, r),
                ClientState::Play => play_post(old(self)@, final(self)@, raw, r),
                ClientState::Disconnected => final(self)@ == old(self)@ && (r matches Ok(a) && a@.len() == 0),
            },
    {
        match self.state {
            ClientState::Handshaking => self.on_handshake(raw),
            ClientState::Status => self.on_status(raw),
            ClientState::Login => self.on_login(raw),
            ClientState::Play => self.on_play(raw),
            ClientState::Disconnected => Ok(Vec::new()),
        }
    }

    /// Whether decoding `raw` in the current state panics; `on_packet` takes
    /// only packets on which it does not.
    pub fn would_panic(&self, raw: &RawPacket) -> (b: bool)
        ensures
            b == packet_panics(self@.state, raw.packet_id, raw.data@),
    {
        let id = raw.packet_id;
        match self.state {
            ClientState::Handshaking => S00Handshake::decode_checked(copy_packet(raw)).is_none(),
            ClientState::Login => {
                (id == 0x00 && S00LoginStart::decode_checked(copy_packet(raw)).is_none()) || (id == 0x01
                    && S01EncryptionResponse::decode_checked(copy_packet(raw)).is_none())
            },
            ClientState::Play => {
                if id == 0x06 {
                    true
                } else if id == 0x04 {
                    S04ChatMessage::decode_checked(copy_packet(raw)).is_none()
                } else if id == 0x0A {
                    S0AClickContainer::decode_checked(copy_packet(raw)).is_none()
                } else if id == 0x0C {
                    S0CPluginMessage::decode_checked(copy_packet(raw)).is_none()
                } else if id == 0x13 {
                    S13SetPlayerPositionAndRotation::decode_checked(copy_packet(raw)).is_none()
                } else if id == 0x15 {
                    S15SetPlayerRotation::decode_checked(copy_packet(raw)).is_none()
                } else if id == 0x1D {
                    S1DPlayerCommand::decode_checked(copy_packet(raw)).is_none()
                } else if id == 0x1B {
                    S1BPlayerAbilities::decode_checked(copy_packet(raw)).is_none()
                } else if id == 0x1C {
                    S1CPlayerAction::decode_checked(copy_packet(raw)).is_none()
                } else if id == 0x27 {
                    S27SetHeldItem::decode_checked(copy_packet(raw)).is_none()
                } else if id == 0x2A {
                    S2ASetCreativeModeSlot::decode_checked(copy_packet(raw)).is_none()
                } else if id == 0x2E {
                    S2ESwingArm::decode_checked(copy_packet(raw)).is_none()
                } else {
                    false
                }
            },
            _ => false,
        }
    }

    /// The server's status, as JSON text, is sent back.
    pub fn on_status_response(&mut self, json_response: String) -> (a: Vec<Action>)
        requires
            old(self)@.pending == Pending::ServerListPing,
        ensures
            final(self)@ == (ConnectionView { pending: Pending::Nothing, ..old(self)@ }),
            a@.len() == 1,
            a@[0] matches Action::Send(p) && is_packet(p, C00StatusResponse { json_response }),
    {
        self.pending = Pending::Nothing;
        let mut a = Vec::new();
        a.push(Action::Send(C00StatusResponse { json_response }.to_rawpacket()));
        a
    }

    /// Compression, if asked for, then the login success.
    fn finish_login(compress: bool, uuid: u128, username: String, a: &mut Vec<Action>)
        ensures
            final(a)@.len() >= old(a)@.len(),
            final(a)@.take(old(a)@.len() as int) == old(a)@,
            login_done(final(a)@.skip(old(a)@.len() as int), compress, uuid, username@),
    {
        let ghost start = a@;
        if compress {
            let packet = C03SetCompression { threshold: LOGIN_COMPRESSION }.to_rawpacket();
            a.push(Action::EnableCompression(packet, PacketCompression::new(LOGIN_COMPRESSION)));
        }
        let success = C02LoginSuccess { uuid, username };
        let p = success.to_rawpacket();
        a.push(Action::Send(p));
        proof {
            let k: int = if compress { 1 } else { 0 };
            assert(a@.take(start.len() as int) =~= start);
            assert(a@.skip(start.len() as int).len() == k + 1);
            assert(a@.skip(start.len() as int)[k] == a@[start.len() + k]);
            if compress {
                assert(a@.skip(start.len() as int)[0] == a@[start.len() as int]);
            }
        }
    }

    /// The server's answer to a login start.
    pub fn on_login_start_result(&mut self, result: LoginStartResult) -> (a: Vec<Action>)
        requires
            old(self)@.pending == Pending::LoginStart,
        ensures
            final(self)@.pending == Pending::Nothing,
            final(self)@.verify_token == old(self)@.verify_token,
            final(self)@.public_key == old(self)@.public_key,
            match result {
                LoginStartResult::Accept { uuid, username, encrypt, compress } => {
                    &&& final(self)@.login_uuid == Some(uuid)
                    &&& final(self)@.login_username == Some(username@)
                    &&& final(self)@.login_compress == compress
                    &&& if encrypt {
                        &&& final(self)@.state == old(self)@.state
                        &&& a@.len() == 1
                        &&& a@[0] matches Action::Send(p) && p.packet_id == 0x01 && p.data@
                            == encryption_request_bytes(old(self)@.public_key, old(self)@.verify_token)
                    } else {
                        &&& final(self)@.state == ClientState::Play
                        &&& a@.len() >= 2
                        &&& login_done(a@.take(a@.len() - 2), compress, uuid, username@)
                        &&& a@[a@.len() - 2] matches Action::Emit(ClientEvent::LoggedIn)
                        &&& a@[a@.len() - 1] is StartKeepAlive
                    }
                },
                LoginStartResult::Disconnect { reason } => {
                    &&& final(self)@.state == ClientState::Disconnected
                    &&& final(self)@.login_uuid == old(self)@.login_uuid
                    &&& final(self)@.login_username == old(self)@.login_username
                    &&& final(self)@.login_compress == old(self)@.login_compress
                    &&& a@.len() == 2
                    &&& a@[0] matches Action::Send(p) && p.packet_id == 0x00 && p.data@
                        == crate::data_types::encoder::string::spec_encode(text_component(reason@))
                    &&& a@[1] matches Action::Emit(ClientEvent::Logout)
                },
            },
    {
        self.pending = Pending::Nothing;
        let mut a = Vec::new();
        match result {
            LoginStartResult::Accept { uuid, username, encrypt, compress } => {
                self.login_compress = compress;
                self.login_uuid = Some(uuid);
                self.login_username = Some(username.clone());
                if encrypt {
                    let request = C01EncryptionRequest {
                        server_id: String::from_str(""),
                        public_key: self.public_key.clone(),
                        verify_token: self.verify_token.clone(),
                    };
                    proof {
                        reveal_strlit("");
                    }
                    a.push(Action::Send(request.to_rawpacket()));
                } else {
                    Self::finish_login(compress, uuid, username, &mut a);
                    self.state = ClientState::Play;
                    let ghost done = a@;
                    a.push(Action::Emit(ClientEvent::LoggedIn));
                    a.push(Action::StartKeepAlive);
                    proof {
                        assert(a@.take(a@.len() - 2) =~= done);
                        assert(done.skip(0) =~= done);
                    }
                }
            },
            LoginStartResult::Disconnect { reason } => {
                let mut text = String::from_str("{\"text\":");
                text.append(json_string(reason.as_str()).as_str());
                text.append("}");
                proof {
                    reveal_strlit("{\"text\":");
                    reveal_strlit("}");
                }
                a.push(Action::Send(C00LoginDisconnect { reason: text }.to_rawpacket()));
                a.push(Action::Emit(ClientEvent::Logout));
                self.state = ClientState::Disconnected;
            },
        }
        a
    }

    /// The decrypted shared secret (16 bytes) and verify token (4 bytes): the
    /// token must be the one this connection sent; then encryption, the
    /// login's compression, the login success, play, keep-alives and the
    /// logged-in event follow.
    pub fn on_decrypted(&mut self, shared_key: Vec<u8>, token: Vec<u8>) -> (r: Result<Vec<Action>, ListenError>)
        requires
            old(self)@.pending == Pending::Decrypt,
            old(self)@.login_uuid is Some,
            old(self)@.login_username is Some,
            shared_key@.len() == 16,
            token@.len() == 4,
        ensures
            final(self)@.pending == Pending::Nothing,
            same_login(old(self)@, final(self)@),
            token@ != old(self)@.verify_token ==> final(self)@.state == old(self)@.state && (r matches Err(e)
                && invalid_packet(
                e,
                0x01,
                ClientState::Login,
                Some("encryption response"@),
                "given verify token doesn't match"@,
            )),
            token@ == old(self)@.verify_token ==> final(self)@.state == ClientState::Play && (r matches Ok(a) && a@.len()
                >= 3 && (a@[0] matches Action::EnableEncryption(k) && k@ == shared_key@) && login_done(
                a@.subrange(1, a@.len() - 2),
                old(self)@.login_compress,
                old(self)@.login_uuid->0,
                old(self)@.login_username->0,
            ) && a@[a@.len() - 2] is StartKeepAlive && (a@[a@.len() - 1] matches Action::Emit(
                ClientEvent::LoggedIn,
            ))),
    {
        self.pending = Pending::Nothing;
        proof {
            reveal_strlit("encryption response");
            reveal_strlit("given verify token doesn't match");
        }
        if !bytes_equal(token.as_slice(), self.verify_token.as_slice()) {
            return Err(invalid(0x01, ClientState::Login, Some("encryption response"), "given verify token doesn't match"));
        }
        let uuid = match self.login_uuid {
            Some(u) => u,
            None => 0,
        };
        let username = match &self.login_username {
            Some(n) => n.clone(),
            None => String::new(),
        };
        let mut a = Vec::new();
        a.push(Action::EnableEncryption(shared_key));
        let ghost first = a@;
        Self::finish_login(self.login_compress, uuid, username, &mut a);
        let ghost done = a@;
        self.state = ClientState::Play;
        a.push(Action::StartKeepAlive);
        a.push(Action::Emit(ClientEvent::LoggedIn));
        proof {
            assert(a@.subrange(1, a@.len() - 2) =~= done.skip(1));
            assert(a@[0] == done[0]);
            assert(done.take(1)[0] == first[0]);
        }
        Ok(a)
    }
}

/// A packet with the same id and data.
fn copy_packet(raw: &RawPacket) -> (p: RawPacket)
    ensures
        p.packet_id == raw.packet_id,
        p.data@ == raw.data@,
{
    RawPacket { packet_id: raw.packet_id, data: vstd::slice::slice_to_vec(raw.data.as_slice()) }
}

/// Whether two byte strings are equal.
fn bytes_equal(a: &[u8], b: &[u8]) -> (r: bool)
    ensures
        r == (a@ == b@),
{
    if a.len() != b.len() {
        return false;
    }
    let mut i: usize = 0;
    while i < a.len()
        invariant
            a@.len() == b@.len(),
            i <= a.len(),
            forall|j: int| 0 <= j < i ==> a@[j] == b@[j],
        decreases a.len() - i,
    {
        if a[i] != b[i] {
            return false;
        }
        i = i + 1;
    }
    assert(a@ =~= b@);
    true
}

} // verus!
