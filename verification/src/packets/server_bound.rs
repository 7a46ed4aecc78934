//! Packets that the client sends to the server, and how they are read.
use crate::data_types::encoder::{
    outcome_is, parsed_then, read_or_panic, read_bool_at, read_i16_at, read_i32_at, read_i64_at, read_i8_at, read_len_bytes_at,
    read_u16_at, read_u32_at, read_u64_at, read_u8_at, read_varint_at, PacketDecoder, Parsed,
};
use crate::data_types::encoder::string::read_string_at;
use crate::data_types::identifier::identifier_text;
use crate::data_types::slot::{read_slot_at, SlotView};
use crate::data_types::{Identifier, Position, Slot};
use crate::packets::RawPacket;
use crate::text::{digits, push_digits, push_signed_decimal, signed_decimal};
use crate::{DecodingError, DecodingErrorView, DecodingResult};
use vstd::prelude::*;
use vstd::string::StringExecFns;

verus! {

broadcast use vstd::string::group_string_axioms;

/// How errors name a packet: `packet 0x` and its id in hexadecimal.
pub open spec fn packet_label(id: i32) -> Seq<char> {
    "packet 0x"@ + digits((id as u32) as nat, 16)
}

fn label_text(id: i32) -> (s: String)
    ensures
        s@ == packet_label(id),
{
    let mut s = String::from_str("packet 0x");
    push_digits((id as u32) as u64, 16, &mut s);
    s
}

/// The error for a packet handed to the decoder of another id.
pub open spec fn wrong_id_error(id: i32) -> DecodingErrorView {
    DecodingErrorView::ParseError { data_type: packet_label(id), message: "invalid packet id"@ }
}

/// The error for bytes left over after decoding.
pub open spec fn leftover_error(id: i32, remaining: nat) -> DecodingErrorView {
    DecodingErrorView::ParseError {
        data_type: packet_label(id),
        message: "not all bytes have been read after decoding ("@ + digits(remaining, 10)
            + " remaining)"@,
    }
}

/// What decoding a whole packet gives.
pub enum Decoded<V> {
    Value(V),
    Error(DecodingErrorView),
    /// Input the decoder cannot take: it panics on it.
    Panic,
}

/// Decoding a whole packet: the id must match, then the fields are read from
/// the start; bytes left over are an error, whatever the reading gave.
pub open spec fn decode_outcome<V>(packet_id: i32, data: Seq<u8>, id: i32, read: Parsed<V>) -> Decoded<V> {
    if packet_id != id {
        Decoded::Error(wrong_id_error(id))
    } else {
        match read {
            Parsed::Value { value, pos } => if pos < data.len() {
                Decoded::Error(leftover_error(id, (data.len() - pos) as nat))
            } else {
                Decoded::Value(value)
            },
            Parsed::Failed { error, pos } => if pos < data.len() {
                Decoded::Error(leftover_error(id, (data.len() - pos) as nat))
            } else {
                Decoded::Error(error)
            },
            Parsed::Panic => Decoded::Panic,
        }
    }
}

/// A result agrees with what decoding gives.
pub open spec fn decoded_as<T: View>(
    r: DecodingResult<T>,
    packet_id: i32,
    data: Seq<u8>,
    id: i32,
    read: Parsed<T::V>,
) -> bool {
    match decode_outcome(packet_id, data, id, read) {
        Decoded::Value(v) => r matches Ok(x) && x@ == v,
        Decoded::Error(e) => r matches Err(x) && x@ == e,
        Decoded::Panic => false,
    }
}

/// A packet that the server reads.
pub trait ServerBoundPacket: Sized + View {
    spec fn spec_packet_id() -> i32;

    /// What reading the packet's fields at `pos` gives.
    spec fn spec_read(s: Seq<u8>, pos: nat) -> Parsed<Self::V>;

    fn packet_id() -> (id: i32)
        ensures
            id == Self::spec_packet_id(),
    ;

    /// Reads the packet's fields; on input where reading panics it marks the
    /// decoder instead.
    fn run_decoder(decoder: &mut PacketDecoder) -> (r: DecodingResult<Self>)
        ensures
            read_or_panic(r, *old(decoder), *final(decoder), Self::spec_read(old(decoder).bytes(), old(decoder).pos())),
    ;

    /// Decodes a whole packet of this kind: `None` exactly where decoding
    /// panics.
    fn decode_checked(raw_packet: RawPacket) -> (r: Option<DecodingResult<Self>>)
        ensures
            r is None <==> raw_packet.packet_id == Self::spec_packet_id() && Self::spec_read(raw_packet.data@, 0) is Panic,
            r matches Some(res) ==> decoded_as(res, raw_packet.packet_id, raw_packet.data@,
                Self::spec_packet_id(), Self::spec_read(raw_packet.data@, 0)),
    {
        let id = Self::packet_id();
        if raw_packet.packet_id != id {
            proof {
                reveal_strlit("invalid packet id");
            }
            return Some(Err(DecodingError::ParseError {
                data_type: label_text(id),
                message: String::from_str("invalid packet id"),
            }));
        }
        let mut packet_decoder = PacketDecoder::from_bytes(raw_packet.data);
        let result = Self::run_decoder(&mut packet_decoder);
        if packet_decoder.has_panicked() {
            return None;
        }
        let remaining = packet_decoder.remaining();
        if remaining > 0 {
            let mut message = String::from_str("not all bytes have been read after decoding (");
            push_digits(remaining as u64, 10, &mut message);
            message.append(" remaining)");
            proof {
                reveal_strlit("not all bytes have been read after decoding (");
                reveal_strlit(" remaining)");
            }
            return Some(Err(DecodingError::ParseError { data_type: label_text(id), message }));
        }
        Some(result)
    }

    /// Decodes a whole packet of this kind.
    fn decode(raw_packet: RawPacket) -> (r: DecodingResult<Self>)
        requires
            raw_packet.packet_id != Self::spec_packet_id() || !(Self::spec_read(raw_packet.data@, 0) is Panic),
        ensures
            decoded_as(r, raw_packet.packet_id, raw_packet.data@, Self::spec_packet_id(),
                Self::spec_read(raw_packet.data@, 0)),
    {
        match Self::decode_checked(raw_packet) {
            Some(r) => r,
            None => {
                assert(false);
                Err(DecodingError::NotEnoughBytes)
            },
        }
    }
}

// ---------------------------------------------------------------- handshake

/// Switches the connection to the status or the login state.
#[derive(Debug)]
pub struct S00Handshake {
    /// The protocol the client expects.
    pub protocol_version: i32,
    /// The host name or address that was used to connect.
    pub server_addr: String,
    pub server_port: u16,
    /// 1 for status, 2 for login.
    pub next_state: i32,
}

pub struct S00HandshakeView {
    pub protocol_version: i32,
    pub server_addr: Seq<char>,
    pub server_port: u16,
    pub next_state: i32,
}

impl View for S00Handshake {
    type V = S00HandshakeView;

    open spec fn view(&self) -> S00HandshakeView {
        S00HandshakeView {
            protocol_version: self.protocol_version,
            server_addr: self.server_addr@,
            server_port: self.server_port,
            next_state: self.next_state,
        }
    }
}

impl ServerBoundPacket for S00Handshake {
    open spec fn spec_packet_id() -> i32 {
        0x00
    }

    open spec fn spec_read(s: Seq<u8>, pos: nat) -> Parsed<S00HandshakeView> {
        parsed_then(read_varint_at(s, pos), |protocol_version: i32, p: nat|
        parsed_then(read_string_at(s, p), |server_addr: Seq<char>, p: nat|
        parsed_then(read_u16_at(s, p), |server_port: u16, p: nat|
        parsed_then(read_varint_at(s, p), |next_state: i32, p: nat|
        Parsed::Value {
            value: S00HandshakeView { protocol_version, server_addr, server_port, next_state },
            pos: p,
        }))))
    }

    fn packet_id() -> (id: i32) {
        0x00
    }

    fn run_decoder(decoder: &mut PacketDecoder) -> (r: DecodingResult<Self>) {
        let protocol_version = match decoder.read_varint() {
            Ok(v) => v,
            Err(e) => return Err(e),
        };
        let server_addr = match decoder.read_string() {
            Ok(v) => v,
            Err(e) => return Err(e),
        };
        let server_port = match decoder.read_u16() {
            Ok(v) => v,
            Err(e) => return Err(e),
        };
        let next_state = match decoder.read_varint() {
            Ok(v) => v,
            Err(e) => return Err(e),
        };
        Ok(S00Handshake { protocol_version, server_addr, server_port, next_state })
    }
}


/// The error a decoder gives for a field whose number names nothing.
pub open spec fn field_error(packet: Seq<char>, before: Seq<char>, received: int, after: Seq<char>) -> DecodingErrorView {
    DecodingErrorView::ParseError { data_type: packet, message: before + signed_decimal(received) + after }
}

fn field_error_text(packet: &str, before: &str, received: i64, after: &str) -> (e: DecodingError)
    ensures
        e@ == field_error(packet@, before@, received as int, after@),
{
    let mut message = String::from_str(before);
    push_signed_decimal(received, &mut message);
    message.append(after);
    DecodingError::ParseError { data_type: String::from_str(packet), message }
}

// ------------------------------------------------------------------- status

/// Asks for the server's status.
#[derive(Clone, Copy, Debug)]
pub struct S00Request;

impl View for S00Request {
    type V = S00Request;

    open spec fn view(&self) -> S00Request {
        *self
    }
}

impl ServerBoundPacket for S00Request {
    open spec fn spec_packet_id() -> i32 {
        0x00
    }

    open spec fn spec_read(s: Seq<u8>, pos: nat) -> Parsed<S00Request> {
        Parsed::Value { value: S00Request, pos }
    }

    fn packet_id() -> (id: i32) {
        0x00
    }

    fn run_decoder(decoder: &mut PacketDecoder) -> (r: DecodingResult<Self>) {
        Ok(S00Request)
    }
}

/// To be answered with a pong carrying the same payload.
#[derive(Clone, Copy, Debug)]
pub struct S01Ping {
    pub payload: i64,
}

impl View for S01Ping {
    type V = S01Ping;

    open spec fn view(&self) -> S01Ping {
        *self
    }
}

impl ServerBoundPacket for S01Ping {
    open spec fn spec_packet_id() -> i32 {
        0x01
    }

    open spec fn spec_read(s: Seq<u8>, pos: nat) -> Parsed<S01Ping> {
        parsed_then(read_i64_at(s, pos), |payload: i64, p: nat|
        Parsed::Value { value: S01Ping { payload }, pos: p })
    }

    fn packet_id() -> (id: i32) {
        0x01
    }

    fn run_decoder(decoder: &mut PacketDecoder) -> (r: DecodingResult<Self>) {
        let payload = match decoder.read_i64() {
            Ok(v) => v,
            Err(e) => return Err(e),
        };
        Ok(S01Ping { payload })
    }
}

// -------------------------------------------------------------------- login

/// The key data a client may sign its login with.
#[derive(Debug)]
pub struct S00SigData {
    /// When the key expires.
    pub timestamp: i64,
    pub public_key: Vec<u8>,
    pub signature: Vec<u8>,
}

pub struct S00SigDataView {
    pub timestamp: i64,
    pub public_key: Seq<u8>,
    pub signature: Seq<u8>,
}

impl View for S00SigData {
    type V = S00SigDataView;

    open spec fn view(&self) -> S00SigDataView {
        S00SigDataView { timestamp: self.timestamp, public_key: self.public_key@, signature: self.signature@ }
    }
}

/// Starts the login.
#[derive(Debug)]
pub struct S00LoginStart {
    pub name: String,
    pub sig_data: Option<S00SigData>,
}

pub struct S00LoginStartView {
    pub name: Seq<char>,
    pub sig_data: Option<S00SigDataView>,
}

impl View for S00LoginStart {
    type V = S00LoginStartView;

    open spec fn view(&self) -> S00LoginStartView {
        S00LoginStartView {
            name: self.name@,
            sig_data: match self.sig_data {
                Some(d) => Some(d@),
                None => None,
            },
        }
    }
}

pub open spec fn read_sig_data_at(s: Seq<u8>, pos: nat) -> Parsed<S00SigDataView> {
    parsed_then(read_i64_at(s, pos), |timestamp: i64, p: nat|
    parsed_then(read_len_bytes_at(s, p), |public_key: Seq<u8>, p: nat|
    parsed_then(read_len_bytes_at(s, p), |signature: Seq<u8>, p: nat|
    Parsed::Value { value: S00SigDataView { timestamp, public_key, signature }, pos: p })))
}

impl ServerBoundPacket for S00LoginStart {
    open spec fn spec_packet_id() -> i32 {
        0x00
    }

    /// The name, a flag, and the key data where the flag is set.
    open spec fn spec_read(s: Seq<u8>, pos: nat) -> Parsed<S00LoginStartView> {
        parsed_then(read_string_at(s, pos), |name: Seq<char>, p: nat|
        parsed_then(read_bool_at(s, p), |has_sig: bool, p: nat|
        if has_sig {
            parsed_then(read_sig_data_at(s, p), |d: S00SigDataView, p: nat|
            Parsed::Value { value: S00LoginStartView { name, sig_data: Some(d) }, pos: p })
        } else {
            Parsed::Value { value: S00LoginStartView { name, sig_data: None }, pos: p }
        }))
    }

    fn packet_id() -> (id: i32) {
        0x00
    }

    fn run_decoder(decoder: &mut PacketDecoder) -> (r: DecodingResult<Self>) {
        let name = match decoder.read_string() {
            Ok(v) => v,
            Err(e) => return Err(e),
        };
        let has_sig = match decoder.read_bool() {
            Ok(v) => v,
            Err(e) => return Err(e),
        };
        if !has_sig {
            return Ok(S00LoginStart { name, sig_data: None });
        }
        let timestamp = match decoder.read_i64() {
            Ok(v) => v,
            Err(e) => return Err(e),
        };
        let public_key = match decoder.read_len_bytes() {
            Ok(v) => v,
            Err(e) => return Err(e),
        };
        let signature = match decoder.read_len_bytes() {
            Ok(v) => v,
            Err(e) => return Err(e),
        };
        Ok(S00LoginStart { name, sig_data: Some(S00SigData { timestamp, public_key, signature }) })
    }
}

/// The proof that the client holds the shared secret: the encrypted token,
/// or a salt and a signature.
#[derive(Debug)]
pub enum S01VerifyToken {
    With { verify_token: Vec<u8> },
    Without { salt: i64, message_signature: Vec<u8> },
}

pub enum S01VerifyTokenView {
    With { verify_token: Seq<u8> },
    Without { salt: i64, message_signature: Seq<u8> },
}

impl View for S01VerifyToken {
    type V = S01VerifyTokenView;

    open spec fn view(&self) -> S01VerifyTokenView {
        match self {
            S01VerifyToken::With { verify_token } => S01VerifyTokenView::With { verify_token: verify_token@ },
            S01VerifyToken::Without { salt, message_signature } => S01VerifyTokenView::Without {
                salt: *salt,
                message_signature: message_signature@,
            },
        }
    }
}

/// The answer to an encryption request.
#[derive(Debug)]
pub struct S01EncryptionResponse {
    pub shared_secret: Vec<u8>,
    pub verify_token: S01VerifyToken,
}

pub struct S01EncryptionResponseView {
    pub shared_secret: Seq<u8>,
    pub verify_token: S01VerifyTokenView,
}

impl View for S01EncryptionResponse {
    type V = S01EncryptionResponseView;

    open spec fn view(&self) -> S01EncryptionResponseView {
        S01EncryptionResponseView { shared_secret: self.shared_secret@, verify_token: self.verify_token@ }
    }
}

impl ServerBoundPacket for S01EncryptionResponse {
    open spec fn spec_packet_id() -> i32 {
        0x01
    }

    open spec fn spec_read(s: Seq<u8>, pos: nat) -> Parsed<S01EncryptionResponseView> {
        parsed_then(read_len_bytes_at(s, pos), |shared_secret: Seq<u8>, p: nat|
        parsed_then(read_bool_at(s, p), |with_token: bool, p: nat|
        if with_token {
            parsed_then(read_len_bytes_at(s, p), |verify_token: Seq<u8>, p: nat|
            Parsed::Value {
                value: S01EncryptionResponseView {
                    shared_secret,
                    verify_token: S01VerifyTokenView::With { verify_token },
                },
                pos: p,
            })
        } else {
            parsed_then(read_i64_at(s, p), |salt: i64, p: nat|
            parsed_then(read_len_bytes_at(s, p), |message_signature: Seq<u8>, p: nat|
            Parsed::Value {
                value: S01EncryptionResponseView {
                    shared_secret,
                    verify_token: S01VerifyTokenView::Without { salt, message_signature },
                },
                pos: p,
            }))
        }))
    }

    fn packet_id() -> (id: i32) {
        0x01
    }

    fn run_decoder(decoder: &mut PacketDecoder) -> (r: DecodingResult<Self>) {
        let shared_secret = match decoder.read_len_bytes() {
            Ok(v) => v,
            Err(e) => return Err(e),
        };
        let with_token = match decoder.read_bool() {
            Ok(v) => v,
            Err(e) => return Err(e),
        };
        let verify_token = if with_token {
            let verify_token = match decoder.read_len_bytes() {
                Ok(v) => v,
                Err(e) => return Err(e),
            };
            S01VerifyToken::With { verify_token }
        } else {
            let salt = match decoder.read_i64() {
                Ok(v) => v,
                Err(e) => return Err(e),
            };
            let message_signature = match decoder.read_len_bytes() {
                Ok(v) => v,
                Err(e) => return Err(e),
            };
            S01VerifyToken::Without { salt, message_signature }
        };
        Ok(S01EncryptionResponse { shared_secret, verify_token })
    }
}

/// The answer to a login plugin request.
#[derive(Debug)]
pub struct S02LoginPluginResponse {
    /// The id of the request.
    pub message_id: i32,
    /// Whether the client understood the request; no data follows otherwise.
    pub successful: bool,
    /// Everything after the flag.
    pub data: Option<Vec<u8>>,
}

pub struct S02LoginPluginResponseView {
    pub message_id: i32,
    pub successful: bool,
    pub data: Option<Seq<u8>>,
}

impl View for S02LoginPluginResponse {
    type V = S02LoginPluginResponseView;

    open spec fn view(&self) -> S02LoginPluginResponseView {
        S02LoginPluginResponseView {
            message_id: self.message_id,
            successful: self.successful,
            data: match self.data {
                Some(d) => Some(d@),
                None => None,
            },
        }
    }
}

impl ServerBoundPacket for S02LoginPluginResponse {
    open spec fn spec_packet_id() -> i32 {
        0x02
    }

    open spec fn spec_read(s: Seq<u8>, pos: nat) -> Parsed<S02LoginPluginResponseView> {
        parsed_then(read_varint_at(s, pos), |message_id: i32, p: nat|
        parsed_then(read_bool_at(s, p), |successful: bool, p: nat|
        if successful {
            Parsed::Value {
                value: S02LoginPluginResponseView { message_id, successful, data: Some(s.skip(p as int)) },
                pos: s.len(),
            }
        } else {
            Parsed::Value { value: S02LoginPluginResponseView { message_id, successful, data: None }, pos: p }
        }))
    }

    fn packet_id() -> (id: i32) {
        0x02
    }

    fn run_decoder(decoder: &mut PacketDecoder) -> (r: DecodingResult<Self>) {
        let message_id = match decoder.read_varint() {
            Ok(v) => v,
            Err(e) => return Err(e),
        };
        let successful = match decoder.read_bool() {
            Ok(v) => v,
            Err(e) => return Err(e),
        };
        let data = if successful {
            match decoder.read_to_end() {
                Ok(v) => Some(v),
                Err(e) => return Err(e),
            }
        } else {
            None
        };
        Ok(S02LoginPluginResponse { message_id, successful, data })
    }
}


// --------------------------------------------------------------------- play

/// Confirms a teleport that the server asked for.
#[derive(Clone, Copy, Debug)]
pub struct S00ConfirmTeleportation {
    /// The id from the synchronize-position packet.
    pub teleport_id: i32,
}

impl View for S00ConfirmTeleportation {
    type V = S00ConfirmTeleportation;

    open spec fn view(&self) -> S00ConfirmTeleportation {
        *self
    }
}

impl ServerBoundPacket for S00ConfirmTeleportation {
    open spec fn spec_packet_id() -> i32 {
        0x00
    }

    open spec fn spec_read(s: Seq<u8>, pos: nat) -> Parsed<S00ConfirmTeleportation> {
        parsed_then(read_varint_at(s, pos), |teleport_id: i32, p: nat|
        Parsed::Value { value: S00ConfirmTeleportation { teleport_id }, pos: p })
    }

    fn packet_id() -> (id: i32) {
        0x00
    }

    fn run_decoder(decoder: &mut PacketDecoder) -> (r: DecodingResult<Self>) {
        let teleport_id = match decoder.read_varint() {
            Ok(v) => v,
            Err(e) => return Err(e),
        };
        Ok(S00ConfirmTeleportation { teleport_id })
    }
}

/// A chat message that the client sends.
#[derive(Debug)]
pub struct S04ChatMessage {
    pub message: String,
    pub timestamp: i64,
    /// The salt of the signature.
    pub salt: i64,
    pub signature: Vec<u8>,
    pub signed_preview: bool,
}

pub struct S04ChatMessageView {
    pub message: Seq<char>,
    pub timestamp: i64,
    pub salt: i64,
    pub signature: Seq<u8>,
    pub signed_preview: bool,
}

impl View for S04ChatMessage {
    type V = S04ChatMessageView;

    open spec fn view(&self) -> S04ChatMessageView {
        S04ChatMessageView {
            message: self.message@,
            timestamp: self.timestamp,
            salt: self.salt,
            signature: self.signature@,
            signed_preview: self.signed_preview,
        }
    }
}

impl ServerBoundPacket for S04ChatMessage {
    open spec fn spec_packet_id() -> i32 {
        0x04
    }

    open spec fn spec_read(s: Seq<u8>, pos: nat) -> Parsed<S04ChatMessageView> {
        parsed_then(read_string_at(s, pos), |message: Seq<char>, p: nat|
        parsed_then(read_i64_at(s, p), |timestamp: i64, p: nat|
        parsed_then(read_i64_at(s, p), |salt: i64, p: nat|
        parsed_then(read_len_bytes_at(s, p), |signature: Seq<u8>, p: nat|
        parsed_then(read_bool_at(s, p), |signed_preview: bool, p: nat|
        Parsed::Value {
            value: S04ChatMessageView { message, timestamp, salt, signature, signed_preview },
            pos: p,
        })))))
    }

    fn packet_id() -> (id: i32) {
        0x04
    }

    fn run_decoder(decoder: &mut PacketDecoder) -> (r: DecodingResult<Self>) {
        let message = match decoder.read_string() {
            Ok(v) => v,
            Err(e) => return Err(e),
        };
        let timestamp = match decoder.read_i64() {
            Ok(v) => v,
            Err(e) => return Err(e),
        };
        let salt = match decoder.read_i64() {
            Ok(v) => v,
            Err(e) => return Err(e),
        };
        let signature = match decoder.read_len_bytes() {
            Ok(v) => v,
            Err(e) => return Err(e),
        };
        let signed_preview = match decoder.read_bool() {
            Ok(v) => v,
            Err(e) => return Err(e),
        };
        Ok(S04ChatMessage { message, timestamp, salt, signature, signed_preview })
    }
}

/// What a client command asks for.
#[derive(Clone, Copy, Debug, PartialEq, Eq, Structural)]
pub enum S06ActionId {
    PerformRespawn,
    RequestStats,
}

impl S06ActionId {
    pub open spec fn spec_number(self) -> int {
        match self {
            S06ActionId::PerformRespawn => 0,
            S06ActionId::RequestStats => 1,
        }
    }

    /// The action numbered `n`, if any.
    pub fn from_i32(n: i32) -> (r: Option<S06ActionId>)
        ensures
            r matches Some(a) ==> a.spec_number() == n,
            r is None <==> !(0 <= n <= 1),
    {
        match n {
            0 => Some(S06ActionId::PerformRespawn),
            1 => Some(S06ActionId::RequestStats),
            _ => None,
        }
    }
}

/// Respawn, or open the statistics.
#[derive(Clone, Copy, Debug)]
pub struct S06ClientCommand {
    pub action_id: S06ActionId,
}

impl View for S06ClientCommand {
    type V = S06ClientCommand;

    open spec fn view(&self) -> S06ClientCommand {
        *self
    }
}

impl ServerBoundPacket for S06ClientCommand {
    open spec fn spec_packet_id() -> i32 {
        0x06
    }

    open spec fn spec_read(s: Seq<u8>, pos: nat) -> Parsed<S06ClientCommand> {
        parsed_then(read_varint_at(s, pos), |ai: i32, p: nat|
        if 0 <= ai <= 1 {
            Parsed::Value {
                value: S06ClientCommand {
                    action_id: if ai == 0 { S06ActionId::PerformRespawn } else { S06ActionId::RequestStats },
                },
                pos: p,
            }
        } else {
            Parsed::Failed {
                error: field_error("packet 0x06"@, "invalid action id (expected 0 or 1; received "@, ai as int, ")"@),
                pos: p,
            }
        })
    }

    fn packet_id() -> (id: i32) {
        0x06
    }

    fn run_decoder(decoder: &mut PacketDecoder) -> (r: DecodingResult<Self>) {
        let ai = match decoder.read_varint() {
            Ok(v) => v,
            Err(e) => return Err(e),
        };
        match S06ActionId::from_i32(ai) {
            Some(action_id) => Ok(S06ClientCommand { action_id }),
            None => Err(field_error_text(
                "packet 0x06",
                "invalid action id (expected 0 or 1; received ",
                ai as i64,
                ")",
            )),
        }
    }
}

/// The client's settings, sent when it connects or when they change.
#[derive(Debug)]
pub struct S07ClientInformation {
    /// Such as `en_GB`.
    pub locale: String,
    /// In chunks.
    pub view_distance: i8,
    /// 0: enabled, 1: commands only, 2: hidden.
    pub chat_mode: i32,
    pub chat_colors: bool,
    /// A bit mask.
    pub displayed_skin_parts: u8,
    /// 0: left, 1: right.
    pub main_hand: i32,
    pub enable_text_filtering: bool,
    pub allow_server_listings: bool,
}

pub struct S07ClientInformationView {
    pub locale: Seq<char>,
    pub view_distance: i8,
    pub chat_mode: i32,
    pub chat_colors: bool,
    pub displayed_skin_parts: u8,
    pub main_hand: i32,
    pub enable_text_filtering: bool,
    pub allow_server_listings: bool,
}

impl View for S07ClientInformation {
    type V = S07ClientInformationView;

    open spec fn view(&self) -> S07ClientInformationView {
        S07ClientInformationView {
            locale: self.locale@,
            view_distance: self.view_distance,
            chat_mode: self.chat_mode,
            chat_colors: self.chat_colors,
            displayed_skin_parts: self.displayed_skin_parts,
            main_hand: self.main_hand,
            enable_text_filtering: self.enable_text_filtering,
            allow_server_listings: self.allow_server_listings,
        }
    }
}

impl ServerBoundPacket for S07ClientInformation {
    open spec fn spec_packet_id() -> i32 {
        0x07
    }

    open spec fn spec_read(s: Seq<u8>, pos: nat) -> Parsed<S07ClientInformationView> {
        parsed_then(read_string_at(s, pos), |locale: Seq<char>, p: nat|
        parsed_then(read_i8_at(s, p), |view_distance: i8, p: nat|
        parsed_then(read_varint_at(s, p), |chat_mode: i32, p: nat|
        parsed_then(read_bool_at(s, p), |chat_colors: bool, p: nat|
        parsed_then(read_u8_at(s, p), |displayed_skin_parts: u8, p: nat|
        parsed_then(read_varint_at(s, p), |main_hand: i32, p: nat|
        parsed_then(read_bool_at(s, p), |enable_text_filtering: bool, p: nat|
        parsed_then(read_bool_at(s, p), |allow_server_listings: bool, p: nat|
        Parsed::Value {
            value: S07ClientInformationView {
                locale,
                view_distance,
                chat_mode,
                chat_colors,
                displayed_skin_parts,
                main_hand,
                enable_text_filtering,
                allow_server_listings,
            },
            pos: p,
        }))))))))
    }

    fn packet_id() -> (id: i32) {
        0x07
    }

    fn run_decoder(decoder: &mut PacketDecoder) -> (r: DecodingResult<Self>) {
        let locale = match decoder.read_string() {
            Ok(v) => v,
            Err(e) => return Err(e),
        };
        let view_distance = match decoder.read_i8() {
            Ok(v) => v,
            Err(e) => return Err(e),
        };
        let chat_mode = match decoder.read_varint() {
            Ok(v) => v,
            Err(e) => return Err(e),
        };
        let chat_colors = match decoder.read_bool() {
            Ok(v) => v,
            Err(e) => return Err(e),
        };
        let displayed_skin_parts = match decoder.read_u8() {
            Ok(v) => v,
            Err(e) => return Err(e),
        };
        let main_hand = match decoder.read_varint() {
            Ok(v) => v,
            Err(e) => return Err(e),
        };
        let enable_text_filtering = match decoder.read_bool() {
            Ok(v) => v,
            Err(e) => return Err(e),
        };
        let allow_server_listings = match decoder.read_bool() {
            Ok(v) => v,
            Err(e) => return Err(e),
        };
        Ok(S07ClientInformation {
            locale,
            view_distance,
            chat_mode,
            chat_colors,
            displayed_skin_parts,
            main_hand,
            enable_text_filtering,
            allow_server_listings,
        })
    }
}

/// Data of mods and plugins, on a named channel.
#[derive(Debug)]
pub struct S0CPluginMessage {
    pub channel: Identifier,
    pub data: Vec<u8>,
}

pub struct S0CPluginMessageView {
    pub channel: Seq<char>,
    pub data: Seq<u8>,
}

impl View for S0CPluginMessage {
    type V = S0CPluginMessageView;

    open spec fn view(&self) -> S0CPluginMessageView {
        S0CPluginMessageView { channel: self.channel@, data: self.data@ }
    }
}

impl ServerBoundPacket for S0CPluginMessage {
    open spec fn spec_packet_id() -> i32 {
        0x0C
    }

    /// The channel's name, then everything that is left.
    open spec fn spec_read(s: Seq<u8>, pos: nat) -> Parsed<S0CPluginMessageView> {
        parsed_then(read_string_at(s, pos), |channel: Seq<char>, p: nat|
        Parsed::Value {
            value: S0CPluginMessageView { channel: identifier_text(channel), data: s.skip(p as int) },
            pos: s.len(),
        })
    }

    fn packet_id() -> (id: i32) {
        0x0C
    }

    fn run_decoder(decoder: &mut PacketDecoder) -> (r: DecodingResult<Self>) {
        let channel = match decoder.read_string() {
            Ok(v) => Identifier::from(v.as_str()),
            Err(e) => return Err(e),
        };
        let data = match decoder.read_to_end() {
            Ok(v) => v,
            Err(e) => return Err(e),
        };
        Ok(S0CPluginMessage { channel, data })
    }
}

/// What an interaction with an entity is; the target is given by the bits of
/// its three `f32` coordinates.
#[derive(Clone, Copy, Debug, PartialEq, Eq, Structural)]
pub enum S0FInteractKind {
    Interact,
    Attack,
    InteractAt { target_x: u32, target_y: u32, target_z: u32, hand: i32 },
}

impl S0FInteractKind {
    pub fn is_interact(self) -> (b: bool)
        ensures
            b == (self is Interact),
    {
        match self {
            S0FInteractKind::Interact => true,
            _ => false,
        }
    }

    pub fn is_attack(self) -> (b: bool)
        ensures
            b == (self is Attack),
    {
        match self {
            S0FInteractKind::Attack => true,
            _ => false,
        }
    }

    pub fn is_interact_at(self) -> (b: bool)
        ensures
            b == (self is InteractAt),
    {
        match self {
            S0FInteractKind::InteractAt { .. } => true,
            _ => false,
        }
    }
}

/// The client attacks or uses an entity.
#[derive(Clone, Copy, Debug)]
pub struct S0FInteract {
    pub entity_id: i32,
    pub kind: S0FInteractKind,
    pub sneaking: bool,
}

impl View for S0FInteract {
    type V = S0FInteract;

    open spec fn view(&self) -> S0FInteract {
        *self
    }
}

pub open spec fn read_interact_kind_at(s: Seq<u8>, pos: nat) -> Parsed<S0FInteractKind> {
    parsed_then(read_varint_at(s, pos), |k: i32, p: nat|
    if k == 0 {
        Parsed::Value { value: S0FInteractKind::Interact, pos: p }
    } else if k == 1 {
        Parsed::Value { value: S0FInteractKind::Attack, pos: p }
    } else if k == 2 {
        parsed_then(read_u32_at(s, p), |target_x: u32, p: nat|
        parsed_then(read_u32_at(s, p), |target_y: u32, p: nat|
        parsed_then(read_u32_at(s, p), |target_z: u32, p: nat|
        parsed_then(read_varint_at(s, p), |hand: i32, p: nat|
        Parsed::Value { value: S0FInteractKind::InteractAt { target_x, target_y, target_z, hand }, pos: p }))))
    } else {
        Parsed::Failed {
            error: field_error("packet 0x0F"@, "invalid kind id (expected 0, 1 or 2; received "@, k as int, ")"@),
            pos: p,
        }
    })
}

impl ServerBoundPacket for S0FInteract {
    open spec fn spec_packet_id() -> i32 {
        0x0F
    }

    open spec fn spec_read(s: Seq<u8>, pos: nat) -> Parsed<S0FInteract> {
        parsed_then(read_varint_at(s, pos), |entity_id: i32, p: nat|
        parsed_then(read_interact_kind_at(s, p), |kind: S0FInteractKind, p: nat|
        parsed_then(read_bool_at(s, p), |sneaking: bool, p: nat|
        Parsed::Value { value: S0FInteract { entity_id, kind, sneaking }, pos: p })))
    }

    fn packet_id() -> (id: i32) {
        0x0F
    }

    fn run_decoder(decoder: &mut PacketDecoder) -> (r: DecodingResult<Self>) {
        let entity_id = match decoder.read_varint() {
            Ok(v) => v,
            Err(e) => return Err(e),
        };
        let k = match decoder.read_varint() {
            Ok(v) => v,
            Err(e) => return Err(e),
        };
        let kind = if k == 0 {
            S0FInteractKind::Interact
        } else if k == 1 {
            S0FInteractKind::Attack
        } else if k == 2 {
            let target_x = match decoder.read_f32_bits() {
                Ok(v) => v,
                Err(e) => return Err(e),
            };
            let target_y = match decoder.read_f32_bits() {
                Ok(v) => v,
                Err(e) => return Err(e),
            };
            let target_z = match decoder.read_f32_bits() {
                Ok(v) => v,
                Err(e) => return Err(e),
            };
            let hand = match decoder.read_varint() {
                Ok(v) => v,
                Err(e) => return Err(e),
            };
            S0FInteractKind::InteractAt { target_x, target_y, target_z, hand }
        } else {
            return Err(field_error_text(
                "packet 0x0F",
                "invalid kind id (expected 0, 1 or 2; received ",
                k as i64,
                ")",
            ));
        };
        let sneaking = match decoder.read_bool() {
            Ok(v) => v,
            Err(e) => return Err(e),
        };
        Ok(S0FInteract { entity_id, kind, sneaking })
    }
}

/// The client's answer to a keep-alive, with the same id.
#[derive(Clone, Copy, Debug)]
pub struct S11KeepAlive {
    pub id: i64,
}

impl View for S11KeepAlive {
    type V = S11KeepAlive;

    open spec fn view(&self) -> S11KeepAlive {
        *self
    }
}

impl ServerBoundPacket for S11KeepAlive {
    open spec fn spec_packet_id() -> i32 {
        0x11
    }

    open spec fn spec_read(s: Seq<u8>, pos: nat) -> Parsed<S11KeepAlive> {
        parsed_then(read_i64_at(s, pos), |id: i64, p: nat|
        Parsed::Value { value: S11KeepAlive { id }, pos: p })
    }

    fn packet_id() -> (id: i32) {
        0x11
    }

    fn run_decoder(decoder: &mut PacketDecoder) -> (r: DecodingResult<Self>) {
        let id = match decoder.read_i64() {
            Ok(v) => v,
            Err(e) => return Err(e),
        };
        Ok(S11KeepAlive { id })
    }
}

/// The player's position; each coordinate is given by the bits of its `f64`.
#[derive(Clone, Copy, Debug)]
pub struct S13SetPlayerPosition {
    pub x: u64,
    pub feet_y: u64,
    pub z: u64,
    pub on_ground: bool,
}

impl View for S13SetPlayerPosition {
    type V = S13SetPlayerPosition;

    open spec fn view(&self) -> S13SetPlayerPosition {
        *self
    }
}

impl ServerBoundPacket for S13SetPlayerPosition {
    open spec fn spec_packet_id() -> i32 {
        0x13
    }

    open spec fn spec_read(s: Seq<u8>, pos: nat) -> Parsed<S13SetPlayerPosition> {
        parsed_then(read_u64_at(s, pos), |x: u64, p: nat|
        parsed_then(read_u64_at(s, p), |feet_y: u64, p: nat|
        parsed_then(read_u64_at(s, p), |z: u64, p: nat|
        parsed_then(read_bool_at(s, p), |on_ground: bool, p: nat|
        Parsed::Value { value: S13SetPlayerPosition { x, feet_y, z, on_ground }, pos: p }))))
    }

    fn packet_id() -> (id: i32) {
        0x13
    }

    fn run_decoder(decoder: &mut PacketDecoder) -> (r: DecodingResult<Self>) {
        let x = match decoder.read_f64_bits() {
            Ok(v) => v,
            Err(e) => return Err(e),
        };
        let feet_y = match decoder.read_f64_bits() {
            Ok(v) => v,
            Err(e) => return Err(e),
        };
        let z = match decoder.read_f64_bits() {
            Ok(v) => v,
            Err(e) => return Err(e),
        };
        let on_ground = match decoder.read_bool() {
            Ok(v) => v,
            Err(e) => return Err(e),
        };
        Ok(S13SetPlayerPosition { x, feet_y, z, on_ground })
    }
}

/// Position and rotation together; coordinates and angles are given by the
/// bits of their floats.
#[derive(Clone, Copy, Debug)]
pub struct S13SetPlayerPositionAndRotation {
    pub x: u64,
    pub feet_y: u64,
    pub z: u64,
    pub yaw: u32,
    pub pitch: u32,
    pub on_ground: bool,
}

impl View for S13SetPlayerPositionAndRotation {
    type V = S13SetPlayerPositionAndRotation;

    open spec fn view(&self) -> S13SetPlayerPositionAndRotation {
        *self
    }
}

impl ServerBoundPacket for S13SetPlayerPositionAndRotation {
    open spec fn spec_packet_id() -> i32 {
        0x13
    }

    open spec fn spec_read(s: Seq<u8>, pos: nat) -> Parsed<S13SetPlayerPositionAndRotation> {
        parsed_then(read_u64_at(s, pos), |x: u64, p: nat|
        parsed_then(read_u64_at(s, p), |feet_y: u64, p: nat|
        parsed_then(read_u64_at(s, p), |z: u64, p: nat|
        parsed_then(read_u32_at(s, p), |yaw: u32, p: nat|
        parsed_then(read_u32_at(s, p), |pitch: u32, p: nat|
        parsed_then(read_bool_at(s, p), |on_ground: bool, p: nat|
        Parsed::Value { value: S13SetPlayerPositionAndRotation { x, feet_y, z, yaw, pitch, on_ground }, pos: p }))))))
    }

    fn packet_id() -> (id: i32) {
        0x13
    }

    fn run_decoder(decoder: &mut PacketDecoder) -> (r: DecodingResult<Self>) {
        let x = match decoder.read_f64_bits() {
            Ok(v) => v,
            Err(e) => return Err(e),
        };
        let feet_y = match decoder.read_f64_bits() {
            Ok(v) => v,
            Err(e) => return Err(e),
        };
        let z = match decoder.read_f64_bits() {
            Ok(v) => v,
            Err(e) => return Err(e),
        };
        let yaw = match decoder.read_f32_bits() {
            Ok(v) => v,
            Err(e) => return Err(e),
        };
        let pitch = match decoder.read_f32_bits() {
            Ok(v) => v,
            Err(e) => return Err(e),
        };
        let on_ground = match decoder.read_bool() {
            Ok(v) => v,
            Err(e) => return Err(e),
        };
        Ok(S13SetPlayerPositionAndRotation { x, feet_y, z, yaw, pitch, on_ground })
    }
}

/// The direction the player looks in, as the bits of two `f32` angles.
#[derive(Clone, Copy, Debug)]
pub struct S15SetPlayerRotation {
    pub yaw: u32,
    pub pitch: u32,
    pub on_ground: bool,
}

impl View for S15SetPlayerRotation {
    type V = S15SetPlayerRotation;

    open spec fn view(&self) -> S15SetPlayerRotation {
        *self
    }
}

impl ServerBoundPacket for S15SetPlayerRotation {
    open spec fn spec_packet_id() -> i32 {
        0x15
    }

    open spec fn spec_read(s: Seq<u8>, pos: nat) -> Parsed<S15SetPlayerRotation> {
        parsed_then(read_u32_at(s, pos), |yaw: u32, p: nat|
        parsed_then(read_u32_at(s, p), |pitch: u32, p: nat|
        parsed_then(read_bool_at(s, p), |on_ground: bool, p: nat|
        Parsed::Value { value: S15SetPlayerRotation { yaw, pitch, on_ground }, pos: p })))
    }

    fn packet_id() -> (id: i32) {
        0x15
    }

    fn run_decoder(decoder: &mut PacketDecoder) -> (r: DecodingResult<Self>) {
        let yaw = match decoder.read_f32_bits() {
            Ok(v) => v,
            Err(e) => return Err(e),
        };
        let pitch = match decoder.read_f32_bits() {
            Ok(v) => v,
            Err(e) => return Err(e),
        };
        let on_ground = match decoder.read_bool() {
            Ok(v) => v,
            Err(e) => return Err(e),
        };
        Ok(S15SetPlayerRotation { yaw, pitch, on_ground })
    }
}

/// Whether the player stands on the ground.
#[derive(Clone, Copy, Debug)]
pub struct S16SetPlayerOnGround {
    pub on_ground: bool,
}

impl View for S16SetPlayerOnGround {
    type V = S16SetPlayerOnGround;

    open spec fn view(&self) -> S16SetPlayerOnGround {
        *self
    }
}

impl ServerBoundPacket for S16SetPlayerOnGround {
    open spec fn spec_packet_id() -> i32 {
        0x15
    }

    open spec fn spec_read(s: Seq<u8>, pos: nat) -> Parsed<S16SetPlayerOnGround> {
        parsed_then(read_bool_at(s, pos), |on_ground: bool, p: nat|
        Parsed::Value { value: S16SetPlayerOnGround { on_ground }, pos: p })
    }

    fn packet_id() -> (id: i32) {
        0x15
    }

    fn run_decoder(decoder: &mut PacketDecoder) -> (r: DecodingResult<Self>) {
        let on_ground = match decoder.read_bool() {
            Ok(v) => v,
            Err(e) => return Err(e),
        };
        Ok(S16SetPlayerOnGround { on_ground })
    }
}

/// Sent when the player starts or stops flying.
#[derive(Clone, Copy, Debug)]
pub struct S1BPlayerAbilities {
    /// 0x02: flying.
    pub flags: u8,
}

impl View for S1BPlayerAbilities {
    type V = S1BPlayerAbilities;

    open spec fn view(&self) -> S1BPlayerAbilities {
        *self
    }
}

impl ServerBoundPacket for S1BPlayerAbilities {
    open spec fn spec_packet_id() -> i32 {
        0x1B
    }

    open spec fn spec_read(s: Seq<u8>, pos: nat) -> Parsed<S1BPlayerAbilities> {
        parsed_then(read_u8_at(s, pos), |flags: u8, p: nat|
        Parsed::Value { value: S1BPlayerAbilities { flags }, pos: p })
    }

    fn packet_id() -> (id: i32) {
        0x1B
    }

    fn run_decoder(decoder: &mut PacketDecoder) -> (r: DecodingResult<Self>) {
        let flags = match decoder.read_u8() {
            Ok(v) => v,
            Err(e) => return Err(e),
        };
        Ok(S1BPlayerAbilities { flags })
    }
}

/// The hotbar slot the player selected.
#[derive(Clone, Copy, Debug)]
pub struct S27SetHeldItem {
    /// 0 to 8.
    pub slot: i16,
}

impl View for S27SetHeldItem {
    type V = S27SetHeldItem;

    open spec fn view(&self) -> S27SetHeldItem {
        *self
    }
}

impl ServerBoundPacket for S27SetHeldItem {
    open spec fn spec_packet_id() -> i32 {
        0x27
    }

    open spec fn spec_read(s: Seq<u8>, pos: nat) -> Parsed<S27SetHeldItem> {
        parsed_then(read_i16_at(s, pos), |slot: i16, p: nat|
        Parsed::Value { value: S27SetHeldItem { slot }, pos: p })
    }

    fn packet_id() -> (id: i32) {
        0x27
    }

    fn run_decoder(decoder: &mut PacketDecoder) -> (r: DecodingResult<Self>) {
        let slot = match decoder.read_i16() {
            Ok(v) => v,
            Err(e) => return Err(e),
        };
        Ok(S27SetHeldItem { slot })
    }
}

/// The player's arm swings.
#[derive(Clone, Copy, Debug)]
pub struct S2ESwingArm {
    /// 0: main hand, 1: off hand.
    pub hand: i32,
}

impl View for S2ESwingArm {
    type V = S2ESwingArm;

    open spec fn view(&self) -> S2ESwingArm {
        *self
    }
}

impl ServerBoundPacket for S2ESwingArm {
    open spec fn spec_packet_id() -> i32 {
        0x2E
    }

    open spec fn spec_read(s: Seq<u8>, pos: nat) -> Parsed<S2ESwingArm> {
        parsed_then(read_varint_at(s, pos), |hand: i32, p: nat|
        Parsed::Value { value: S2ESwingArm { hand }, pos: p })
    }

    fn packet_id() -> (id: i32) {
        0x2E
    }

    fn run_decoder(decoder: &mut PacketDecoder) -> (r: DecodingResult<Self>) {
        let hand = match decoder.read_varint() {
            Ok(v) => v,
            Err(e) => return Err(e),
        };
        Ok(S2ESwingArm { hand })
    }
}

/// What the player does to a block.
#[derive(Clone, Copy, Debug, PartialEq, Eq, Structural)]
pub enum S1CStatus {
    StartedDigging,
    /// The player let go of the mine key.
    CancelledDigging,
    /// The client thinks the block is broken.
    FinishedDigging,
    DropItemStack,
    DropItem,
    /// The held item's state is to be updated.
    ShootArrowOrFinishEating,
    SwapItemInHand,
}

impl S1CStatus {
    /// The number that stands for the variant on the wire.
    pub open spec fn spec_number(self) -> int {
        match self {
            S1CStatus::StartedDigging => 0,
            S1CStatus::CancelledDigging => 1,
            S1CStatus::FinishedDigging => 2,
            S1CStatus::DropItemStack => 3,
            S1CStatus::DropItem => 4,
            S1CStatus::ShootArrowOrFinishEating => 5,
            S1CStatus::SwapItemInHand => 6,
        }
    }

    /// The variant numbered `n`, if any.
    pub open spec fn spec_from_number(n: int) -> Option<S1CStatus> {
        if n < 0 {
            None
        } else if n == 0 {
            Some(S1CStatus::StartedDigging)
        } else if n == 1 {
            Some(S1CStatus::CancelledDigging)
        } else if n == 2 {
            Some(S1CStatus::FinishedDigging)
        } else if n == 3 {
            Some(S1CStatus::DropItemStack)
        } else if n == 4 {
            Some(S1CStatus::DropItem)
        } else if n == 5 {
            Some(S1CStatus::ShootArrowOrFinishEating)
        } else if n == 6 {
            Some(S1CStatus::SwapItemInHand)
        } else {
            None
        }
    }

    /// The variant numbered `n`, if any.
    pub fn from_i32(n: i32) -> (r: Option<S1CStatus>)
        ensures
            r == S1CStatus::spec_from_number(n as int),
            r matches Some(v) ==> v.spec_number() == n,
            r is None <==> !(0 <= n <= 6),
    {
        match n {
            0 => Some(S1CStatus::StartedDigging),
            1 => Some(S1CStatus::CancelledDigging),
            2 => Some(S1CStatus::FinishedDigging),
            3 => Some(S1CStatus::DropItemStack),
            4 => Some(S1CStatus::DropItem),
            5 => Some(S1CStatus::ShootArrowOrFinishEating),
            6 => Some(S1CStatus::SwapItemInHand),
            _ => None,
        }
    }
}

/// A face of a block.
#[derive(Clone, Copy, Debug, PartialEq, Eq, Structural)]
pub enum S1CDiggingFace {
    /// -Y
    Bottom,
    /// +Y
    Top,
    /// -Z
    North,
    /// +Z
    South,
    /// -X
    West,
    /// +X
    East,
}

impl S1CDiggingFace {
    /// The number that stands for the variant on the wire.
    pub open spec fn spec_number(self) -> int {
        match self {
            S1CDiggingFace::Bottom => 0,
            S1CDiggingFace::Top => 1,
            S1CDiggingFace::North => 2,
            S1CDiggingFace::South => 3,
            S1CDiggingFace::West => 4,
            S1CDiggingFace::East => 5,
        }
    }

    /// The variant numbered `n`, if any.
    pub open spec fn spec_from_number(n: int) -> Option<S1CDiggingFace> {
        if n < 0 {
            None
        } else if n == 0 {
            Some(S1CDiggingFace::Bottom)
        } else if n == 1 {
            Some(S1CDiggingFace::Top)
        } else if n == 2 {
            Some(S1CDiggingFace::North)
        } else if n == 3 {
            Some(S1CDiggingFace::South)
        } else if n == 4 {
            Some(S1CDiggingFace::West)
        } else if n == 5 {
            Some(S1CDiggingFace::East)
        } else {
            None
        }
    }

    /// The variant numbered `n`, if any.
    pub fn from_i32(n: i32) -> (r: Option<S1CDiggingFace>)
        ensures
            r == S1CDiggingFace::spec_from_number(n as int),
            r matches Some(v) ==> v.spec_number() == n,
            r is None <==> !(0 <= n <= 5),
    {
        match n {
            0 => Some(S1CDiggingFace::Bottom),
            1 => Some(S1CDiggingFace::Top),
            2 => Some(S1CDiggingFace::North),
            3 => Some(S1CDiggingFace::South),
            4 => Some(S1CDiggingFace::West),
            5 => Some(S1CDiggingFace::East),
            _ => None,
        }
    }

    /// The variant numbered `n`, if any.
    pub fn from_i8(n: i8) -> (r: Option<S1CDiggingFace>)
        ensures
            r == S1CDiggingFace::spec_from_number(n as int),
            r matches Some(v) ==> v.spec_number() == n,
            r is None <==> !(0 <= n <= 5),
    {
        match n {
            0 => Some(S1CDiggingFace::Bottom),
            1 => Some(S1CDiggingFace::Top),
            2 => Some(S1CDiggingFace::North),
            3 => Some(S1CDiggingFace::South),
            4 => Some(S1CDiggingFace::West),
            5 => Some(S1CDiggingFace::East),
            _ => None,
        }
    }
}

/// What a player command does.
#[derive(Clone, Copy, Debug, PartialEq, Eq, Structural)]
pub enum S1DActionId {
    StartSneaking,
    StopSneaking,
    /// Only sent from the sleep screen's button.
    LeaveBed,
    StartSprinting,
    StopSprinting,
    StartJumpWithHorse,
    StopJumpWithHorse,
    OpenHorseInventory,
    StartFlyingWithElytra,
}

impl S1DActionId {
    /// The number that stands for the variant on the wire.
    pub open spec fn spec_number(self) -> int {
        match self {
            S1DActionId::StartSneaking => 0,
            S1DActionId::StopSneaking => 1,
            S1DActionId::LeaveBed => 2,
            S1DActionId::StartSprinting => 3,
            S1DActionId::StopSprinting => 4,
            S1DActionId::StartJumpWithHorse => 5,
            S1DActionId::StopJumpWithHorse => 6,
            S1DActionId::OpenHorseInventory => 7,
            S1DActionId::StartFlyingWithElytra => 8,
        }
    }

    /// The variant numbered `n`, if any.
    pub open spec fn spec_from_number(n: int) -> Option<S1DActionId> {
        if n < 0 {
            None
        } else if n == 0 {
            Some(S1DActionId::StartSneaking)
        } else if n == 1 {
            Some(S1DActionId::StopSneaking)
        } else if n == 2 {
            Some(S1DActionId::LeaveBed)
        } else if n == 3 {
            Some(S1DActionId::StartSprinting)
        } else if n == 4 {
            Some(S1DActionId::StopSprinting)
        } else if n == 5 {
            Some(S1DActionId::StartJumpWithHorse)
        } else if n == 6 {
            Some(S1DActionId::StopJumpWithHorse)
        } else if n == 7 {
            Some(S1DActionId::OpenHorseInventory)
        } else if n == 8 {
            Some(S1DActionId::StartFlyingWithElytra)
        } else {
            None
        }
    }

    /// The variant numbered `n`, if any.
    pub fn from_i32(n: i32) -> (r: Option<S1DActionId>)
        ensures
            r == S1DActionId::spec_from_number(n as int),
            r matches Some(v) ==> v.spec_number() == n,
            r is None <==> !(0 <= n <= 8),
    {
        match n {
            0 => Some(S1DActionId::StartSneaking),
            1 => Some(S1DActionId::StopSneaking),
            2 => Some(S1DActionId::LeaveBed),
            3 => Some(S1DActionId::StartSprinting),
            4 => Some(S1DActionId::StopSprinting),
            5 => Some(S1DActionId::StartJumpWithHorse),
            6 => Some(S1DActionId::StopJumpWithHorse),
            7 => Some(S1DActionId::OpenHorseInventory),
            8 => Some(S1DActionId::StartFlyingWithElytra),
            _ => None,
        }
    }
}

/// The player acts on a block.
#[derive(Clone, Copy, Debug)]
pub struct S1CPlayerAction {
    pub status: S1CStatus,
    pub position: Position,
    /// The face being hit.
    pub face: S1CDiggingFace,
    pub sequence: i32,
}

impl View for S1CPlayerAction {
    type V = S1CPlayerAction;

    open spec fn view(&self) -> S1CPlayerAction {
        *self
    }
}

impl ServerBoundPacket for S1CPlayerAction {
    open spec fn spec_packet_id() -> i32 {
        0x1C
    }

    open spec fn spec_read(s: Seq<u8>, pos: nat) -> Parsed<S1CPlayerAction> {
        parsed_then(read_varint_at(s, pos), |sid: i32, p: nat|
        match S1CStatus::spec_from_number(sid as int) {
            None => Parsed::Failed {
                error: field_error(
                    "packet 0x1C"@,
                    "invalid player digging status (expected 0 through 6, received "@,
                    sid as int,
                    ""@,
                ),
                pos: p,
            },
            Some(status) =>
            parsed_then(read_i64_at(s, p), |bits: i64, p: nat|
            parsed_then(read_i8_at(s, p), |fid: i8, p: nat|
            match S1CDiggingFace::spec_from_number(fid as int) {
                None => Parsed::Failed {
                    error: field_error(
                        "packet 0x1C"@,
                        "invalid player digging face (expected 0 through 5, received "@,
                        fid as int,
                        ")"@,
                    ),
                    pos: p,
                },
                Some(face) =>
                parsed_then(read_varint_at(s, p), |sequence: i32, p: nat|
                Parsed::Value {
                    value: S1CPlayerAction { status, position: Position::spec_decode(bits), face, sequence },
                    pos: p,
                }),
            })),
        })
    }

    fn packet_id() -> (id: i32) {
        0x1C
    }

    fn run_decoder(decoder: &mut PacketDecoder) -> (r: DecodingResult<Self>) {
        let sid = match decoder.read_varint() {
            Ok(v) => v,
            Err(e) => return Err(e),
        };
        let status = match S1CStatus::from_i32(sid) {
            Some(v) => v,
            None => return Err(field_error_text(
                "packet 0x1C",
                "invalid player digging status (expected 0 through 6, received ",
                sid as i64,
                "",
            )),
        };
        let position = match decoder.read_i64() {
            Ok(v) => Position::decode(v),
            Err(e) => return Err(e),
        };
        let fid = match decoder.read_i8() {
            Ok(v) => v,
            Err(e) => return Err(e),
        };
        let face = match S1CDiggingFace::from_i8(fid) {
            Some(v) => v,
            None => return Err(field_error_text(
                "packet 0x1C",
                "invalid player digging face (expected 0 through 5, received ",
                fid as i64,
                ")",
            )),
        };
        let sequence = match decoder.read_varint() {
            Ok(v) => v,
            Err(e) => return Err(e),
        };
        Ok(S1CPlayerAction { status, position, face, sequence })
    }
}

/// The player sneaks, sprints, leaves a bed, and the like.
#[derive(Clone, Copy, Debug)]
pub struct S1DPlayerCommand {
    pub entity_id: i32,
    pub action_id: S1DActionId,
    /// Only used when jumping with a horse (0 to 100); 0 otherwise.
    pub jump_boost: i32,
}

impl View for S1DPlayerCommand {
    type V = S1DPlayerCommand;

    open spec fn view(&self) -> S1DPlayerCommand {
        *self
    }
}

impl ServerBoundPacket for S1DPlayerCommand {
    open spec fn spec_packet_id() -> i32 {
        0x1D
    }

    /// Three VarInts: the entity id, the action (0 through 8) and the jump
    /// boost.
    open spec fn spec_read(s: Seq<u8>, pos: nat) -> Parsed<S1DPlayerCommand> {
        parsed_then(read_varint_at(s, pos), |entity_id: i32, p: nat|
        parsed_then(read_varint_at(s, p), |action: i32, p: nat|
        match S1DActionId::spec_from_number(action as int) {
            None => Parsed::Failed {
                error: field_error(
                    "packet 0x1D"@,
                    "invalid action id (expected 0 through 8, received "@,
                    action as int,
                    ")"@,
                ),
                pos: p,
            },
            Some(action_id) =>
            parsed_then(read_varint_at(s, p), |jump_boost: i32, p: nat|
            Parsed::Value { value: S1DPlayerCommand { entity_id, action_id, jump_boost }, pos: p }),
        }))
    }

    fn packet_id() -> (id: i32) {
        0x1D
    }

    fn run_decoder(decoder: &mut PacketDecoder) -> (r: DecodingResult<Self>) {
        let entity_id = match decoder.read_varint() {
            Ok(v) => v,
            Err(e) => return Err(e),
        };
        let action = match decoder.read_varint() {
            Ok(v) => v,
            Err(e) => return Err(e),
        };
        let action_id = match S1DActionId::from_i32(action) {
            Some(v) => v,
            None => return Err(field_error_text(
                "packet 0x1D",
                "invalid action id (expected 0 through 8, received ",
                action as i64,
                ")",
            )),
        };
        let jump_boost = match decoder.read_varint() {
            Ok(v) => v,
            Err(e) => return Err(e),
        };
        Ok(S1DPlayerCommand { entity_id, action_id, jump_boost })
    }
}

/// The player places a block; the cursor coordinates are given by the bits of
/// their `f32`s.
#[derive(Clone, Copy, Debug)]
pub struct S30UseItemOn {
    /// 0: main hand, 1: off hand.
    pub hand: i32,
    pub position: Position,
    pub face: S1CDiggingFace,
    pub cursor_position_x: u32,
    pub cursor_position_y: u32,
    pub cursor_position_z: u32,
    /// Whether the player's head is inside a block.
    pub inside_block: bool,
    pub sequence: i32,
}

impl View for S30UseItemOn {
    type V = S30UseItemOn;

    open spec fn view(&self) -> S30UseItemOn {
        *self
    }
}

impl ServerBoundPacket for S30UseItemOn {
    open spec fn spec_packet_id() -> i32 {
        0x2E
    }

    open spec fn spec_read(s: Seq<u8>, pos: nat) -> Parsed<S30UseItemOn> {
        parsed_then(read_varint_at(s, pos), |hand: i32, p: nat|
        parsed_then(read_i64_at(s, p), |bits: i64, p: nat|
        parsed_then(read_i8_at(s, p), |fid: i8, p: nat|
        match S1CDiggingFace::spec_from_number(fid as int) {
            None => Parsed::Failed {
                error: field_error(
                    "packet 0x2E"@,
                    "invalid player digging face (expected 0 though 5, received "@,
                    fid as int,
                    ")"@,
                ),
                pos: p,
            },
            Some(face) =>
            parsed_then(read_u32_at(s, p), |cursor_position_x: u32, p: nat|
            parsed_then(read_u32_at(s, p), |cursor_position_y: u32, p: nat|
            parsed_then(read_u32_at(s, p), |cursor_position_z: u32, p: nat|
            parsed_then(read_bool_at(s, p), |inside_block: bool, p: nat|
            parsed_then(read_varint_at(s, p), |sequence: i32, p: nat|
            Parsed::Value {
                value: S30UseItemOn {
                    hand,
                    position: Position::spec_decode(bits),
                    face,
                    cursor_position_x,
                    cursor_position_y,
                    cursor_position_z,
                    inside_block,
                    sequence,
                },
                pos: p,
            }))))),
        })))
    }

    fn packet_id() -> (id: i32) {
        0x2E
    }

    fn run_decoder(decoder: &mut PacketDecoder) -> (r: DecodingResult<Self>) {
        let hand = match decoder.read_varint() {
            Ok(v) => v,
            Err(e) => return Err(e),
        };
        let position = match decoder.read_i64() {
            Ok(v) => Position::decode(v),
            Err(e) => return Err(e),
        };
        let fid = match decoder.read_i8() {
            Ok(v) => v,
            Err(e) => return Err(e),
        };
        let face = match S1CDiggingFace::from_i8(fid) {
            Some(v) => v,
            None => return Err(field_error_text(
                "packet 0x2E",
                "invalid player digging face (expected 0 though 5, received ",
                fid as i64,
                ")",
            )),
        };
        let cursor_position_x = match decoder.read_f32_bits() {
            Ok(v) => v,
            Err(e) => return Err(e),
        };
        let cursor_position_y = match decoder.read_f32_bits() {
            Ok(v) => v,
            Err(e) => return Err(e),
        };
        let cursor_position_z = match decoder.read_f32_bits() {
            Ok(v) => v,
            Err(e) => return Err(e),
        };
        let inside_block = match decoder.read_bool() {
            Ok(v) => v,
            Err(e) => return Err(e),
        };
        let sequence = match decoder.read_varint() {
            Ok(v) => v,
            Err(e) => return Err(e),
        };
        Ok(S30UseItemOn {
            hand,
            position,
            face,
            cursor_position_x,
            cursor_position_y,
            cursor_position_z,
            inside_block,
            sequence,
        })
    }
}


/// Reading `count` slots, each after its number; none when `count` is not
/// positive.
pub open spec fn read_slot_list_at(s: Seq<u8>, pos: nat, count: int) -> Parsed<Seq<(i16, SlotView)>>
    decreases count,
{
    if count <= 0 {
        Parsed::Value { value: Seq::empty(), pos }
    } else {
        parsed_then(read_i16_at(s, pos), |id: i16, p: nat|
        parsed_then(read_slot_at(s, p), |slot: SlotView, p: nat|
        prepend(seq![(id, slot)], read_slot_list_at(s, p, count - 1))))
    }
}

/// `acc` in front of what `p` read.
pub open spec fn prepend<A>(acc: Seq<A>, p: Parsed<Seq<A>>) -> Parsed<Seq<A>> {
    match p {
        Parsed::Value { value, pos } => Parsed::Value { value: acc + value, pos },
        Parsed::Failed { error, pos } => Parsed::Failed { error, pos },
        Parsed::Panic => Parsed::Panic,
    }
}

proof fn lemma_prepend_twice<A>(a: Seq<A>, b: Seq<A>, p: Parsed<Seq<A>>)
    ensures
        prepend(a, prepend(b, p)) == prepend(a + b, p),
{
    if let Parsed::Value { value, pos } = p {
        assert(a + (b + value) =~= (a + b) + value);
    }
}

pub open spec fn slots_view(v: Seq<(i16, Slot)>) -> Seq<(i16, SlotView)> {
    v.map_values(|e: (i16, Slot)| (e.0, e.1@))
}

/// The player clicks a slot of a window.
#[derive(Debug)]
pub struct S0AClickContainer {
    /// The window; 0 for the player's inventory.
    pub window_id: u8,
    /// The last state id the client received.
    pub state_id: i32,
    /// The clicked slot.
    pub slot_id: i16,
    pub button: i8,
    pub mode: i32,
    /// The slots that changed, each with its number.
    pub slots: Vec<(i16, Slot)>,
    /// The item on the cursor.
    pub carried_item: Slot,
}

pub struct S0AClickContainerView {
    pub window_id: u8,
    pub state_id: i32,
    pub slot_id: i16,
    pub button: i8,
    pub mode: i32,
    pub slots: Seq<(i16, SlotView)>,
    pub carried_item: SlotView,
}

impl View for S0AClickContainer {
    type V = S0AClickContainerView;

    open spec fn view(&self) -> S0AClickContainerView {
        S0AClickContainerView {
            window_id: self.window_id,
            state_id: self.state_id,
            slot_id: self.slot_id,
            button: self.button,
            mode: self.mode,
            slots: slots_view(self.slots@),
            carried_item: self.carried_item@,
        }
    }
}

impl ServerBoundPacket for S0AClickContainer {
    open spec fn spec_packet_id() -> i32 {
        0x0A
    }

    open spec fn spec_read(s: Seq<u8>, pos: nat) -> Parsed<S0AClickContainerView> {
        parsed_then(read_u8_at(s, pos), |window_id: u8, p: nat|
        parsed_then(read_varint_at(s, p), |state_id: i32, p: nat|
        parsed_then(read_i16_at(s, p), |slot_id: i16, p: nat|
        parsed_then(read_i8_at(s, p), |button: i8, p: nat|
        parsed_then(read_varint_at(s, p), |mode: i32, p: nat|
        parsed_then(read_varint_at(s, p), |count: i32, p: nat|
        parsed_then(read_slot_list_at(s, p, count as int), |slots: Seq<(i16, SlotView)>, p: nat|
        parsed_then(read_slot_at(s, p), |carried_item: SlotView, p: nat|
        Parsed::Value {
            value: S0AClickContainerView { window_id, state_id, slot_id, button, mode, slots, carried_item },
            pos: p,
        }))))))))
    }

    fn packet_id() -> (id: i32) {
        0x0A
    }

    #[verifier::loop_isolation(false)]
    fn run_decoder(decoder: &mut PacketDecoder) -> (r: DecodingResult<Self>) {
        let ghost s = decoder.bytes();
        let window_id = match decoder.read_u8() {
            Ok(v) => v,
            Err(e) => return Err(e),
        };
        let state_id = match decoder.read_varint() {
            Ok(v) => v,
            Err(e) => return Err(e),
        };
        let slot_id = match decoder.read_i16() {
            Ok(v) => v,
            Err(e) => return Err(e),
        };
        let button = match decoder.read_i8() {
            Ok(v) => v,
            Err(e) => return Err(e),
        };
        let mode = match decoder.read_varint() {
            Ok(v) => v,
            Err(e) => return Err(e),
        };
        let count = match decoder.read_varint() {
            Ok(v) => v,
            Err(e) => return Err(e),
        };
        let ghost list_start = decoder.pos();
        let mut slots: Vec<(i16, Slot)> = Vec::new();
        let mut i: i32 = 0;
        while i < count
            invariant
                decoder.bytes() == s,
                0 <= i,
                count > 0 ==> i <= count,
                read_slot_list_at(s, list_start, count as int) == prepend(
                    slots_view(slots@),
                    read_slot_list_at(s, decoder.pos(), count - i),
                ),
                decoder.panicked() == old(decoder).panicked(),
            decreases count - i,
        {
            let ghost here = decoder.pos();
            let ghost acc = slots_view(slots@);
            let id = match decoder.read_i16() {
                Ok(v) => v,
                Err(e) => return Err(e),
            };
            let slot = match Slot::decode_sync(decoder) {
                Ok(v) => v,
                Err(e) => return Err(e),
            };
            proof {
                lemma_prepend_twice(acc, seq![(id, slot@)], read_slot_list_at(s, decoder.pos(), count - i - 1));
            }
            slots.push((id, slot));
            i = i + 1;
            proof {
                assert(slots_view(slots@) =~= acc + seq![(id, slot@)]);
            }
        }
        let carried_item = match Slot::decode_sync(decoder) {
            Ok(v) => v,
            Err(e) => return Err(e),
        };
        proof {
            assert(slots_view(slots@) + Seq::<(i16, SlotView)>::empty() =~= slots_view(slots@));
        }
        Ok(S0AClickContainer { window_id, state_id, slot_id, button, mode, slots, carried_item })
    }
}

/// In creative mode, sets a slot of the player's inventory.
#[derive(Debug)]
pub struct S2ASetCreativeModeSlot {
    pub slot_id: i16,
    pub slot: Slot,
}

pub struct S2ASetCreativeModeSlotView {
    pub slot_id: i16,
    pub slot: SlotView,
}

impl View for S2ASetCreativeModeSlot {
    type V = S2ASetCreativeModeSlotView;

    open spec fn view(&self) -> S2ASetCreativeModeSlotView {
        S2ASetCreativeModeSlotView { slot_id: self.slot_id, slot: self.slot@ }
    }
}

impl ServerBoundPacket for S2ASetCreativeModeSlot {
    open spec fn spec_packet_id() -> i32 {
        0x2A
    }

    open spec fn spec_read(s: Seq<u8>, pos: nat) -> Parsed<S2ASetCreativeModeSlotView> {
        parsed_then(read_i16_at(s, pos), |slot_id: i16, p: nat|
        parsed_then(read_slot_at(s, p), |slot: SlotView, p: nat|
        Parsed::Value { value: S2ASetCreativeModeSlotView { slot_id, slot }, pos: p }))
    }

    fn packet_id() -> (id: i32) {
        0x2A
    }

    fn run_decoder(decoder: &mut PacketDecoder) -> (r: DecodingResult<Self>) {
        let slot_id = match decoder.read_i16() {
            Ok(v) => v,
            Err(e) => return Err(e),
        };
        let slot = match Slot::decode_sync(decoder) {
            Ok(v) => v,
            Err(e) => return Err(e),
        };
        Ok(S2ASetCreativeModeSlot { slot_id, slot })
    }
}

} // verus!
