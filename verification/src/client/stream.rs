//! The byte streams of a connection: frames taken from what the client
//! sends, and frames made for what the server sends, compressed and
//! encrypted as the connection has agreed.
use super::crypto::{cfb8_crypter, cfb8_update};
use crate::packets::{frame_bytes, frame_decode, frame_result_is, PacketCompression, RawPacket};
use crate::DecodingResult;
use openssl::symm::Crypter;
use vstd::prelude::*;

verus! {

/// Collects what the client sends and cuts it into frames.
pub struct PacketReader {
    buffer: Vec<u8>,
    decrypter: Option<Crypter>,
}

impl PacketReader {
    /// The bytes received and not yet read, decrypted.
    pub closed spec fn spec_buffer(&self) -> Seq<u8> {
        self.buffer@
    }

    /// Whether incoming bytes are decrypted.
    pub closed spec fn is_encrypted(&self) -> bool {
        self.decrypter is Some
    }

    pub fn new() -> (r: Self)
        ensures
            r.spec_buffer() == Seq::<u8>::empty(),
            !r.is_encrypted(),
    {
        PacketReader { buffer: Vec::new(), decrypter: None }
    }

    /// From now on, decrypts incoming bytes with AES-128/CFB8, `key` being
    /// key and IV; `false`, with nothing changed, where OpenSSL refuses it.
    pub fn enable_encryption(&mut self, key: &[u8]) -> (ok: bool)
        requires
            key@.len() == 16,
        ensures
            final(self).spec_buffer() == old(self).spec_buffer(),
            ok ==> final(self).is_encrypted(),
            !ok ==> final(self).is_encrypted() == old(self).is_encrypted(),
    {
        match cfb8_crypter(false, key) {
            Some(c) => {
                self.decrypter = Some(c);
                true
            },
            None => false,
        }
    }

    /// Queues bytes that came in, decrypted where encryption is on;
    /// `false`, with nothing queued, where decryption fails.
    pub fn receive(&mut self, bytes: &[u8]) -> (ok: bool)
        requires
            bytes@.len() + 16 <= i32::MAX,
        ensures
            final(self).is_encrypted() == old(self).is_encrypted(),
            !old(self).is_encrypted() ==> ok && final(self).spec_buffer() == old(self).spec_buffer() + bytes@,
            ok ==> final(self).spec_buffer().len() >= old(self).spec_buffer().len()
                && final(self).spec_buffer().take(old(self).spec_buffer().len() as int) == old(self).spec_buffer(),
            !ok ==> final(self).spec_buffer() == old(self).spec_buffer(),
    {
        let ghost start = self.buffer@;
        let plain = match &mut self.decrypter {
            Some(c) => match cfb8_update(c, bytes) {
                Some(out) => out,
                None => return false,
            },
            None => vstd::slice::slice_to_vec(bytes),
        };
        self.buffer.extend_from_slice(plain.as_slice());
        assert(self.buffer@.take(start.len() as int) =~= start);
        true
    }

    /// Reads the next frame from the queued bytes under `compression`,
    /// removing what it reads: `None`, with the bytes left as they are, where
    /// reading them panics; `NotEnoughBytes` asks for more input.
    pub fn next_packet(&mut self, compression: PacketCompression) -> (r: Option<DecodingResult<RawPacket>>)
        ensures
            final(self).is_encrypted() == old(self).is_encrypted(),
            r is None <==> frame_decode(old(self).spec_buffer(), compression@).0 is Panic,
            r is None ==> final(self).spec_buffer() == old(self).spec_buffer(),
            r matches Some(res) ==> frame_result_is(res, frame_decode(old(self).spec_buffer(), compression@).0)
                && final(self).spec_buffer() == old(self).spec_buffer().skip(
                frame_decode(old(self).spec_buffer(), compression@).1 as int,
            ),
    {
        RawPacket::decode_checked(&mut self.buffer, compression)
    }
}

/// Makes the bytes to send for each packet.
pub struct PacketWriter {
    compression: PacketCompression,
    encrypter: Option<Crypter>,
}

impl PacketWriter {
    /// The compression packets are framed with.
    pub closed spec fn spec_compression(&self) -> i32 {
        self.compression@
    }

    /// Whether outgoing bytes are encrypted.
    pub closed spec fn is_encrypted(&self) -> bool {
        self.encrypter is Some
    }

    /// No compression, no encryption.
    pub fn new() -> (w: Self)
        ensures
            w.spec_compression() == -1,
            !w.is_encrypted(),
    {
        PacketWriter { compression: PacketCompression::default(), encrypter: None }
    }

    pub fn set_compression(&mut self, compression: PacketCompression)
        ensures
            final(self).spec_compression() == compression@,
            final(self).is_encrypted() == old(self).is_encrypted(),
    {
        self.compression = compression;
    }

    /// From now on, encrypts outgoing bytes with AES-128/CFB8, `key` being
    /// key and IV; `false`, with nothing changed, where OpenSSL refuses it.
    pub fn enable_encryption(&mut self, key: &[u8]) -> (ok: bool)
        requires
            key@.len() == 16,
        ensures
            final(self).spec_compression() == old(self).spec_compression(),
            ok ==> final(self).is_encrypted(),
            !ok ==> final(self).is_encrypted() == old(self).is_encrypted(),
    {
        match cfb8_crypter(true, key) {
            Some(c) => {
                self.encrypter = Some(c);
                true
            },
            None => false,
        }
    }

    /// The bytes to send for `packet`: its frame under the current
    /// compression, encrypted where encryption is on. `None` where encryption
    /// fails, or where the frame is too long for the cipher's `int` lengths.
    pub fn write(&mut self, packet: &RawPacket) -> (r: Option<Vec<u8>>)
        requires
            packet.data@.len() <= usize::MAX - 16,
        ensures
            final(self).spec_compression() == old(self).spec_compression(),
            final(self).is_encrypted() == old(self).is_encrypted(),
            !old(self).is_encrypted() ==> (r matches Some(bytes) && bytes@ == frame_bytes(
                packet.packet_id,
                packet.data@,
                old(self).spec_compression(),
            )),
    {
        let mut frame = Vec::new();
        packet.encode(self.compression, &mut frame);
        match &mut self.encrypter {
            Some(c) => {
                if frame.len() > 0x7fff_ffef {
                    return None;
                }
                cfb8_update(c, frame.as_slice())
            },
            None => Some(frame),
        }
    }
}

} // verus!
