//! The login's RSA key, and the AES/CFB8 stream ciphers of an encrypted
//! connection, over `openssl`.
use openssl::pkey::Private;
use openssl::rsa::{Padding, Rsa};
use openssl::symm::{Cipher, Crypter, Mode};
use rand::RngCore;
use vstd::prelude::*;

verus! {

/// `openssl`'s RSA key, carried through unchanged.
#[verifier::external_type_specification]
#[verifier::external_body]
#[verifier::reject_recursive_types(T)]
pub struct ExRsa<T>(Rsa<T>);

/// `openssl`'s marker for keys with private components.
#[verifier::external_type_specification]
#[verifier::external_body]
pub struct ExPrivate(Private);

/// `openssl`'s cipher context, carried through unchanged.
#[verifier::external_type_specification]
#[verifier::external_body]
pub struct ExCrypter(Crypter);

/// Calls `openssl::rsa::Rsa::generate` (public exponent 65537). Nothing is
/// claimed of the key; `None` where OpenSSL reports an error.
#[verifier::external_body]
fn rsa_generate(bits: u32) -> Option<Rsa<Private>> {
    Rsa::generate(bits).ok()
}

/// Calls `public_key_to_der` (a DER SubjectPublicKeyInfo). Nothing is claimed
/// of the bytes; `None` where OpenSSL reports an error.
#[verifier::external_body]
fn rsa_public_der(key: &Rsa<Private>) -> Option<Vec<u8>> {
    key.public_key_to_der().ok()
}

/// Calls `private_decrypt` with PKCS#1 padding into a buffer of the key's
/// size (`size`), and keeps the bytes it reports written. Nothing is claimed
/// of them; `None` where OpenSSL reports an error. `private_decrypt` asserts
/// that the input fits in an `i32`.
#[verifier::external_body]
fn rsa_private_decrypt(key: &Rsa<Private>, data: &[u8]) -> Option<Vec<u8>>
    requires
        data@.len() <= i32::MAX,
{
    let mut out = vec![0u8; key.size() as usize];
    match key.private_decrypt(data, &mut out, Padding::PKCS1) {
        Ok(n) => {
            out.truncate(n);
            Some(out)
        },
        Err(_) => None,
    }
}

/// Fills four bytes with `rand::thread_rng().fill_bytes`. Claimed: four
/// bytes come back; which ones is chance.
#[verifier::external_body]
pub(crate) fn random_token() -> (t: Vec<u8>)
    ensures
        t@.len() == 4,
{
    let mut bytes = [0u8; 4];
    rand::thread_rng().fill_bytes(&mut bytes);
    bytes.to_vec()
}

/// Calls `Crypter::new` for `Cipher::aes_128_cfb8()`, encrypting or
/// decrypting, with `key` as key and as IV. Nothing is claimed of the
/// context; `None` where OpenSSL reports an error. The constructor asserts
/// that key and IV are at least as long as the cipher's (16 bytes) and
/// unwraps their lengths as C `int`s: the 16 bytes asked for meet both.
#[verifier::external_body]
pub(crate) fn cfb8_crypter(encrypt: bool, key: &[u8]) -> Option<Crypter>
    requires
        key@.len() == 16,
{
    let mode = if encrypt { Mode::Encrypt } else { Mode::Decrypt };
    Crypter::new(Cipher::aes_128_cfb8(), mode, key, Some(key)).ok()
}

/// Calls `Crypter::update` on `input` with an output buffer 16 bytes longer
/// than the input (more than the cipher's block size), and keeps the bytes it
/// reports written. Nothing is claimed of them: they depend on the context's
/// state. `None` where OpenSSL reports an error. `update` asserts that the
/// lengths fit in a C `int`.
#[verifier::external_body]
pub(crate) fn cfb8_update(crypter: &mut Crypter, input: &[u8]) -> Option<Vec<u8>>
    requires
        input@.len() + 16 <= i32::MAX,
{
    let mut out = vec![0u8; input.len() + 16];
    match crypter.update(input, &mut out) {
        Ok(n) => {
            out.truncate(n);
            Some(out)
        },
        Err(_) => None,
    }
}

/// The size of the login key in bits.
pub const LOGIN_KEY_BITS: u32 = 1024;

/// The server's RSA key for logins, with its public half in DER form.
pub struct LoginKey {
    key: Rsa<Private>,
    public_der: Vec<u8>,
}

impl LoginKey {
    /// The public key, DER encoded, as the encryption request carries it.
    pub closed spec fn spec_public_key(&self) -> Seq<u8> {
        self.public_der@
    }

    /// A fresh 1024-bit key; `None` where OpenSSL fails to make or encode one.
    pub fn generate() -> (k: Option<LoginKey>) {
        let key = match rsa_generate(LOGIN_KEY_BITS) {
            Some(key) => key,
            None => return None,
        };
        let public_der = match rsa_public_der(&key) {
            Some(der) => der,
            None => return None,
        };
        Some(LoginKey { key, public_der })
    }

    pub fn public_key(&self) -> (der: Vec<u8>)
        ensures
            der@ == self.spec_public_key(),
    {
        self.public_der.clone()
    }

    /// Decrypts the shared secret and the verify token of an encryption
    /// response. `None` where either does not decrypt, or where they do not
    /// come out as 16 and 4 bytes: a login cannot go on from there.
    pub fn decrypt_login(&self, shared_secret: &[u8], verify_token: &[u8]) -> (r: Option<(Vec<u8>, Vec<u8>)>)
        requires
            shared_secret@.len() <= i32::MAX,
            verify_token@.len() <= i32::MAX,
        ensures
            r matches Some((key, token)) ==> key@.len() == 16 && token@.len() == 4,
    {
        let key = match rsa_private_decrypt(&self.key, shared_secret) {
            Some(k) => k,
            None => return None,
        };
        let token = match rsa_private_decrypt(&self.key, verify_token) {
            Some(t) => t,
            None => return None,
        };
        if key.len() != 16 || token.len() != 4 {
            return None;
        }
        Some((key, token))
    }
}

} // verus!
