//! Authenticated encryption of payloads with AES-256-GCM. An encrypted blob
//! is the 12-byte nonce followed by the ciphertext and its tag.
use vstd::prelude::*;
use crate::error::ProtocolError;
use crate::wire::copy_range;
use aes_gcm::aead::{Aead, KeyInit};
use aes_gcm::{Aes256Gcm, Nonce};

verus! {

/// Bytes of an AES-256 key.
pub const KEY_LEN: usize = 32;

/// Bytes of a nonce.
pub const NONCE_LEN: usize = 12;

/// Bytes of an authentication tag.
pub const TAG_LEN: usize = 16;

/// Longest plaintext that AES-GCM encrypts, in bytes (2^36).
pub const MAX_PLAINTEXT_LEN: u64 = 0x10_0000_0000;

/// What AES-256-GCM encryption of `plaintext` under `key` and `nonce` gives:
/// the ciphertext followed by the tag.
pub uninterp spec fn aes_gcm_sealed(key: Seq<u8>, nonce: Seq<u8>, plaintext: Seq<u8>) -> Seq<u8>;

/// What AES-256-GCM decryption of `ciphertext` under `key` and `nonce` gives:
/// the plaintext, or nothing when the tag does not verify.
pub uninterp spec fn aes_gcm_opened(key: Seq<u8>, nonce: Seq<u8>, ciphertext: Seq<u8>) -> Option<
    Seq<u8>,
>;

/// Relies on `aes_gcm::Error`, the opaque failure of encryption and decryption.
#[verifier::external_type_specification]
#[verifier::external_body]
pub struct ExAeadError(aes_gcm::Error);

/// Relies on `Aead::encrypt` of `aes_gcm::Aes256Gcm` built from `key`: the
/// ciphertext with its tag, which `Aead::decrypt` under the same key and
/// nonce turns back into `data`. It fails only for a plaintext longer than
/// `P_MAX` (2^36 bytes), and the tag it appends is 16 bytes long.
#[verifier::external_body]
fn aes_gcm_encrypt(key: &[u8; 32], nonce: &[u8], data: &[u8]) -> (r: Result<Vec<u8>, aes_gcm::Error>)
    requires
        nonce@.len() == NONCE_LEN,
    ensures
        data@.len() <= MAX_PLAINTEXT_LEN ==> r is Ok,
        r matches Ok(c) ==> c@.len() == data@.len() + TAG_LEN,
        r matches Ok(c) ==> c@ == aes_gcm_sealed(key@, nonce@, data@) && aes_gcm_opened(
            key@,
            nonce@,
            c@,
        ) == Some(data@),
{
    Aes256Gcm::new(key.into()).encrypt(Nonce::from_slice(nonce), data)
}

/// Relies on `Aead::decrypt` of `aes_gcm::Aes256Gcm` built from `key`: the
/// plaintext when the tag verifies, an error when it does not.
#[verifier::external_body]
fn aes_gcm_decrypt(key: &[u8; 32], nonce: &[u8], ciphertext: &[u8]) -> (r: Result<
    Vec<u8>,
    aes_gcm::Error,
>)
    requires
        nonce@.len() == NONCE_LEN,
    ensures
        match r {
            Ok(p) => aes_gcm_opened(key@, nonce@, ciphertext@) == Some(p@),
            Err(_) => aes_gcm_opened(key@, nonce@, ciphertext@) is None,
        },
{
    Aes256Gcm::new(key.into()).decrypt(Nonce::from_slice(nonce), ciphertext)
}

/// What decrypting `blob` under `key` gives: nothing for a blob shorter than
/// a nonce or whose tag does not verify.
pub open spec fn decrypt_spec(key: Seq<u8>, blob: Seq<u8>) -> Option<Seq<u8>> {
    if blob.len() < NONCE_LEN {
        None
    } else {
        aes_gcm_opened(key, blob.take(NONCE_LEN as int), blob.skip(NONCE_LEN as int))
    }
}

/// Encrypts and decrypts payloads under one 256-bit key.
pub struct Encryptor {
    key: [u8; 32],
}

impl Encryptor {
    /// The key.
    pub closed spec fn key(&self) -> Seq<u8> {
        self.key@
    }

    /// An encryptor for `key`.
    pub fn new(key: &[u8; 32]) -> (r: Encryptor)
        ensures
            r.key() == key@,
    {
        Encryptor { key: *key }
    }

    /// Encrypts `data` under a fresh random nonce and returns the nonce
    /// followed by the ciphertext and tag, as `encrypt_with_nonce` does.
    /// Decrypting the result with the same key gives `data` back. Fails
    /// with `EncryptionError` only for plaintexts longer than `MAX_PLAINTEXT_LEN`.
    pub fn encrypt(&self, data: &[u8]) -> (r: Result<Vec<u8>, ProtocolError>)
        ensures
            data@.len() <= MAX_PLAINTEXT_LEN ==> r is Ok,
            match r {
                Ok(c) => c@.len() == NONCE_LEN + data@.len() + TAG_LEN && c@.skip(NONCE_LEN as int)
                    == aes_gcm_sealed(self.key(), c@.take(NONCE_LEN as int), data@) && decrypt_spec(
                    self.key(),
                    c@,
                ) == Some(data@),
                Err(e) => e is EncryptionError,
            },
    {
        let nonce: [u8; 12] = rand::random::<[u8; 12]>();
        self.encrypt_with_nonce(&nonce, data)
    }

    /// Encrypts `data` under `nonce` and returns the nonce followed by the
    /// ciphertext and tag. A nonce must never be used twice with one key.
    /// Fails with `EncryptionError` only for plaintexts longer than
    /// `MAX_PLAINTEXT_LEN`.
    pub fn encrypt_with_nonce(&self, nonce: &[u8; 12], data: &[u8]) -> (r: Result<
        Vec<u8>,
        ProtocolError,
    >)
        ensures
            data@.len() <= MAX_PLAINTEXT_LEN ==> r is Ok,
            match r {
                Ok(c) => {
                    &&& c@.len() == NONCE_LEN + data@.len() + TAG_LEN
                    &&& c@.take(NONCE_LEN as int) == nonce@
                    &&& c@.skip(NONCE_LEN as int) == aes_gcm_sealed(self.key(), nonce@, data@)
                    &&& decrypt_spec(self.key(), c@) == Some(data@)
                },
                Err(e) => e is EncryptionError,
            },
    {
        let ciphertext = match aes_gcm_encrypt(&self.key, nonce.as_slice(), data) {
            Ok(c) => c,
            Err(_) => {
                return Err(ProtocolError::EncryptionError(String::from_str("encryption failed")));
            },
        };
        let mut result: Vec<u8> = Vec::with_capacity(NONCE_LEN);
        result.extend_from_slice(nonce.as_slice());
        let mut i: usize = 0;
        while i < ciphertext.len()
            invariant
                i <= ciphertext@.len(),
                result@ == nonce@ + ciphertext@.take(i as int),
            decreases ciphertext@.len() - i,
        {
            result.push(ciphertext[i]);
            i = i + 1;
            assert(result@ =~= nonce@ + ciphertext@.take(i as int));
        }
        assert(ciphertext@.take(i as int) =~= ciphertext@);
        assert(result@.take(NONCE_LEN as int) =~= nonce@);
        assert(result@.skip(NONCE_LEN as int) =~= ciphertext@);
        Ok(result)
    }

    /// Splits `data` into nonce and ciphertext and decrypts it. Fails with
    /// `EncryptionError` when `data` is shorter than a nonce or the tag does
    /// not verify; the two cases are not told apart.
    pub fn decrypt(&self, data: &[u8]) -> (r: Result<Vec<u8>, ProtocolError>)
        ensures
            match r {
                Ok(p) => decrypt_spec(self.key(), data@) == Some(p@),
                Err(e) => decrypt_spec(self.key(), data@) is None && e is EncryptionError,
            },
    {
        if data.len() < NONCE_LEN {
            return Err(ProtocolError::EncryptionError(String::from_str("decryption failed")));
        }
        let nonce = copy_range(data, 0, NONCE_LEN);
        let ciphertext = copy_range(data, NONCE_LEN, data.len());
        match aes_gcm_decrypt(&self.key, nonce.as_slice(), ciphertext.as_slice()) {
            Ok(p) => Ok(p),
            Err(_) => Err(ProtocolError::EncryptionError(String::from_str("decryption failed"))),
        }
    }

    /// A random 256-bit key.
    pub fn generate_key() -> (r: [u8; 32]) {
        rand::random::<[u8; 32]>()
    }
}

} // verus!
