//! Sensitive byte buffers and authenticated decryption.
//!
//! Decrypted share material is wrapped in a buffer that is erased from
//! memory on disposal, and authenticated decryption is exposed through a
//! contract over its mathematical result.

use vstd::prelude::*;
use aes_gcm_siv::aead::Aead;
use aes_gcm_siv::aead::KeyInit;
use crate::types::CIPHER_KEY_BYTES;
use crate::types::NONCE_BYTES;

verus! {

/// A byte buffer that is erased from memory on disposal, wrapping
/// `zeroize::Zeroizing`; the held bytes are opaque to the verifier and are
/// spoken of through `secret_buf_bytes`.
#[verifier::external_body]
pub struct SecretBuf {
    inner: zeroize::Zeroizing<Vec<u8>>,
}

/// The bytes held by a zeroizing buffer, named so that contracts can speak
/// of a value that is otherwise opaque to the verifier.
pub uninterp spec fn secret_buf_bytes(b: SecretBuf) -> Seq<u8>;

impl SecretBuf {
    /// Relies on `zeroize::Zeroizing::new`: wraps a buffer so that it is
    /// erased from memory on disposal, leaving its contents unchanged.
    #[verifier::external_body]
    pub(crate) fn wrap(bytes: Vec<u8>) -> (b: SecretBuf)
        ensures
            secret_buf_bytes(b) == bytes@,
    {
        SecretBuf { inner: zeroize::Zeroizing::new(bytes) }
    }

    /// Relies on `zeroize::Zeroizing`'s `Deref` impl: a borrow of the
    /// wrapped buffer, unchanged.
    #[verifier::external_body]
    pub fn bytes(&self) -> (r: &Vec<u8>)
        ensures
            r@ == secret_buf_bytes(*self),
    {
        &*self.inner
    }
}

/// One decrypted secret-share fragment addressed to this node: the node's
/// position within the threshold scheme, the share bytes (erased from
/// memory on disposal), and the accompanying blinding commitment.
pub struct SecretShare {
    pub index: u64,
    pub share: SecretBuf,
    pub blinding: Vec<u8>,
}

impl SecretShare {
    /// A share from its parts; the share bytes move into a buffer that is
    /// erased from memory on disposal.
    pub fn new(index: u64, share: Vec<u8>, blinding: Vec<u8>) -> (s: SecretShare)
        ensures
            s.model() == (index, share@, blinding@),
    {
        SecretShare { index, share: SecretBuf::wrap(share), blinding }
    }

    /// The decrypted share bytes.
    pub open spec fn share_bytes(self) -> Seq<u8> {
        secret_buf_bytes(self.share)
    }

    /// Mathematical content of a share: index, share bytes, blinding bytes.
    pub open spec fn model(self) -> (u64, Seq<u8>, Seq<u8>) {
        (self.index, self.share_bytes(), self.blinding@)
    }
}

/// What AES-256-GCM-SIV authenticated decryption with empty associated data
/// returns: a function of key, nonce and ciphertext alone, `None` when
/// authentication fails.
pub uninterp spec fn aead_open(key: Seq<u8>, nonce: Seq<u8>, ciphertext: Seq<u8>) -> Option<Seq<u8>>;

/// Relies on `aes_gcm_siv::Aes256GcmSiv` (`KeyInit::new_from_slice`,
/// `aead::Aead::decrypt`): authenticated decryption with empty associated
/// data, deterministic in key, nonce and ciphertext.
#[verifier::external_body]
pub(crate) fn aead_decrypt(key: &Vec<u8>, nonce: &Vec<u8>, ciphertext: &Vec<u8>) -> (r: Option<Vec<u8>>)
    requires
        key@.len() == CIPHER_KEY_BYTES,
        nonce@.len() == NONCE_BYTES,
    ensures
        (r is Some) == (aead_open(key@, nonce@, ciphertext@) is Some),
        (r matches Some(p) ==> aead_open(key@, nonce@, ciphertext@) == Some(p@)),
{
    let cipher = match aes_gcm_siv::Aes256GcmSiv::new_from_slice(key.as_slice()) {
        Ok(c) => c,
        Err(_) => return None,
    };
    let nonce = match aes_gcm_siv::Nonce::try_from(nonce.as_slice()) {
        Ok(n) => n,
        Err(_) => return None,
    };
    cipher.decrypt(&nonce, ciphertext.as_slice()).ok()
}

} // verus!
