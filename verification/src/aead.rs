//! Authenticated encryption of a 32-byte secret with AES-256-GCM.
//!
//! Every seal runs under the all-zero nonce. That is sound only while no key
//! seals twice, so `seal` takes its key by value: a `SealingKey` is made from
//! a salt drawn for it alone and is gone once it has sealed.

use crate::error::{outcome, SqrlError};
use crate::wire::zeros;
use crypto::aead::{AeadDecryptor, AeadEncryptor};
use vstd::prelude::*;

verus! {

/// Number of bytes of a key, and of the secret that is sealed.
pub const KEY_LEN: usize = 32;

/// Number of bytes of an authentication tag.
pub const TAG_LEN: usize = 16;

/// Number of bytes of a nonce.
pub const NONCE_LEN: usize = 12;

/// The ciphertext and the tag that AES-256-GCM computes for a plaintext under
/// a key, a nonce and associated data.
pub uninterp spec fn aes_gcm_encrypted(
    key: Seq<u8>,
    nonce: Seq<u8>,
    aad: Seq<u8>,
    plaintext: Seq<u8>,
) -> (Seq<u8>, Seq<u8>);

/// The plaintext that AES-256-GCM recovers from a ciphertext under a key, a
/// nonce and associated data, or `None` where the tag does not verify.
pub uninterp spec fn aes_gcm_decrypted(
    key: Seq<u8>,
    nonce: Seq<u8>,
    aad: Seq<u8>,
    ciphertext: Seq<u8>,
    tag: Seq<u8>,
) -> Option<Seq<u8>>;

/// The nonce of every seal: twelve zero bytes.
pub open spec fn zero_nonce() -> Seq<u8> {
    zeros(NONCE_LEN as nat)
}

/// The ciphertext and the tag of `plaintext` under `key`, bound to `aad`.
pub open spec fn sealed(key: Seq<u8>, aad: Seq<u8>, plaintext: Seq<u8>) -> (Seq<u8>, Seq<u8>) {
    aes_gcm_encrypted(key, zero_nonce(), aad, plaintext)
}

/// The plaintext behind `ciphertext` under `key` and `aad`, or `None` where
/// `tag` does not verify.
pub open spec fn opened(key: Seq<u8>, aad: Seq<u8>, ciphertext: Seq<u8>, tag: Seq<u8>) -> Option<
    Seq<u8>,
> {
    aes_gcm_decrypted(key, zero_nonce(), aad, ciphertext, tag)
}

/// What a decryption found, the plaintext taken by its view.
pub open spec fn found<T: View>(plaintext: Option<T>) -> Option<T::V> {
    match plaintext {
        Some(bytes) => Some(bytes@),
        None => None,
    }
}

/// What `open` returns for a key, a ciphertext, a tag and associated data:
/// the plaintext that the cipher recovers, or an authentication failure where
/// it recovers none; and whatever was sealed under the same key and
/// associated data comes back.
pub open spec fn open_outcome(
    key: Seq<u8>,
    ciphertext: Seq<u8>,
    tag: Seq<u8>,
    aad: Seq<u8>,
    result: Result<Seq<u8>, SqrlError>,
) -> bool {
    &&& result == match opened(key, aad, ciphertext, tag) {
        Some(plaintext) => Ok::<Seq<u8>, SqrlError>(plaintext),
        None => Err(SqrlError::AuthenticationFailure),
    }
    &&& forall|plaintext: Seq<u8>|
        plaintext.len() == KEY_LEN && #[trigger] sealed(key, aad, plaintext) == (ciphertext, tag)
            ==> result == Ok::<Seq<u8>, SqrlError>(plaintext)
}

/// Opening what was sealed, with the same key and the same associated data,
/// recovers the secret exactly.
pub proof fn lemma_open_recovers_sealed(
    key: Seq<u8>,
    secret: Seq<u8>,
    aad: Seq<u8>,
    result: Result<Seq<u8>, SqrlError>,
)
    requires
        secret.len() == KEY_LEN,
        open_outcome(key, sealed(key, aad, secret).0, sealed(key, aad, secret).1, aad, result),
    ensures
        result == Ok::<Seq<u8>, SqrlError>(secret),
        opened(key, aad, sealed(key, aad, secret).0, sealed(key, aad, secret).1) == Some(secret),
{
}

/// Runs `crypto::aes_gcm::AesGcm::new` with a 256-bit key and then
/// `AeadEncryptor::encrypt` on a 32-byte plaintext. The result is the pair of
/// ciphertext and tag, named `aes_gcm_encrypted`.
#[verifier::external_body]
fn aes_gcm_encrypt(key: &[u8; 32], nonce: &[u8; 12], aad: &[u8], plaintext: &[u8; 32]) -> (out: (
    [u8; 32],
    [u8; 16],
))
    ensures
        out@ == aes_gcm_encrypted(key@, nonce@, aad@, plaintext@),
{
    let mut ciphertext = [0u8; 32];
    let mut tag = [0u8; 16];
    let mut cipher = crypto::aes_gcm::AesGcm::new(crypto::aes::KeySize::KeySize256, key, nonce, aad);
    cipher.encrypt(plaintext, &mut ciphertext, &mut tag);
    (ciphertext, tag)
}

/// Runs `crypto::aes_gcm::AesGcm::new` with a 256-bit key and then
/// `AeadDecryptor::decrypt` on a 32-byte ciphertext. The result is the
/// plaintext where `decrypt` accepts the tag and `None` where it does not,
/// named `aes_gcm_decrypted`. `decrypt` computes the tag as `encrypt` does and
/// undoes the same counter-mode keystream, so it accepts, and gives back, any
/// plaintext whose encryption under the same key, nonce and associated data
/// is this ciphertext and tag.
#[verifier::external_body]
fn aes_gcm_decrypt(
    key: &[u8; 32],
    nonce: &[u8; 12],
    aad: &[u8],
    ciphertext: &[u8; 32],
    tag: &[u8; 16],
) -> (out: Option<[u8; 32]>)
    ensures
        found(out) == aes_gcm_decrypted(key@, nonce@, aad@, ciphertext@, tag@),
        forall|plaintext: Seq<u8>|
            plaintext.len() == 32 && #[trigger] aes_gcm_encrypted(key@, nonce@, aad@, plaintext)
                == (ciphertext@, tag@) ==> out.is_some() && out.unwrap()@ == plaintext,
{
    let mut plaintext = [0u8; 32];
    let mut cipher = crypto::aes_gcm::AesGcm::new(crypto::aes::KeySize::KeySize256, key, nonce, aad);
    if cipher.decrypt(ciphertext, &mut plaintext, tag) {
        Some(plaintext)
    } else {
        None
    }
}

/// A key that may seal once.
pub struct SealingKey {
    bytes: [u8; 32],
}

impl View for SealingKey {
    type V = Seq<u8>;

    closed spec fn view(&self) -> Seq<u8> {
        self.bytes@
    }
}

impl SealingKey {
    /// Wraps key bytes that were derived for one seal.
    pub(crate) fn new(bytes: [u8; 32]) -> (key: SealingKey)
        ensures
            key@ == bytes@,
    {
        SealingKey { bytes }
    }
}

/// Encrypts `plaintext` under `key`, bound to `aad`, and uses the key up.
pub fn seal(key: SealingKey, plaintext: &[u8; 32], aad: &[u8]) -> (out: ([u8; 32], [u8; 16]))
    ensures
        out@ == sealed(key@, aad@, plaintext@),
{
    let nonce = [0u8; 12];
    assert(nonce@ =~= zero_nonce());
    aes_gcm_encrypt(&key.bytes, &nonce, aad, plaintext)
}

/// Verifies `tag` over `ciphertext` and `aad` under `key` and decrypts.
pub fn open(key: &[u8; 32], ciphertext: &[u8; 32], tag: &[u8; 16], aad: &[u8]) -> (result: Result<
    [u8; 32],
    SqrlError,
>)
    ensures
        open_outcome(key@, ciphertext@, tag@, aad@, outcome(result)),
{
    let nonce = [0u8; 12];
    assert(nonce@ =~= zero_nonce());
    match aes_gcm_decrypt(key, &nonce, aad, ciphertext, tag) {
        Some(plaintext) => Ok(plaintext),
        None => Err(SqrlError::AuthenticationFailure),
    }
}

} // verus!
