use vstd::prelude::*;
use aes_gcm::aead::{Aead, KeyInit};
use aes_gcm::{Aes128Gcm, Nonce};
use crate::util::generate_os_rand;

verus! {

#[verifier::external_type_specification]
#[verifier::external_body]
pub struct ExAeadError(aes_gcm::Error);

/// Key length of AES-128-GCM, in bytes.
pub const KEY_LEN: usize = 16;

/// Nonce length of AES-128-GCM, in bytes.
pub const NONCE_LEN: usize = 12;

/// The longest plaintext that AES-GCM accepts, in bytes (2^36).
pub const MAX_PLAINTEXT_LEN: u64 = 68719476736;

/// Why an authenticated encryption, decryption or garbled-circuit step failed.
#[derive(Debug, Clone, Copy, PartialEq, Eq, Structural)]
pub enum CryptoError {
    /// The key is not sixteen bytes long.
    InvalidKeyLength,
    /// The nonce is not twelve bytes long.
    InvalidNonceLength,
    /// The cipher refused the plaintext (it is too long).
    EncryptionFailed,
    /// The ciphertext did not authenticate under the key and nonce.
    DecryptionFailed,
    /// No table of the circuit decrypted under the input label.
    EvaluationFailed,
    /// The output label is neither of the circuit's output labels.
    DecodingFailed,
}

/// The AES-128-GCM ciphertext (with its tag appended) of `plaintext` under `key` and `nonce`,
/// with no associated data.
pub uninterp spec fn gcm_seal(key: Seq<u8>, nonce: Seq<u8>, plaintext: Seq<u8>) -> Seq<u8>;

/// The AES-128-GCM plaintext of `ciphertext` under `key` and `nonce`, or `None` where the tag
/// does not verify.
pub uninterp spec fn gcm_open(key: Seq<u8>, nonce: Seq<u8>, ciphertext: Seq<u8>) -> Option<
    Seq<u8>,
>;

/// Relies on aes_gcm's `Aes128Gcm::new_from_slice` (which accepts a sixteen-byte key) and
/// `Aead::encrypt`, which fails only on a plaintext over 2^36 bytes and otherwise returns the
/// ciphertext followed by a sixteen-byte tag.
#[verifier::external_body]
fn aes128_gcm_seal(key: &[u8], nonce: &[u8], plaintext: &[u8]) -> (r: Result<
    Vec<u8>,
    aes_gcm::Error,
>)
    requires
        key@.len() == KEY_LEN,
        nonce@.len() == NONCE_LEN,
    ensures
        match r {
            Ok(c) => plaintext@.len() <= MAX_PLAINTEXT_LEN && c@ == gcm_seal(key@, nonce@, plaintext@)
                && c@.len() == plaintext@.len() + 16,
            Err(_) => plaintext@.len() > MAX_PLAINTEXT_LEN,
        },
{
    let cipher = Aes128Gcm::new_from_slice(key).map_err(|_| aes_gcm::Error)?;
    cipher.encrypt(Nonce::from_slice(nonce), plaintext)
}

/// Relies on aes_gcm's `Aes128Gcm::new_from_slice` (which accepts a sixteen-byte key) and
/// `Aead::decrypt`, which returns the plaintext exactly when the tag verifies, and fails on a
/// ciphertext shorter than the tag.
#[verifier::external_body]
fn aes128_gcm_open(key: &[u8], nonce: &[u8], ciphertext: &[u8]) -> (r: Result<
    Vec<u8>,
    aes_gcm::Error,
>)
    requires
        key@.len() == KEY_LEN,
        nonce@.len() == NONCE_LEN,
    ensures
        match r {
            Ok(p) => gcm_open(key@, nonce@, ciphertext@) == Some(p@),
            Err(_) => gcm_open(key@, nonce@, ciphertext@) is None,
        },
        ciphertext@.len() < 16 ==> r is Err,
{
    let cipher = Aes128Gcm::new_from_slice(key).map_err(|_| aes_gcm::Error)?;
    cipher.decrypt(Nonce::from_slice(nonce), ciphertext)
}

/// Why sealing a plaintext of `len` bytes under `key` fails, if it does.
pub open spec fn seal_error(key: Seq<u8>, len: int) -> Option<CryptoError> {
    if key.len() != KEY_LEN {
        Some(CryptoError::InvalidKeyLength)
    } else if len > MAX_PLAINTEXT_LEN {
        Some(CryptoError::EncryptionFailed)
    } else {
        None
    }
}

/// What decrypting `ciphertext` under `key` and `nonce` gives.
pub open spec fn open_spec(key: Seq<u8>, nonce: Seq<u8>, ciphertext: Seq<u8>) -> Result<
    Seq<u8>,
    CryptoError,
> {
    if key.len() != KEY_LEN {
        Err(CryptoError::InvalidKeyLength)
    } else if nonce.len() != NONCE_LEN {
        Err(CryptoError::InvalidNonceLength)
    } else {
        match gcm_open(key, nonce, ciphertext) {
            Some(p) => Ok(p),
            None => Err(CryptoError::DecryptionFailed),
        }
    }
}

/// The bytes of a result, as a sequence.
pub open spec fn bytes_result(r: Result<Vec<u8>, CryptoError>) -> Result<Seq<u8>, CryptoError> {
    match r {
        Ok(v) => Ok(v@),
        Err(e) => Err(e),
    }
}

/// Encrypts `plaintext` under `key` with a fresh random nonce; returns the nonce and the
/// ciphertext.
pub fn encrypt(key: &[u8], plaintext: &[u8]) -> (r: Result<(Vec<u8>, Vec<u8>), CryptoError>)
    ensures
        match r {
            Ok((nonce, c)) => seal_error(key@, plaintext@.len() as int) is None && nonce@.len()
                == NONCE_LEN && c@ == gcm_seal(key@, nonce@, plaintext@) && c@.len()
                == plaintext@.len() + 16,
            Err(e) => seal_error(key@, plaintext@.len() as int) == Some(e),
        },
{
    if key.len() != KEY_LEN {
        return Err(CryptoError::InvalidKeyLength);
    }
    let nonce = generate_os_rand(96);
    match aes128_gcm_seal(key, nonce.as_slice(), plaintext) {
        Ok(c) => Ok((nonce, c)),
        Err(_) => Err(CryptoError::EncryptionFailed),
    }
}

/// Encrypts `plaintext` under `key1`, then the result under `key2`; returns both nonces and
/// the outer ciphertext.
pub fn double_encrypt(key1: &[u8], key2: &[u8], plaintext: &[u8]) -> (r: Result<
    ((Vec<u8>, Vec<u8>), Vec<u8>),
    CryptoError,
>)
    ensures
        match r {
            Ok(((nonce1, nonce2), c2)) => seal_error(key1@, plaintext@.len() as int) is None
                && seal_error(key2@, plaintext@.len() as int + 16) is None && nonce1@.len() == NONCE_LEN
                && nonce2@.len() == NONCE_LEN && c2@ == gcm_seal(
                key2@,
                nonce2@,
                gcm_seal(key1@, nonce1@, plaintext@),
            ),
            Err(e) => match seal_error(key1@, plaintext@.len() as int) {
                Some(e1) => e == e1,
                None => seal_error(key2@, plaintext@.len() as int + 16) == Some(e),
            },
        },
{
    let (nonce1, ciphertext1) = match encrypt(key1, plaintext) {
        Ok(v) => v,
        Err(e) => return Err(e),
    };
    let (nonce2, ciphertext2) = match encrypt(key2, ciphertext1.as_slice()) {
        Ok(v) => v,
        Err(e) => return Err(e),
    };
    Ok(((nonce1, nonce2), ciphertext2))
}

/// Decrypts a `(nonce, ciphertext)` pair under `key`.
pub fn decrypt(key: &[u8], table: (&Vec<u8>, &Vec<u8>)) -> (r: Result<Vec<u8>, CryptoError>)
    ensures
        bytes_result(r) == open_spec(key@, table.0@, table.1@),
{
    let (nonce, ciphertext) = table;
    if key.len() != KEY_LEN {
        return Err(CryptoError::InvalidKeyLength);
    }
    if nonce.len() != NONCE_LEN {
        return Err(CryptoError::InvalidNonceLength);
    }
    match aes128_gcm_open(key, nonce.as_slice(), ciphertext.as_slice()) {
        Ok(p) => Ok(p),
        Err(_) => Err(CryptoError::DecryptionFailed),
    }
}

/// Undoes `double_encrypt`: decrypts under `key2`, then the result under `key1`.
pub fn double_decrypt(key1: &[u8], key2: &[u8], sealed: &((Vec<u8>, Vec<u8>), Vec<u8>)) -> (r:
    Result<Vec<u8>, CryptoError>)
    ensures
        bytes_result(r) == match open_spec(key2@, sealed.0.1@, sealed.1@) {
            Ok(c1) => open_spec(key1@, sealed.0.0@, c1),
            Err(e) => Err(e),
        },
{
    let ((nonce1, nonce2), ciphertext2) = sealed;
    let ciphertext1 = match decrypt(key2, (nonce2, ciphertext2)) {
        Ok(v) => v,
        Err(e) => return Err(e),
    };
    decrypt(key1, (nonce1, &ciphertext1))
}

} // verus!
