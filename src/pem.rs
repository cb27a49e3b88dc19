use vstd::prelude::*;
use vstd::string::StringSliceAdditionalSpecFns;

use aes_gcm::aead::{Aead, NewAead};
use argon2::password_hash::PasswordHasher;

verus! {

/// How the PEM file of an identity is encrypted.
#[derive(Debug)]
pub struct EncryptionConfiguration {
    /// Salt of the password hash, in base64.
    pub pw_salt: String,
    /// Nonce of the file encryption.
    pub file_nonce: Vec<u8>,
}

/// The part of an identity's configuration that decides how its PEM file is
/// stored.
#[derive(Debug)]
pub struct IdentityConfiguration {
    pub encryption: Option<EncryptionConfiguration>,
}

/// Why a PEM file could not be encrypted or decrypted.
#[derive(Debug)]
pub enum EncryptionError {
    /// The password could not be hashed into a key.
    HashPasswordFailed(String),
    /// The nonce does not have the length the cipher takes.
    InvalidNonceLength(usize),
    EncryptContentFailed(),
    DecryptContentFailed(),
    /// The configuration asks for a password and none was given.
    PasswordRequired(),
}

/// The key that Argon2id, version 0x13, derives from `password` and the
/// base64 salt `salt`, with memory cost `m` (in KiB), `t` iterations,
/// parallelism `p` and a `len`-byte output; `None` when the parameters or
/// the salt are refused.
pub uninterp spec fn argon2id_key(
    password: Seq<u8>,
    salt: Seq<char>,
    m: u32,
    t: u32,
    p: u32,
    len: usize,
) -> Option<Seq<u8>>;

/// AES-256-GCM encryption of `plaintext` under `key` and `nonce`, if it
/// succeeds.
pub uninterp spec fn aes256_gcm_sealed(key: Seq<u8>, nonce: Seq<u8>, plaintext: Seq<u8>) -> Option<
    Seq<u8>,
>;

/// AES-256-GCM decryption of `ciphertext` under `key` and `nonce`, if it
/// authenticates.
pub uninterp spec fn aes256_gcm_opened(key: Seq<u8>, nonce: Seq<u8>, ciphertext: Seq<u8>) -> Option<
    Seq<u8>,
>;

/// Relies on `argon2::Argon2::hash_password`, with an Argon2id, version
/// 0x13 hasher built from `argon2::Params::new(m, t, p, Some(len))`: the
/// hash output depends on the arguments alone.
#[verifier::external_body]
fn hash_password(password: &[u8], salt: &str, m: u32, t: u32, p: u32, len: usize) -> (r: Result<
    Vec<u8>,
    String,
>)
    ensures
        r is Ok <==> argon2id_key(password@, salt@, m, t, p, len) is Some,
        r matches Ok(k) ==> argon2id_key(password@, salt@, m, t, p, len) == Some(k@),
{
    let params = argon2::Params::new(m, t, p, Some(len)).map_err(|e| e.to_string())?;
    let hasher = argon2::Argon2::new(argon2::Algorithm::Argon2id, argon2::Version::V0x13, params);
    let hash = hasher.hash_password(password, salt).map_err(|e| e.to_string())?;
    hash.hash.map(|h| h.as_bytes().to_vec()).ok_or_else(|| "no hash output".to_string())
}

/// Relies on `aes_gcm::Aes256Gcm::encrypt`: the ciphertext depends on the
/// arguments alone. `Key` and `Nonce` panic on other lengths than 32 and
/// 12, which the `requires` leaves out.
#[verifier::external_body]
fn seal(key: &[u8], nonce: &[u8], plaintext: &[u8]) -> (r: Option<Vec<u8>>)
    requires
        key@.len() == 32,
        nonce@.len() == 12,
    ensures
        r is Some <==> aes256_gcm_sealed(key@, nonce@, plaintext@) is Some,
        r matches Some(c) ==> aes256_gcm_sealed(key@, nonce@, plaintext@) == Some(c@),
{
    let cipher = aes_gcm::Aes256Gcm::new(&aes_gcm::Key::clone_from_slice(key));
    cipher.encrypt(aes_gcm::Nonce::from_slice(nonce), plaintext).ok()
}

/// Relies on `aes_gcm::Aes256Gcm::decrypt`: the plaintext depends on the
/// arguments alone. `Key` and `Nonce` panic on other lengths than 32 and
/// 12, which the `requires` leaves out.
#[verifier::external_body]
fn open(key: &[u8], nonce: &[u8], ciphertext: &[u8]) -> (r: Option<Vec<u8>>)
    requires
        key@.len() == 32,
        nonce@.len() == 12,
    ensures
        r is Some <==> aes256_gcm_opened(key@, nonce@, ciphertext@) is Some,
        r matches Some(c) ==> aes256_gcm_opened(key@, nonce@, ciphertext@) == Some(c@),
{
    let cipher = aes_gcm::Aes256Gcm::new(&aes_gcm::Key::clone_from_slice(key));
    cipher.decrypt(aes_gcm::Nonce::from_slice(nonce), ciphertext).ok()
}

pub open spec fn argon_m_cost() -> u32 {
    64000
}

pub open spec fn argon_t_cost() -> u32 {
    3
}

pub open spec fn argon_p_cost() -> u32 {
    1
}

pub open spec fn key_length() -> usize {
    32
}

pub open spec fn nonce_length() -> usize {
    12
}

/// The key derived from `password` under `config`.
pub open spec fn file_key(config: EncryptionConfiguration, password: Seq<u8>) -> Option<Seq<u8>> {
    argon2id_key(password, config.pw_salt@, argon_m_cost(), argon_t_cost(), argon_p_cost(), key_length())
}

/// What encrypting (`seal_mode`) or decrypting `content` with `password`
/// under `config` gives.
pub open spec fn crypt_outcome(
    config: EncryptionConfiguration,
    password: Seq<u8>,
    content: Seq<u8>,
    seal_mode: bool,
    r: Result<Vec<u8>, EncryptionError>,
) -> bool {
    match file_key(config, password) {
        None => r matches Err(EncryptionError::HashPasswordFailed(_)),
        Some(k) => if k.len() != key_length() {
            r matches Err(EncryptionError::HashPasswordFailed(_))
        } else if config.file_nonce@.len() != nonce_length() {
            r matches Err(EncryptionError::InvalidNonceLength(n)) && n == config.file_nonce@.len()
        } else if seal_mode {
            match aes256_gcm_sealed(k, config.file_nonce@, content) {
                Some(c) => r matches Ok(v) && v@ == c,
                None => r matches Err(EncryptionError::EncryptContentFailed()),
            }
        } else {
            match aes256_gcm_opened(k, config.file_nonce@, content) {
                Some(c) => r matches Ok(v) && v@ == c,
                None => r matches Err(EncryptionError::DecryptContentFailed()),
            }
        },
    }
}

fn derive_key(config: &EncryptionConfiguration, password: &str) -> (r: Result<
    Vec<u8>,
    EncryptionError,
>)
    ensures
        r matches Ok(k) ==> file_key(*config, password.spec_bytes()) == Some(k@) && k@.len()
            == key_length(),
        r is Ok <==> (file_key(*config, password.spec_bytes()) matches Some(k) && k.len()
            == key_length()),
        r matches Err(e) ==> e is HashPasswordFailed,
{
    match hash_password(password.as_bytes(), config.pw_salt.as_str(), 64000, 3, 1, 32) {
        Ok(k) => {
            if k.len() == 32 {
                Ok(k)
            } else {
                Err(EncryptionError::HashPasswordFailed(String::from_str("unexpected key length")))
            }
        },
        Err(msg) => Err(EncryptionError::HashPasswordFailed(msg)),
    }
}

/// Encrypts `content` with the key derived from `password` under `config`.
pub fn encrypt(content: &[u8], config: &EncryptionConfiguration, password: &str) -> (r: Result<
    Vec<u8>,
    EncryptionError,
>)
    ensures
        crypt_outcome(*config, password.spec_bytes(), content@, true, r),
{
    let key = derive_key(config, password)?;
    if config.file_nonce.len() != 12 {
        return Err(EncryptionError::InvalidNonceLength(config.file_nonce.len()));
    }
    match seal(key.as_slice(), config.file_nonce.as_slice(), content) {
        Some(c) => Ok(c),
        None => Err(EncryptionError::EncryptContentFailed()),
    }
}

/// Decrypts `encrypted_content` with the key derived from `password` under
/// `config`.
pub fn decrypt(encrypted_content: &[u8], config: &EncryptionConfiguration, password: &str) -> (r:
    Result<Vec<u8>, EncryptionError>)
    ensures
        crypt_outcome(*config, password.spec_bytes(), encrypted_content@, false, r),
{
    let key = derive_key(config, password)?;
    if config.file_nonce.len() != 12 {
        return Err(EncryptionError::InvalidNonceLength(config.file_nonce.len()));
    }
    match open(key.as_slice(), config.file_nonce.as_slice(), encrypted_content) {
        Some(c) => Ok(c),
        None => Err(EncryptionError::DecryptContentFailed()),
    }
}

pub open spec fn encryption_of(config: Option<&IdentityConfiguration>) -> Option<
    EncryptionConfiguration,
> {
    match config {
        Some(c) => c.encryption,
        None => None,
    }
}

/// Whether storing or loading a PEM file under `config` asks the user for
/// a password.
pub fn needs_password(config: Option<&IdentityConfiguration>) -> (r: bool)
    ensures
        r == encryption_of(config) is Some,
{
    match config {
        Some(c) => c.encryption.is_some(),
        None => false,
    }
}

/// The bytes to store for `pem_content`: encrypted with `password` when
/// `config` asks for encryption, unchanged otherwise.
pub fn maybe_encrypt_pem(
    pem_content: &[u8],
    config: Option<&IdentityConfiguration>,
    password: Option<&str>,
) -> (r: Result<Vec<u8>, EncryptionError>)
    ensures
        match encryption_of(config) {
            None => r matches Ok(v) && v@ == pem_content@,
            Some(e) => match password {
                None => r matches Err(EncryptionError::PasswordRequired()),
                Some(p) => crypt_outcome(e, p.spec_bytes(), pem_content@, true, r),
            },
        },
{
    match config {
        Some(c) => match &c.encryption {
            Some(e) => match password {
                Some(p) => encrypt(pem_content, e, p),
                None => Err(EncryptionError::PasswordRequired()),
            },
            None => Ok(crate::principal::copy_bytes(pem_content)),
        },
        None => Ok(crate::principal::copy_bytes(pem_content)),
    }
}

/// The PEM content of stored bytes, and whether they were encrypted:
/// decrypted with `password` when `config` says they are encrypted,
/// unchanged otherwise.
pub fn maybe_decrypt_pem(
    pem_content: &[u8],
    config: Option<&IdentityConfiguration>,
    password: Option<&str>,
) -> (r: Result<(Vec<u8>, bool), EncryptionError>)
    ensures
        match encryption_of(config) {
            None => r matches Ok((v, was)) && v@ == pem_content@ && !was,
            Some(e) => match password {
                None => r matches Err(EncryptionError::PasswordRequired()),
                Some(p) => match r {
                    Ok((v, was)) => was && crypt_outcome(e, p.spec_bytes(), pem_content@, false, Ok(v)),
                    Err(err) => crypt_outcome(e, p.spec_bytes(), pem_content@, false, Err(err)),
                },
            },
        },
{
    match config {
        Some(c) => match &c.encryption {
            Some(e) => match password {
                Some(p) => {
                    let pem = decrypt(pem_content, e, p)?;
                    Ok((pem, true))
                },
                None => Err(EncryptionError::PasswordRequired()),
            },
            None => Ok((crate::principal::copy_bytes(pem_content), false)),
        },
        None => Ok((crate::principal::copy_bytes(pem_content), false)),
    }
}

} // verus!
