//! Sealing of the persisted state: a key derived from the application secret,
//! AES-256-GCM with a fresh random nonce, and Base64 text for storage.

use vstd::prelude::*;
use vstd::utf8::*;

use aes_gcm::aead::Aead;
use aes_gcm::aead::KeyInit;
use base64::Engine;
use rand::RngCore;

use crate::state::AppState;

verus! {

broadcast use {encode_utf8_valid_utf8, encode_utf8_decode_utf8};

/// The number of PBKDF2 rounds used to derive the state key.
pub const PBKDF2_ITERATIONS: u32 = 100_000;

/// The length in bytes of an AES-GCM nonce.
pub const NONCE_LEN: usize = 12;

/// The longest plaintext that AES-256-GCM seals (2^36 bytes).
pub open spec fn aes_gcm_max_plaintext() -> nat {
    0x10_0000_0000
}

/// The length of the padded Base64 text of `n` bytes.
pub open spec fn base64_len(n: nat) -> nat {
    (n / 3) * 4 + if n % 3 == 0 {
        0nat
    } else {
        4nat
    }
}

/// The 32-byte output of PBKDF2 with HMAC-SHA256 over `password` and `salt`.
pub uninterp spec fn pbkdf2_hmac_sha256(password: Seq<u8>, salt: Seq<u8>, rounds: u32) -> Seq<u8>;

/// The AES-256-GCM ciphertext (with its 16-byte tag) of `plaintext`.
pub uninterp spec fn aes256_gcm_seal(key: Seq<u8>, nonce: Seq<u8>, plaintext: Seq<u8>) -> Seq<u8>;

/// The plaintext that AES-256-GCM authenticates and recovers from `ciphertext`, if any.
pub uninterp spec fn aes256_gcm_open(key: Seq<u8>, nonce: Seq<u8>, ciphertext: Seq<u8>) -> Option<
    Seq<u8>,
>;

/// The standard padded Base64 text of `data`.
pub uninterp spec fn base64_encoding(data: Seq<u8>) -> Seq<char>;

/// The bytes that the standard padded Base64 text `text` (given as bytes) decodes to, if any.
pub uninterp spec fn base64_decoding(text: Seq<u8>) -> Option<Seq<u8>>;

/// The error type of the AEAD interface of `aes-gcm`.
#[verifier::external_type_specification]
#[verifier::external_body]
pub struct ExAeadError(aes_gcm::Error);

/// The error type of Base64 decoding.
#[verifier::external_type_specification]
#[verifier::external_body]
pub struct ExBase64DecodeError(base64::DecodeError);

/// Calls `pbkdf2::pbkdf2_hmac::<sha2::Sha256>` to fill a 32-byte key. Claimed: the
/// key is a function of password, salt and rounds alone (named `pbkdf2_hmac_sha256`).
#[verifier::external_body]
fn pbkdf2_sha256_key(password: &[u8], salt: &[u8], rounds: u32) -> (key: [u8; 32])
    ensures
        key@ == pbkdf2_hmac_sha256(password@, salt@, rounds),
{
    let mut key = [0u8; 32];
    pbkdf2::pbkdf2_hmac::<sha2::Sha256>(password, salt, rounds, &mut key);
    key
}

/// Calls `rand::rng().fill_bytes` on a 12-byte buffer. Claimed: only the length of
/// the result; its bytes come from the thread's random generator.
#[verifier::external_body]
fn random_nonce() -> (nonce: Vec<u8>)
    ensures
        nonce.len() == NONCE_LEN,
{
    let mut nonce = vec![0u8; 12];
    rand::rng().fill_bytes(&mut nonce);
    nonce
}

/// Calls `Aead::encrypt` of `aes_gcm::Aes256Gcm`. Claimed: it succeeds exactly when
/// the plaintext is at most 2^36 bytes (the only check before sealing); the
/// ciphertext is the plaintext's length plus the 16-byte tag, is a function of key,
/// nonce and plaintext (`aes256_gcm_seal`), and opens under the same key and nonce
/// to the plaintext (AEAD correctness).
#[verifier::external_body]
fn aes256_gcm_encrypt(key: &[u8; 32], nonce: &[u8], plaintext: &[u8]) -> (r: Result<
    Vec<u8>,
    aes_gcm::Error,
>)
    requires
        nonce.len() == NONCE_LEN,
        plaintext.len() + 16 <= isize::MAX,
    ensures
        r is Ok <==> plaintext.len() <= aes_gcm_max_plaintext(),
        r matches Ok(c) ==> c@ == aes256_gcm_seal(key@, nonce@, plaintext@) && c.len()
            == plaintext.len() + 16,
        r matches Ok(c) ==> aes256_gcm_open(key@, nonce@, c@) == Some(plaintext@),
{
    let cipher = aes_gcm::Aes256Gcm::new(aes_gcm::Key::<aes_gcm::Aes256Gcm>::from_slice(key));
    cipher.encrypt(aes_gcm::Nonce::from_slice(nonce), plaintext)
}

/// Calls `Aead::decrypt` of `aes_gcm::Aes256Gcm`. Claimed: it succeeds exactly when
/// `aes256_gcm_open` gives a plaintext, and then returns it.
#[verifier::external_body]
fn aes256_gcm_decrypt(key: &[u8; 32], nonce: &[u8], ciphertext: &[u8]) -> (r: Result<
    Vec<u8>,
    aes_gcm::Error,
>)
    requires
        nonce.len() == NONCE_LEN,
    ensures
        r is Ok <==> aes256_gcm_open(key@, nonce@, ciphertext@) is Some,
        r matches Ok(p) ==> aes256_gcm_open(key@, nonce@, ciphertext@) == Some(p@),
{
    let cipher = aes_gcm::Aes256Gcm::new(aes_gcm::Key::<aes_gcm::Aes256Gcm>::from_slice(key));
    cipher.decrypt(aes_gcm::Nonce::from_slice(nonce), ciphertext)
}

/// Calls `Engine::encode` of `base64::engine::general_purpose::STANDARD`. Claimed:
/// the text is a function of the data (`base64_encoding`), and decoding its bytes
/// gives the data back (the documented round trip).
#[verifier::external_body]
fn base64_encode(data: &[u8]) -> (text: String)
    requires
        base64_len(data.len() as nat) <= isize::MAX,
    ensures
        text@ == base64_encoding(data@),
        base64_decoding(encode_utf8(text@)) == Some(data@),
{
    base64::engine::general_purpose::STANDARD.encode(data)
}

/// Calls `Engine::decode` of `base64::engine::general_purpose::STANDARD` on the
/// bytes of `text`. Claimed: it succeeds exactly when `base64_decoding` gives bytes,
/// and then returns them.
#[verifier::external_body]
fn base64_decode(text: &str) -> (r: Result<Vec<u8>, base64::DecodeError>)
    ensures
        r is Ok <==> base64_decoding(encode_utf8(text@)) is Some,
        r matches Ok(d) ==> base64_decoding(encode_utf8(text@)) == Some(d@),
{
    base64::engine::general_purpose::STANDARD.decode(text)
}

/// Calls `String::from_utf8`. Claimed (std documentation): it succeeds exactly on
/// valid UTF-8, and then the string is the decoding of the bytes.
#[verifier::external_body]
fn utf8_string(bytes: Vec<u8>) -> (r: Option<String>)
    ensures
        r is Some <==> valid_utf8(bytes@),
        r matches Some(s) ==> s@ == decode_utf8(bytes@),
{
    String::from_utf8(bytes).ok()
}

/// Derives the 32-byte state key from the application secret, salted with the
/// per-machine `salt_source` text, by PBKDF2-HMAC-SHA256 over `PBKDF2_ITERATIONS` rounds.
pub fn get_encryption_key(app_secret: &[u8], salt_source: &str) -> (key: [u8; 32])
    ensures
        key@ == pbkdf2_hmac_sha256(app_secret@, encode_utf8(salt_source@), PBKDF2_ITERATIONS),
{
    pbkdf2_sha256_key(app_secret, salt_source.as_bytes(), PBKDF2_ITERATIONS)
}

/// Encrypts `data` under `key` with a fresh random 12-byte nonce; returns the
/// ciphertext and the nonce.
pub fn encrypt_data(data: &[u8], key: &[u8; 32]) -> (r: Result<(Vec<u8>, Vec<u8>), String>)
    requires
        data.len() + 16 <= isize::MAX,
    ensures
        r is Ok <==> data.len() <= aes_gcm_max_plaintext(),
        r matches Ok((c, n)) ==> n.len() == NONCE_LEN && c@ == aes256_gcm_seal(key@, n@, data@)
            && c.len() == data.len() + 16 && aes256_gcm_open(key@, n@, c@) == Some(data@),
        r matches Err(m) ==> m@ == "Encryption error: Error"@,
{
    let nonce = random_nonce();
    match aes256_gcm_encrypt(key, nonce.as_slice(), data) {
        Ok(c) => Ok((c, nonce)),
        Err(_) => Err("Encryption error: Error".to_owned()),
    }
}

/// Decrypts `encrypted_data` under `key` and `nonce_bytes`.
pub fn decrypt_data(encrypted_data: &[u8], nonce_bytes: &[u8], key: &[u8; 32]) -> (r: Result<
    Vec<u8>,
    String,
>)
    requires
        nonce_bytes.len() == NONCE_LEN,
    ensures
        r is Ok <==> aes256_gcm_open(key@, nonce_bytes@, encrypted_data@) is Some,
        r matches Ok(p) ==> aes256_gcm_open(key@, nonce_bytes@, encrypted_data@) == Some(p@),
        r matches Err(m) ==> m@ == "Decryption error: Error"@,
{
    match aes256_gcm_decrypt(key, nonce_bytes, encrypted_data) {
        Ok(p) => Ok(p),
        Err(_) => Err("Decryption error: Error".to_owned()),
    }
}

/// The sealed form of the state as stored on disk: Base64 ciphertext and nonce.
#[derive(Debug)]
pub struct EncryptedState {
    pub data: String,
    pub nonce: String,
}

/// What opening a sealed state gives.
#[derive(Debug)]
pub enum Unsealed {
    /// The ciphertext is not Base64: the stored state is given up.
    DataNotBase64,
    /// The nonce is not Base64: the stored state is given up.
    NonceNotBase64,
    /// The ciphertext does not authenticate under the key.
    Undecryptable,
    /// The plaintext is not UTF-8.
    NotUtf8,
    /// The serialized state.
    Plaintext(String),
}

/// The mathematical value of an opening.
pub enum UnsealedView {
    DataNotBase64,
    NonceNotBase64,
    Undecryptable,
    NotUtf8,
    Plaintext(Seq<char>),
}

impl View for Unsealed {
    type V = UnsealedView;

    open spec fn view(&self) -> UnsealedView {
        match self {
            Unsealed::DataNotBase64 => UnsealedView::DataNotBase64,
            Unsealed::NonceNotBase64 => UnsealedView::NonceNotBase64,
            Unsealed::Undecryptable => UnsealedView::Undecryptable,
            Unsealed::NotUtf8 => UnsealedView::NotUtf8,
            Unsealed::Plaintext(s) => UnsealedView::Plaintext(s@),
        }
    }
}

/// The opening of Base64 ciphertext `data` and nonce `nonce` under `key`, step by step.
pub open spec fn unseal_outcome(data: Seq<char>, nonce: Seq<char>, key: Seq<u8>) -> UnsealedView {
    match base64_decoding(encode_utf8(data)) {
        None => UnsealedView::DataNotBase64,
        Some(d) => match base64_decoding(encode_utf8(nonce)) {
            None => UnsealedView::NonceNotBase64,
            Some(n) => match aes256_gcm_open(key, n, d) {
                None => UnsealedView::Undecryptable,
                Some(p) => if valid_utf8(p) {
                    UnsealedView::Plaintext(decode_utf8(p))
                } else {
                    UnsealedView::NotUtf8
                },
            },
        },
    }
}

/// Whether the nonce of a sealed state with decodable ciphertext decodes to the
/// length that AES-GCM takes (decrypting with another length cannot proceed).
pub open spec fn nonce_fits(data: Seq<char>, nonce: Seq<char>) -> bool {
    base64_decoding(encode_utf8(data)) is Some ==> (base64_decoding(encode_utf8(nonce)) matches Some(
        n,
    ) ==> n.len() == NONCE_LEN)
}

/// Seals serialized state `plaintext` under `key`: encrypts its UTF-8 bytes with a
/// fresh nonce and encodes ciphertext and nonce as Base64. A sealed state opens
/// under the same key to the same plaintext.
pub fn seal_state(plaintext: &str, key: &[u8; 32]) -> (r: Result<EncryptedState, String>)
    requires
        plaintext.len() + 16 <= isize::MAX,
        plaintext.len() <= aes_gcm_max_plaintext() ==> base64_len((plaintext.len() + 16) as nat)
            <= isize::MAX,
    ensures
        r is Ok <==> plaintext.len() <= aes_gcm_max_plaintext(),
        r matches Ok(e) ==> exists|n: Seq<u8>|
            n.len() == NONCE_LEN && e.nonce@ == base64_encoding(n) && e.data@ == base64_encoding(
                aes256_gcm_seal(key@, n, encode_utf8(plaintext@)),
            ) && base64_decoding(encode_utf8(e.nonce@)) == Some(n) && base64_decoding(
                encode_utf8(e.data@),
            ) == Some(aes256_gcm_seal(key@, n, encode_utf8(plaintext@))),
        r matches Ok(e) ==> nonce_fits(e.data@, e.nonce@),
        r matches Ok(e) ==> unseal_outcome(e.data@, e.nonce@, key@) == UnsealedView::Plaintext(
            plaintext@,
        ),
        r matches Err(m) ==> m@ == "Encryption error: Error"@,
{
    let bytes = plaintext.as_bytes();
    match encrypt_data(bytes, key) {
        Ok((ciphertext, nonce)) => {
            let data = base64_encode(ciphertext.as_slice());
            let nonce_text = base64_encode(nonce.as_slice());
            let e = EncryptedState { data: data, nonce: nonce_text };
            assert(unseal_outcome(e.data@, e.nonce@, key@) == UnsealedView::Plaintext(plaintext@));
            Ok(e)
        },
        Err(m) => Err(m),
    }
}

/// Opens sealed state `enc` under `key`: decodes ciphertext and nonce, decrypts,
/// and reads the plaintext as UTF-8, stopping at the first step that fails.
pub fn open_state(enc: &EncryptedState, key: &[u8; 32]) -> (r: Unsealed)
    requires
        nonce_fits(enc.data@, enc.nonce@),
    ensures
        r@ == unseal_outcome(enc.data@, enc.nonce@, key@),
{
    let data = match base64_decode(enc.data.as_str()) {
        Ok(d) => d,
        Err(_) => {
            return Unsealed::DataNotBase64;
        },
    };
    let nonce = match base64_decode(enc.nonce.as_str()) {
        Ok(n) => n,
        Err(_) => {
            return Unsealed::NonceNotBase64;
        },
    };
    match decrypt_data(data.as_slice(), nonce.as_slice(), key) {
        Ok(p) => match utf8_string(p) {
            Some(s) => Unsealed::Plaintext(s),
            None => Unsealed::NotUtf8,
        },
        Err(_) => Unsealed::Undecryptable,
    }
}

/// Opens sealed state `enc` under `key` as `open_state` does, after checking that
/// its nonce fits; returns `None` where it does not (decryption cannot proceed).
pub fn try_open_state(enc: &EncryptedState, key: &[u8; 32]) -> (r: Option<Unsealed>)
    ensures
        r is None <==> !nonce_fits(enc.data@, enc.nonce@),
        r matches Some(u) ==> u@ == unseal_outcome(enc.data@, enc.nonce@, key@),
{
    match base64_decode(enc.data.as_str()) {
        Err(_) => {},
        Ok(_) => match base64_decode(enc.nonce.as_str()) {
            Err(_) => {},
            Ok(n) => {
                if n.len() != NONCE_LEN {
                    return None;
                }
            },
        },
    }
    Some(open_state(enc, key))
}

/// The next step in loading the stored state from file contents.
pub enum LoadStep {
    /// Loading ends with this result.
    Finished(Option<AppState>),
    /// The contents are to be read as an unsealed state instead.
    FallBackToPlaintext,
}

/// Decides how loading goes on. `unsealed` is the opening of the contents read as
/// a sealed state (`None` if they are not one); `decoded` is the state read from
/// the opened plaintext, if that succeeded. A sealed state with non-Base64 parts
/// gives nothing; a decoded state is the result; any other failure falls back to
/// reading the contents as an unsealed state.
pub fn next_load_step(unsealed: Option<Unsealed>, decoded: Option<AppState>) -> (step: LoadStep)
    ensures
        match unsealed {
            None => step is FallBackToPlaintext,
            Some(Unsealed::DataNotBase64) => step matches LoadStep::Finished(None),
            Some(Unsealed::NonceNotBase64) => step matches LoadStep::Finished(None),
            Some(Unsealed::Undecryptable) => step is FallBackToPlaintext,
            Some(Unsealed::NotUtf8) => step is FallBackToPlaintext,
            Some(Unsealed::Plaintext(_)) => match decoded {
                Some(s) => step == LoadStep::Finished(Some(s)),
                None => step is FallBackToPlaintext,
            },
        },
{
    match unsealed {
        None => LoadStep::FallBackToPlaintext,
        Some(Unsealed::DataNotBase64) => LoadStep::Finished(None),
        Some(Unsealed::NonceNotBase64) => LoadStep::Finished(None),
        Some(Unsealed::Undecryptable) => LoadStep::FallBackToPlaintext,
        Some(Unsealed::NotUtf8) => LoadStep::FallBackToPlaintext,
        Some(Unsealed::Plaintext(_)) => match decoded {
            Some(s) => LoadStep::Finished(Some(s)),
            None => LoadStep::FallBackToPlaintext,
        },
    }
}

} // verus!
