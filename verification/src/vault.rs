use vstd::prelude::*;
use vstd::utf8::{decode_utf8, encode_utf8, valid_utf8};
use aes_gcm::{aead::Aead, aead::OsRng, AeadCore, Aes256Gcm, KeyInit, Nonce};
use base64::{engine::general_purpose, Engine as _};
use sha2::{Digest, Sha256};
use crate::error::StoreError;

verus! {

/// The SHA-256 digest of a byte sequence.
pub uninterp spec fn sha256_of(bytes: Seq<u8>) -> Seq<u8>;

/// The AES-256-GCM sealing (ciphertext with postfix tag) of a plaintext
/// under a key and nonce.
pub uninterp spec fn seal_of(key: Seq<u8>, nonce: Seq<u8>, pt: Seq<u8>) -> Seq<u8>;

/// The AES-256-GCM opening of a ciphertext under a key and nonce: the
/// plaintext when the authentication tag checks out, nothing otherwise.
pub uninterp spec fn open_of(key: Seq<u8>, nonce: Seq<u8>, ct: Seq<u8>) -> Option<Seq<u8>>;

/// The standard base64 encoding of a byte sequence.
pub uninterp spec fn b64_of(bytes: Seq<u8>) -> Seq<char>;

/// The standard base64 decoding of a string: the bytes when the string is
/// well-formed base64, nothing otherwise.
pub uninterp spec fn b64_decode_of(s: Seq<char>) -> Option<Seq<u8>>;

/// Relies on sha2's `Sha256`: one digest over the concatenation of the two
/// inputs, exactly 32 bytes, a function of the input bytes alone.
#[verifier::external_body]
fn sha256_two(a: &[u8], b: &[u8]) -> (r: Vec<u8>)
    ensures
        r@ == sha256_of(a@ + b@),
        r@.len() == 32,
{
    let mut hasher = Sha256::new();
    hasher.update(a);
    hasher.update(b);
    hasher.finalize().to_vec()
}

/// Relies on machine_uid::get: a stable identifier of this machine, absent
/// when the platform lookup fails. Nothing is assumed of the value.
#[verifier::external_body]
fn machine_uid_raw() -> (r: Option<String>) {
    machine_uid::get().ok()
}

/// Relies on aes_gcm's `AeadCore::generate_nonce` with `OsRng`: 96 random
/// bits. Nothing is assumed of the value beyond its length.
#[verifier::external_body]
fn fresh_nonce() -> (r: Vec<u8>)
    ensures
        r@.len() == 12,
{
    Aes256Gcm::generate_nonce(&mut OsRng).to_vec()
}

/// Relies on aes_gcm's `Aead::encrypt` (AES-256-GCM, postfix tag): the
/// ciphertext is a function of key, nonce and plaintext, and decrypting it
/// with the same key and nonce yields the plaintext back.
#[verifier::external_body]
fn aes_seal(key: &[u8], nonce: &[u8], pt: &[u8]) -> (r: Option<Vec<u8>>)
    requires
        key@.len() == 32,
        nonce@.len() == 12,
    ensures
        match r {
            Some(ct) => ct@ == seal_of(key@, nonce@, pt@) && open_of(key@, nonce@, ct@) == Some(
                pt@,
            ),
            None => true,
        },
{
    let cipher = match Aes256Gcm::new_from_slice(key) {
        Ok(c) => c,
        Err(_) => {
            return None;
        },
    };
    cipher.encrypt(Nonce::from_slice(nonce), pt).ok()
}

/// Relies on aes_gcm's `Aead::decrypt`: returns the sealed plaintext
/// exactly when the key, nonce and authentication tag check out.
#[verifier::external_body]
fn aes_open(key: &[u8], nonce: &[u8], ct: &[u8]) -> (r: Option<Vec<u8>>)
    requires
        key@.len() == 32,
        nonce@.len() == 12,
    ensures
        match r {
            Some(pt) => open_of(key@, nonce@, ct@) == Some(pt@),
            None => open_of(key@, nonce@, ct@) is None,
        },
{
    let cipher = match Aes256Gcm::new_from_slice(key) {
        Ok(c) => c,
        Err(_) => {
            return None;
        },
    };
    cipher.decrypt(Nonce::from_slice(nonce), ct).ok()
}

/// Relies on base64's `STANDARD` engine encode, and on decode inverting it.
#[verifier::external_body]
fn b64_encode(bytes: &[u8]) -> (r: String)
    ensures
        r@ == b64_of(bytes@),
        b64_decode_of(r@) == Some(bytes@),
{
    general_purpose::STANDARD.encode(bytes)
}

/// Relies on base64's `STANDARD` engine decode: bytes exactly when the
/// input is well-formed base64.
#[verifier::external_body]
fn b64_decode(s: &str) -> (r: Option<Vec<u8>>)
    ensures
        match r {
            Some(b) => b64_decode_of(s@) == Some(b@),
            None => b64_decode_of(s@) is None,
        },
{
    general_purpose::STANDARD.decode(s).ok()
}

/// Relies on `String::from_utf8` per its documentation: the decoded string
/// exactly when the bytes are valid UTF-8.
#[verifier::external_body]
fn bytes_to_string(v: Vec<u8>) -> (r: Option<String>)
    ensures
        match r {
            Some(s) => valid_utf8(v@) && s@ == decode_utf8(v@),
            None => !valid_utf8(v@),
        },
{
    String::from_utf8(v).ok()
}

/// Copies the byte range `[a, b)` out of a vector.
fn vec_subrange(v: &Vec<u8>, a: usize, b: usize) -> (r: Vec<u8>)
    requires
        a <= b <= v@.len(),
    ensures
        r@ == v@.subrange(a as int, b as int),
{
    let mut out: Vec<u8> = Vec::new();
    for i in a..b
        invariant
            a <= b <= v@.len(),
            out@ == v@.subrange(a as int, i as int),
    {
        out.push(v[i]);
        proof {
            assert(v@.subrange(a as int, i + 1) =~= v@.subrange(a as int, i as int).push(
                v@[i as int],
            ));
        }
    }
    out
}

/// The fixed application identifier the encryption key is derived from.
pub open spec fn app_tag() -> Seq<char> {
    "com.dsotiriou.ai-pm-ide"@
}

/// What decrypting a stored ciphertext string under a key yields: the
/// plaintext, or the first failure along base64, authentication, UTF-8.
pub open spec fn vault_decrypt_spec(c: Seq<char>, key: Seq<u8>) -> Result<Seq<char>, StoreError> {
    match b64_decode_of(c) {
        Option::None => Result::Err(StoreError::Base64Malformed),
        Option::Some(bytes) => {
            if bytes.len() < 12 {
                Result::Err(StoreError::Base64Malformed)
            } else {
                match open_of(key, bytes.take(12), bytes.skip(12)) {
                    Option::None => Result::Err(StoreError::DecryptFailed),
                    Option::Some(pt) => {
                        if valid_utf8(pt) {
                            Result::Ok(decode_utf8(pt))
                        } else {
                            Result::Err(StoreError::NotUtf8)
                        }
                    },
                }
            }
        },
    }
}

/// The plaintext a ciphertext string opens to, when it opens at all.
pub open spec fn vault_opens_to(c: Seq<char>, key: Seq<u8>) -> Option<Seq<char>> {
    match vault_decrypt_spec(c, key) {
        Result::Ok(s) => Option::Some(s),
        Result::Err(_) => Option::None,
    }
}

/// Law: a ciphertext that opens to some plaintext is decrypted to exactly
/// that plaintext, whatever was stored and however the key was obtained.
pub proof fn lemma_vault_round_trip(c: Seq<char>, key: Seq<u8>, pt: Seq<char>)
    requires
        vault_opens_to(c, key) == Option::Some(pt),
    ensures
        vault_decrypt_spec(c, key) == Result::<Seq<char>, StoreError>::Ok(pt),
{
}

/// What the vault uses as the machine identifier: the platform's value
/// when the lookup succeeded, and the fixed placeholder when it failed,
/// so that key derivation still succeeds and stays stable across
/// restarts on the same host.
pub fn identifier_or_default(raw: Option<String>) -> (r: String)
    ensures
        match raw {
            Option::Some(s) => r == s,
            Option::None => r@ == "default-machine-id"@,
        },
{
    match raw {
        Some(s) => s,
        None => String::from_str("default-machine-id"),
    }
}

/// The stable identifier of this machine; the platform lookup's value is
/// environmental, and [`identifier_or_default`] states what is made of
/// whatever came back.
pub fn machine_identifier() -> (r: String) {
    identifier_or_default(machine_uid_raw())
}

/// Derives the 256-bit vault key from the fixed application identifier and
/// the machine identifier. Deterministic: the same identifiers always give
/// the same key, and the key is never stored anywhere.
pub fn derive_key(machine_id: &str) -> (key: Vec<u8>)
    ensures
        key@ == sha256_of(encode_utf8(app_tag()) + encode_utf8(machine_id@)),
        key@.len() == 32,
{
    let app_id: &str = "com.dsotiriou.ai-pm-ide";
    sha256_two(app_id.as_bytes(), machine_id.as_bytes())
}

/// Encrypts a plaintext under the vault key: a fresh random nonce, the
/// AES-256-GCM ciphertext, and both together as one base64 string that
/// [`decrypt_string`] opens back to the plaintext.
pub fn encrypt_string(plaintext: &str, key: &Vec<u8>) -> (r: Result<String, StoreError>)
    requires
        key@.len() == 32,
    ensures
        match r {
            Result::Ok(c) => vault_opens_to(c@, key@) == Option::Some(plaintext@),
            Result::Err(e) => e == StoreError::EncryptFailed,
        },
{
    broadcast use vstd::utf8::encode_utf8_valid_utf8, vstd::utf8::encode_utf8_decode_utf8;

    let nonce = fresh_nonce();
    let ct = match aes_seal(key.as_slice(), nonce.as_slice(), plaintext.as_bytes()) {
        Some(c) => c,
        None => {
            return Err(StoreError::EncryptFailed);
        },
    };
    let mut buf = nonce;
    let ghost nonce_bytes = buf@;
    let mut tail = ct;
    let ghost ct_bytes = tail@;
    buf.append(&mut tail);
    let out = b64_encode(buf.as_slice());
    proof {
        assert(buf@.take(12) =~= nonce_bytes);
        assert(buf@.skip(12) =~= ct_bytes);
        assert(open_of(key@, nonce_bytes, ct_bytes) == Option::Some(encode_utf8(plaintext@)));
        assert(decode_utf8(encode_utf8(plaintext@)) == plaintext@);
    }
    Ok(out)
}

/// Decrypts a stored ciphertext string under the vault key, reporting the
/// exact stage of any failure: malformed base64, a failed authentication
/// tag, or non-UTF-8 plaintext bytes.
pub fn decrypt_string(encrypted: &str, key: &Vec<u8>) -> (r: Result<String, StoreError>)
    requires
        key@.len() == 32,
    ensures
        match r {
            Result::Ok(s) => vault_decrypt_spec(encrypted@, key@) == Result::<
                Seq<char>,
                StoreError,
            >::Ok(s@),
            Result::Err(e) => vault_decrypt_spec(encrypted@, key@) == Result::<
                Seq<char>,
                StoreError,
            >::Err(e),
        },
{
    let bytes = match b64_decode(encrypted) {
        Some(b) => b,
        None => {
            return Err(StoreError::Base64Malformed);
        },
    };
    if bytes.len() < 12 {
        return Err(StoreError::Base64Malformed);
    }
    let nonce = vec_subrange(&bytes, 0, 12);
    let ct = vec_subrange(&bytes, 12, bytes.len());
    proof {
        assert(nonce@ =~= bytes@.take(12));
        assert(ct@ =~= bytes@.skip(12));
    }
    let pt = match aes_open(key.as_slice(), nonce.as_slice(), ct.as_slice()) {
        Some(p) => p,
        None => {
            return Err(StoreError::DecryptFailed);
        },
    };
    match bytes_to_string(pt) {
        Some(s) => Ok(s),
        None => Err(StoreError::NotUtf8),
    }
}

} // verus!
