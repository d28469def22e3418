//! Encryption of the session data at rest: AES-256-GCM under the app's key
//! with a random nonce, both parts stored as standard base64 text.

use aes_gcm::aead::generic_array::GenericArray;
use aes_gcm::aead::{Aead, KeyInit};
use aes_gcm::{Aes256Gcm, Nonce};
use base64::engine::general_purpose::STANDARD;
use base64::Engine;
use crate::models::GMError;
use crate::random::fill_random;
use crate::text::concat_str;
use vstd::prelude::*;
use vstd::utf8::{decode_utf8, encode_utf8, valid_utf8};

verus! {

/// Largest plaintext AES-GCM seals: 2^36 bytes (`aes_gcm::P_MAX`).
pub open spec fn aes_gcm_max_plaintext() -> int {
    0x10_0000_0000
}

/// The ciphertext (with its 16-byte tag appended) that AES-256-GCM makes of
/// `plaintext` under `key` and `nonce`.
pub uninterp spec fn aes256_gcm_sealed(key: Seq<u8>, nonce: Seq<u8>, plaintext: Seq<u8>) -> Seq<u8>;

/// The plaintext that AES-256-GCM recovers from `ciphertext` under `key` and
/// `nonce`, or `None` when authentication fails.
pub uninterp spec fn aes256_gcm_opened(key: Seq<u8>, nonce: Seq<u8>, ciphertext: Seq<u8>) -> Option<
    Seq<u8>,
>;

/// How `aead::Error` displays.
pub open spec fn aead_error_text() -> Seq<char> {
    "aead::Error"@
}

/// The character of the 6-bit value `n` in the standard base64 alphabet
/// (`A`-`Z`, `a`-`z`, `0`-`9`, `+`, `/`).
pub open spec fn base64_char(n: int) -> char {
    if n < 26 {
        (('A' as int) + n) as char
    } else if n < 52 {
        (('a' as int) + n - 26) as char
    } else if n < 62 {
        (('0' as int) + n - 52) as char
    } else if n == 62 {
        '+'
    } else {
        '/'
    }
}

/// Standard base64 text of `bytes`: each group of 3 bytes gives 4
/// characters of 6 bits each, and a last group of 1 or 2 bytes is padded
/// with `=` to 4 characters.
pub open spec fn base64_standard_encoded(bytes: Seq<u8>) -> Seq<char>
    decreases bytes.len(),
{
    if bytes.len() == 0 {
        Seq::empty()
    } else if bytes.len() == 1 {
        let a = bytes[0] as int;
        seq![base64_char(a / 4), base64_char((a % 4) * 16), '=', '=']
    } else if bytes.len() == 2 {
        let a = bytes[0] as int;
        let b = bytes[1] as int;
        seq![base64_char(a / 4), base64_char((a % 4) * 16 + b / 16), base64_char((b % 16) * 4), '=']
    } else {
        let a = bytes[0] as int;
        let b = bytes[1] as int;
        let c = bytes[2] as int;
        seq![
            base64_char(a / 4),
            base64_char((a % 4) * 16 + b / 16),
            base64_char((b % 16) * 4 + c / 64),
            base64_char(c % 64),
        ] + base64_standard_encoded(bytes.skip(3))
    }
}

/// What standard base64 decoding gives of `text`: the bytes, or the text of the decoding error.
pub uninterp spec fn base64_standard_decoded(text: Seq<char>) -> Result<Seq<u8>, Seq<char>>;

/// The text of the error that `String::from_utf8` reports for invalid `bytes`.
pub uninterp spec fn utf8_error_text(bytes: Seq<u8>) -> Seq<char>;

/// Seals `plaintext` with `aes_gcm::Aes256Gcm` (`Aead::encrypt`, no
/// associated data). As the crate's source shows, this succeeds exactly when
/// the plaintext is at most 2^36 bytes long; the ciphertext is the plaintext's
/// length plus the 16-byte tag, and opening it under the same key and nonce
/// gives the plaintext back. The error displays as "aead::Error". The buffer
/// it allocates first holds the plaintext and the tag, which must fit in
/// `isize::MAX` bytes (else the allocation panics).
#[verifier::external_body]
fn aes256_gcm_encrypt(key: &[u8; 32], nonce: &[u8; 12], plaintext: &[u8]) -> (r: Result<Vec<u8>, String>)
    requires
        plaintext@.len() + 16 <= isize::MAX,
    ensures
        plaintext@.len() <= aes_gcm_max_plaintext() ==> r is Ok,
        plaintext@.len() > aes_gcm_max_plaintext() ==> r is Err,
        r matches Ok(c) ==> c@ == aes256_gcm_sealed(key@, nonce@, plaintext@),
        r matches Ok(c) ==> c@.len() == plaintext@.len() + 16,
        r matches Ok(c) ==> aes256_gcm_opened(key@, nonce@, c@) == Some(plaintext@),
        r matches Err(e) ==> e@ == aead_error_text(),
{
    let cipher = Aes256Gcm::new(GenericArray::from_slice(key));
    match cipher.encrypt(Nonce::from_slice(nonce), plaintext) {
        Ok(c) => Ok(c),
        Err(e) => Err(e.to_string()),
    }
}

/// Opens `ciphertext` with `aes_gcm::Aes256Gcm` (`Aead::decrypt`, no
/// associated data); a rejected ciphertext gives the error "aead::Error". A
/// ciphertext that sealing made of a plaintext under the same key and nonce
/// opens to that plaintext.
#[verifier::external_body]
fn aes256_gcm_decrypt(key: &[u8; 32], nonce: &[u8; 12], ciphertext: &[u8]) -> (r: Result<Vec<u8>, String>)
    ensures
        (match aes256_gcm_opened(key@, nonce@, ciphertext@) {
            Some(p) => r matches Ok(v) && v@ == p,
            None => r matches Err(e) && e@ == aead_error_text(),
        }),
        forall|p: Seq<u8>|
            p.len() <= aes_gcm_max_plaintext() && ciphertext@ == #[trigger] aes256_gcm_sealed(key@, nonce@, p)
                ==> r is Ok && r->Ok_0@ == p,
{
    let cipher = Aes256Gcm::new(GenericArray::from_slice(key));
    match cipher.decrypt(Nonce::from_slice(nonce), ciphertext) {
        Ok(p) => Ok(p),
        Err(e) => Err(e.to_string()),
    }
}

/// Encodes `bytes` with `base64::engine::general_purpose::STANDARD`
/// (`Engine::encode`). The length bound keeps the encoded text (4 characters
/// for every 3 bytes begun) within what a buffer can hold; beyond it the
/// encoder's allocation panics.
#[verifier::external_body]
fn base64_encode(bytes: &[u8]) -> (r: String)
    requires
        bytes@.len() <= isize::MAX / 2,
    ensures
        r@ == base64_standard_encoded(bytes@),
{
    STANDARD.encode(bytes)
}

/// Decodes `text` with `base64::engine::general_purpose::STANDARD`
/// (`Engine::decode`); an error is returned as its display text. Text that
/// the standard encoder made of some bytes decodes to those bytes.
#[verifier::external_body]
fn base64_decode(text: &str) -> (r: Result<Vec<u8>, String>)
    ensures
        (match base64_standard_decoded(text@) {
            Ok(b) => r matches Ok(v) && v@ == b,
            Err(e) => r matches Err(m) && m@ == e,
        }),
        forall|b: Seq<u8>| text@ == #[trigger] base64_standard_encoded(b) ==> r is Ok && r->Ok_0@ == b,
{
    match STANDARD.decode(text) {
        Ok(v) => Ok(v),
        Err(e) => Err(e.to_string()),
    }
}

/// Twelve random bytes from the operating system, or the text of its error.
fn random_nonce() -> (r: Result<[u8; 12], String>) {
    let mut buf: Vec<u8> = vec![0u8; 12];
    match fill_random(&mut buf) {
        Ok(()) => {},
        Err(e) => {
            return Err(e);
        },
    }
    Ok([buf[0], buf[1], buf[2], buf[3], buf[4], buf[5], buf[6], buf[7], buf[8], buf[9], buf[10], buf[11]])
}

/// `String::from_utf8`: the text that valid UTF-8 bytes encode, or the
/// display text of the error for invalid ones.
#[verifier::external_body]
fn string_from_utf8(bytes: Vec<u8>) -> (r: Result<String, String>)
    ensures
        (if valid_utf8(bytes@) {
            r matches Ok(s) && s@ == decode_utf8(bytes@)
        } else {
            r matches Err(e) && e@ == utf8_error_text(bytes@)
        }),
{
    match String::from_utf8(bytes) {
        Ok(s) => Ok(s),
        Err(e) => Err(e.to_string()),
    }
}

/// The encrypted session as stored: base64 ciphertext and nonce.
#[derive(Debug)]
pub struct GMEncryptedSession {
    pub ciphertext: String,
    pub nonce: String,
}

/// What opening a stored session gives.
pub enum OpenedSession {
    /// The session text
    Text(Seq<char>),
    /// The ciphertext is not base64 (with the decoder's error text)
    BadCiphertext(Seq<char>),
    /// The nonce is not base64 (with the decoder's error text)
    BadNonce(Seq<char>),
    /// The nonce does not have 12 bytes
    WrongNonceLength,
    /// Authentication failed
    Rejected,
    /// The plaintext is not UTF-8 (with the error text)
    NotUtf8(Seq<char>),
}

/// What opening the stored `ciphertext` and `nonce` texts under `key` gives.
pub open spec fn session_opened(key: Seq<u8>, ciphertext: Seq<char>, nonce: Seq<char>) -> OpenedSession {
    match base64_standard_decoded(ciphertext) {
        Err(e) => OpenedSession::BadCiphertext(e),
        Ok(c) => match base64_standard_decoded(nonce) {
            Err(e) => OpenedSession::BadNonce(e),
            Ok(n) => if n.len() != 12 {
                OpenedSession::WrongNonceLength
            } else {
                match aes256_gcm_opened(key, n, c) {
                    None => OpenedSession::Rejected,
                    Some(p) => if valid_utf8(p) {
                        OpenedSession::Text(decode_utf8(p))
                    } else {
                        OpenedSession::NotUtf8(utf8_error_text(p))
                    },
                }
            },
        },
    }
}

/// The stored texts (ciphertext, nonce) that encrypting the session text
/// `text` under `key` with `nonce` gives.
pub open spec fn stored_form(key: Seq<u8>, nonce: Seq<u8>, text: Seq<char>) -> (Seq<char>, Seq<char>) {
    (
        base64_standard_encoded(aes256_gcm_sealed(key, nonce, encode_utf8(text))),
        base64_standard_encoded(nonce),
    )
}

/// Whether `stored` is what encrypting the session text `text` under `key`
/// with some 12-byte nonce gives.
pub open spec fn stores_text(key: Seq<u8>, stored: GMEncryptedSession, text: Seq<char>) -> bool {
    &&& encode_utf8(text).len() <= aes_gcm_max_plaintext()
    &&& exists|nonce: Seq<u8>|
        nonce.len() == 12 && #[trigger] stored_form(key, nonce, text) == (stored.ciphertext@, stored.nonce@)
}

/// Encrypts the session text `plaintext` under `key` with `nonce`: the
/// base64 ciphertext and nonce, or an `Unknown` error when the text is too
/// long for AES-GCM. The text and its tag must fit the buffers that hold them
/// and their base64 form.
pub fn encrypt_session_with_nonce(key: &[u8; 32], plaintext: &str, nonce: &[u8; 12]) -> (r: Result<
    GMEncryptedSession,
    GMError,
>)
    requires
        encode_utf8(plaintext@).len() + 16 <= isize::MAX / 2,
    ensures
        encode_utf8(plaintext@).len() <= aes_gcm_max_plaintext() ==> (r matches Ok(f) && (f.ciphertext@, f.nonce@)
            == stored_form(key@, nonce@, plaintext@)),
        encode_utf8(plaintext@).len() > aes_gcm_max_plaintext() ==> (r matches Err(GMError::Unknown { message })
            && message@ == "Encryption failed: aead::Error"@),
{
    let bytes = plaintext.as_bytes();
    match aes256_gcm_encrypt(key, nonce, bytes) {
        Ok(ciphertext) => {
            let ciphertext_text = base64_encode(ciphertext.as_slice());
            let nonce_text = base64_encode(nonce);
            Ok(GMEncryptedSession { ciphertext: ciphertext_text, nonce: nonce_text })
        },
        Err(e) => {
            proof {
                reveal_strlit("aead::Error");
                reveal_strlit("Encryption failed: ");
                reveal_strlit("Encryption failed: aead::Error");
                assert("Encryption failed: "@ + e@ =~= "Encryption failed: aead::Error"@);
            }
            Err(GMError::Unknown { message: concat_str("Encryption failed: ", e.as_str()) })
        },
    }
}

/// Encrypts the session text `plaintext` under `key` with a random nonce.
/// What it stores holds `plaintext`; failing to get random bytes is an
/// `Unknown` error, and so is a text too long for AES-GCM.
pub fn encrypt_session(key: &[u8; 32], plaintext: &str) -> (r: Result<GMEncryptedSession, GMError>)
    requires
        encode_utf8(plaintext@).len() + 16 <= isize::MAX / 2,
    ensures
        r matches Ok(f) ==> stores_text(key@, f, plaintext@),
        encode_utf8(plaintext@).len() > aes_gcm_max_plaintext() ==> r is Err,
        r matches Err(e) ==> e is Unknown,
{
    match random_nonce() {
        Ok(nonce) => {
            let r = encrypt_session_with_nonce(key, plaintext, &nonce);
            proof {
                if r is Ok {
                    assert(stored_form(key@, nonce@, plaintext@) == (r->Ok_0.ciphertext@, r->Ok_0.nonce@));
                }
            }
            r
        },
        Err(e) => Err(GMError::Unknown { message: concat_str("Failed to generate nonce: ", e.as_str()) }),
    }
}

/// Opens a stored session under `key`: the session text, or the error that
/// names what failed (encoding, authentication, UTF-8). What encryption
/// stored under the same key opens to the text that was encrypted.
pub fn decrypt_session(key: &[u8; 32], stored: &GMEncryptedSession) -> (r: Result<String, GMError>)
    requires
        !(session_opened(key@, stored.ciphertext@, stored.nonce@) is WrongNonceLength),
    ensures
        forall|text: Seq<char>| #[trigger] stores_text(key@, *stored, text) ==> (r matches Ok(s) && s@ == text),
        match session_opened(key@, stored.ciphertext@, stored.nonce@) {
            OpenedSession::Text(p) => r matches Ok(s) && s@ == p,
            OpenedSession::BadCiphertext(e) => r matches Err(GMError::Unknown { message })
                && message@ == "Invalid ciphertext encoding: "@ + e,
            OpenedSession::BadNonce(e) => r matches Err(GMError::Unknown { message }) && message@
                == "Invalid nonce encoding: "@ + e,
            OpenedSession::Rejected => r matches Err(GMError::AuthError { message }) && message@
                == "Decryption failed: aead::Error"@,
            OpenedSession::NotUtf8(e) => r matches Err(GMError::Unknown { message }) && message@
                == "Invalid UTF-8 in decrypted data: "@ + e,
            OpenedSession::WrongNonceLength => false,
        },
{
    let ciphertext = match base64_decode(stored.ciphertext.as_str()) {
        Ok(c) => c,
        Err(e) => {
            return Err(
                GMError::Unknown { message: concat_str("Invalid ciphertext encoding: ", e.as_str()) },
            );
        },
    };
    let nonce_bytes = match base64_decode(stored.nonce.as_str()) {
        Ok(n) => n,
        Err(e) => {
            return Err(GMError::Unknown { message: concat_str("Invalid nonce encoding: ", e.as_str()) });
        },
    };
    let nonce: [u8; 12] = [
        nonce_bytes[0],
        nonce_bytes[1],
        nonce_bytes[2],
        nonce_bytes[3],
        nonce_bytes[4],
        nonce_bytes[5],
        nonce_bytes[6],
        nonce_bytes[7],
        nonce_bytes[8],
        nonce_bytes[9],
        nonce_bytes[10],
        nonce_bytes[11],
    ];
    proof {
        assert(nonce@ =~= nonce_bytes@);
        assert forall|text: Seq<char>| #[trigger] stores_text(key@, *stored, text) implies ciphertext@
            == aes256_gcm_sealed(key@, nonce@, encode_utf8(text)) by {
            let n = choose|n: Seq<u8>|
                n.len() == 12 && #[trigger] stored_form(key@, n, text) == (stored.ciphertext@, stored.nonce@);
            assert(stored.nonce@ == base64_standard_encoded(n));
            assert(stored.ciphertext@ == base64_standard_encoded(aes256_gcm_sealed(key@, n, encode_utf8(text))));
        }
    }
    match aes256_gcm_decrypt(key, &nonce, ciphertext.as_slice()) {
        Ok(plaintext) => {
            proof {
                assert forall|text: Seq<char>| #[trigger] stores_text(key@, *stored, text) implies valid_utf8(
                    plaintext@,
                ) && decode_utf8(plaintext@) == text by {
                    assert(ciphertext@ == aes256_gcm_sealed(key@, nonce@, encode_utf8(text)));
                    vstd::utf8::encode_utf8_valid_utf8(text);
                    vstd::utf8::encode_utf8_decode_utf8(text);
                }
            }
            match string_from_utf8(plaintext) {
                Ok(s) => Ok(s),
                Err(e) => Err(
                    GMError::Unknown { message: concat_str("Invalid UTF-8 in decrypted data: ", e.as_str()) },
                ),
            }
        },
        Err(e) => {
            proof {
                assert forall|text: Seq<char>| #[trigger] stores_text(key@, *stored, text) implies false by {
                    assert(ciphertext@ == aes256_gcm_sealed(key@, nonce@, encode_utf8(text)));
                }
                reveal_strlit("aead::Error");
                reveal_strlit("Decryption failed: ");
                reveal_strlit("Decryption failed: aead::Error");
                assert("Decryption failed: "@ + e@ =~= "Decryption failed: aead::Error"@);
            }
            Err(GMError::AuthError { message: concat_str("Decryption failed: ", e.as_str()) })
        },
    }
}

/// Opens a stored session under `key` ([`decrypt_session`]); `None` when the
/// nonce does not decode to 12 bytes, which AES-GCM cannot use. What
/// encryption stored under the same key opens to the text that was encrypted.
pub fn open_session_file(key: &[u8; 32], stored: &GMEncryptedSession) -> (r: Option<Result<String, GMError>>)
    ensures
        forall|text: Seq<char>| #[trigger] stores_text(key@, *stored, text) ==> (r matches Some(Ok(s)) && s@ == text),
        (session_opened(key@, stored.ciphertext@, stored.nonce@) is WrongNonceLength) <==> r is None,
        r matches Some(res) ==> match session_opened(key@, stored.ciphertext@, stored.nonce@) {
            OpenedSession::Text(p) => res matches Ok(s) && s@ == p,
            OpenedSession::BadCiphertext(e) => res matches Err(GMError::Unknown { message })
                && message@ == "Invalid ciphertext encoding: "@ + e,
            OpenedSession::BadNonce(e) => res matches Err(GMError::Unknown { message }) && message@
                == "Invalid nonce encoding: "@ + e,
            OpenedSession::Rejected => res matches Err(GMError::AuthError { message }) && message@
                == "Decryption failed: aead::Error"@,
            OpenedSession::NotUtf8(e) => res matches Err(GMError::Unknown { message }) && message@
                == "Invalid UTF-8 in decrypted data: "@ + e,
            OpenedSession::WrongNonceLength => false,
        },
{
    let ciphertext_ok = match base64_decode(stored.ciphertext.as_str()) {
        Ok(_) => true,
        Err(_) => false,
    };
    if ciphertext_ok {
        match base64_decode(stored.nonce.as_str()) {
            Ok(n) => {
                if n.len() != 12 {
                    return None;
                }
            },
            Err(_) => {},
        }
    }
    Some(decrypt_session(key, stored))
}

} // verus!
