//! Cryptographic primitives: authenticated encryption of byte strings and
//! the password-authenticated key exchange used for pairing.
//!
//! The ciphers themselves are the work of the `chacha20poly1305` and `spake2`
//! crates. What this module proves is the framing around them: where the
//! nonce stands in a blob, which inputs are rejected before a cipher is asked,
//! and that a blob made by [`encrypt`] opens again under the same key.

use chacha20poly1305::aead::{Aead, AeadCore, OsRng};
use chacha20poly1305::{ChaCha20Poly1305, Key, KeyInit, Nonce};
use spake2::{Ed25519Group, Identity, Password, Spake2};
use vstd::prelude::*;
use vstd::slice::slice_subrange;
use vstd::string::StringExecFns;

verus! {

/// Length of a ChaCha20-Poly1305 nonce, which leads every blob.
pub const NONCE_LEN: usize = 12;

/// Length of the Poly1305 tag that closes every sealed text.
pub const TAG_LEN: usize = 16;

/// Length of a symmetric key.
pub const KEY_LEN: usize = 32;

/// Length of a message of the key exchange: one side byte and a group element.
pub const PAKE_MESSAGE_LEN: usize = 33;

/// Plaintexts of this length or more are refused by the cipher, whose block
/// counter has 32 bits.
pub const SEAL_LIMIT: u64 = 274_877_906_880u64;

/// Why a message of the key exchange was refused.
#[derive(Debug, Clone, Copy, PartialEq, Eq, Structural)]
pub enum SpakeFailure {
    /// The message was made for the other role of an asymmetric exchange.
    BadSide,
    /// The message does not hold a group element.
    CorruptMessage,
    /// The message does not have `PAKE_MESSAGE_LEN` bytes.
    WrongLength,
}

/// Why a cryptographic operation failed.
#[derive(Debug, Clone, Copy, PartialEq, Eq, Structural)]
pub enum CryptoError {
    /// The blob is shorter than a nonce.
    TooShort,
    /// The cipher refused the plaintext.
    Encryption,
    /// The tag does not match: wrong key or altered text.
    Decryption,
    /// The key exchange refused the peer's message.
    Spake(SpakeFailure),
}

impl CryptoError {
    /// The text of `message`.
    pub open spec fn text(self) -> Seq<char> {
        match self {
            CryptoError::TooShort => "Ciphertext too short"@,
            CryptoError::Encryption => "Encryption failure: aead::Error"@,
            CryptoError::Decryption => "Decryption failure: aead::Error"@,
            CryptoError::Spake(SpakeFailure::BadSide) => "Spake error: bad side"@,
            CryptoError::Spake(SpakeFailure::CorruptMessage) => "Spake error: corrupt message"@,
            CryptoError::Spake(SpakeFailure::WrongLength) => "Spake error: invalid length"@,
        }
    }

    /// A line for a log or a user.
    pub fn message(&self) -> (r: String)
        ensures
            r@ == self.text(),
    {
        match self {
            CryptoError::TooShort => String::from_str("Ciphertext too short"),
            CryptoError::Encryption => String::from_str("Encryption failure: aead::Error"),
            CryptoError::Decryption => String::from_str("Decryption failure: aead::Error"),
            CryptoError::Spake(SpakeFailure::BadSide) => String::from_str("Spake error: bad side"),
            CryptoError::Spake(SpakeFailure::CorruptMessage) => String::from_str(
                "Spake error: corrupt message",
            ),
            CryptoError::Spake(SpakeFailure::WrongLength) => String::from_str(
                "Spake error: invalid length",
            ),
        }
    }
}

/// The sealed text (ciphertext followed by its tag) that ChaCha20-Poly1305
/// gives for a key, a nonce and a plaintext, with no associated data.
pub uninterp spec fn aead_seal(key: Seq<u8>, nonce: Seq<u8>, plaintext: Seq<u8>) -> Seq<u8>;

/// The plaintext that ChaCha20-Poly1305 gives back for a key, a nonce and a
/// sealed text, or `None` where the tag does not match.
pub uninterp spec fn aead_open(key: Seq<u8>, nonce: Seq<u8>, sealed: Seq<u8>) -> Option<Seq<u8>>;

/// `ChaCha20Poly1305::encrypt` of the `chacha20poly1305` crate, under a cipher
/// made by `ChaCha20Poly1305::new` from `key`.
///
/// Trusted: the cipher accepts the plaintexts under `SEAL_LIMIT` bytes and
/// no others; what it returns is the named sealed text, sixteen bytes longer
/// than the plaintext; and the crate's `decrypt` recovers the plaintext from
/// it under the same key and nonce.
#[verifier::external_body]
fn seal(key: &[u8; 32], nonce: &[u8; 12], plaintext: &[u8]) -> (r: Option<Vec<u8>>)
    ensures
        r is Some <==> plaintext@.len() < SEAL_LIMIT,
        r matches Some(c) ==> c@ == aead_seal(key@, nonce@, plaintext@),
        r matches Some(c) ==> c@.len() == plaintext@.len() + TAG_LEN,
        r matches Some(c) ==> aead_open(key@, nonce@, c@) == Some(plaintext@),
{
    let cipher = ChaCha20Poly1305::new(Key::from_slice(key));
    cipher.encrypt(Nonce::from_slice(nonce), plaintext).ok()
}

/// `ChaCha20Poly1305::decrypt` of the `chacha20poly1305` crate, under a cipher
/// made by `ChaCha20Poly1305::new` from `key`.
///
/// Trusted: the result is the named opening of the sealed text.
#[verifier::external_body]
fn unseal(key: &[u8; 32], nonce: &[u8], sealed: &[u8]) -> (r: Option<Vec<u8>>)
    requires
        nonce@.len() == NONCE_LEN,
    ensures
        (match r {
            Some(p) => aead_open(key@, nonce@, sealed@) == Some(p@),
            None => aead_open(key@, nonce@, sealed@) is None,
        }),
{
    let cipher = ChaCha20Poly1305::new(Key::from_slice(key));
    cipher.decrypt(Nonce::from_slice(nonce), sealed).ok()
}

/// `ChaCha20Poly1305::generate_nonce` of the `chacha20poly1305` crate, fed by
/// the operating system's random source. Nothing is claimed of the bytes.
#[verifier::external_body]
fn fresh_nonce() -> (r: [u8; 12]) {
    ChaCha20Poly1305::generate_nonce(&mut OsRng).into()
}

/// The bytes as a key, where there are `KEY_LEN` of them.
pub fn as_key(bytes: &[u8]) -> (r: Option<[u8; 32]>)
    ensures
        r is Some <==> bytes@.len() == KEY_LEN,
        r matches Some(k) ==> k@ == bytes@,
{
    if bytes.len() != KEY_LEN {
        return None;
    }
    let mut key: [u8; 32] = [0u8; 32];
    let mut i: usize = 0;
    while i < KEY_LEN
        invariant
            i <= KEY_LEN,
            bytes@.len() == KEY_LEN,
            key@.len() == KEY_LEN,
            forall|j: int| 0 <= j < i ==> key@[j] == bytes@[j],
        decreases KEY_LEN - i,
    {
        key[i] = bytes[i];
        i = i + 1;
    }
    proof {
        assert(key@ =~= bytes@);
    }
    Some(key)
}

/// What a blob opens to under a key: the blob is a nonce followed by a
/// sealed text.
pub open spec fn opened(key: Seq<u8>, blob: Seq<u8>) -> Result<Seq<u8>, CryptoError> {
    if blob.len() < NONCE_LEN {
        Err(CryptoError::TooShort)
    } else {
        match aead_open(key, blob.take(NONCE_LEN as int), blob.skip(NONCE_LEN as int)) {
            Some(p) => Ok(p),
            None => Err(CryptoError::Decryption),
        }
    }
}

/// The blob that a key, a nonce and a plaintext give.
pub open spec fn sealed_blob(key: Seq<u8>, nonce: Seq<u8>, plaintext: Seq<u8>) -> Seq<u8> {
    nonce + aead_seal(key, nonce, plaintext)
}

/// Seals `plaintext` under `key` with the nonce given, and puts the nonce in
/// front. A nonce must never serve twice under one key: [`encrypt`] draws a
/// fresh one.
pub fn encrypt_with_nonce(key: &[u8; 32], nonce: &[u8; 12], plaintext: &[u8]) -> (r: Result<
    Vec<u8>,
    CryptoError,
>)
    ensures
        r is Ok <==> plaintext@.len() < SEAL_LIMIT,
        r matches Ok(blob) ==> blob@ == sealed_blob(key@, nonce@, plaintext@),
        r matches Ok(blob) ==> blob@.len() == NONCE_LEN + plaintext@.len() + TAG_LEN,
        r matches Ok(blob) ==> opened(key@, blob@) == Ok::<Seq<u8>, CryptoError>(plaintext@),
        r matches Err(e) ==> e == CryptoError::Encryption,
{
    match seal(key, nonce, plaintext) {
        Some(sealed) => {
            let mut blob: Vec<u8> = Vec::new();
            blob.extend_from_slice(nonce.as_slice());
            blob.extend_from_slice(sealed.as_slice());
            proof {
                assert(blob@ =~= nonce@ + sealed@);
                assert(blob@.take(NONCE_LEN as int) =~= nonce@);
                assert(blob@.skip(NONCE_LEN as int) =~= sealed@);
            }
            Ok(blob)
        },
        None => Err(CryptoError::Encryption),
    }
}

/// Seals `plaintext` under `key` with a fresh random nonce. The result is
/// the nonce followed by the sealed text, and opens again under `key`.
pub fn encrypt(key: &[u8; 32], plaintext: &[u8]) -> (r: Result<Vec<u8>, CryptoError>)
    ensures
        r is Ok <==> plaintext@.len() < SEAL_LIMIT,
        r matches Ok(blob) ==> blob@.len() == NONCE_LEN + plaintext@.len() + TAG_LEN,
        r matches Ok(blob) ==> blob@ == sealed_blob(
            key@,
            blob@.take(NONCE_LEN as int),
            plaintext@,
        ),
        r matches Ok(blob) ==> opened(key@, blob@) == Ok::<Seq<u8>, CryptoError>(plaintext@),
        r matches Err(e) ==> e == CryptoError::Encryption,
{
    let nonce = fresh_nonce();
    let r = encrypt_with_nonce(key, &nonce, plaintext);
    proof {
        if r is Ok {
            assert(r->Ok_0@.take(NONCE_LEN as int) =~= nonce@);
        }
    }
    r
}

/// Opens a blob made by [`encrypt`]. A blob shorter than a nonce is refused
/// without asking the cipher; any other is given to it, and fails closed
/// when the tag does not match.
pub fn decrypt(key: &[u8; 32], ciphertext_with_nonce: &[u8]) -> (r: Result<Vec<u8>, CryptoError>)
    ensures
        (match r {
            Ok(p) => opened(key@, ciphertext_with_nonce@) == Ok::<Seq<u8>, CryptoError>(p@),
            Err(e) => opened(key@, ciphertext_with_nonce@) == Err::<Seq<u8>, CryptoError>(e),
        }),
{
    let n: usize = ciphertext_with_nonce.len();
    if n < NONCE_LEN {
        return Err(CryptoError::TooShort);
    }
    let nonce = slice_subrange(ciphertext_with_nonce, 0, NONCE_LEN);
    let sealed = slice_subrange(ciphertext_with_nonce, NONCE_LEN, n);
    proof {
        assert(nonce@ =~= ciphertext_with_nonce@.take(NONCE_LEN as int));
        assert(sealed@ =~= ciphertext_with_nonce@.skip(NONCE_LEN as int));
    }
    match unseal(key, nonce, sealed) {
        Some(p) => Ok(p),
        None => Err(CryptoError::Decryption),
    }
}

/// The state of one side of a key exchange between `start_spake2` and
/// `finish_spake2`. It holds the side's secret and cannot be copied: one
/// state serves one `finish_spake2`.
///
/// The field is a `Spake2` of the `spake2` crate, whose group parameter is
/// bound by a trait the verifier does not know; the struct is therefore
/// opaque to it, and only `spake_start` and `spake_finish` look inside.
#[verifier::external_body]
pub struct SpakeState {
    spake: Spake2<Ed25519Group>,
}

/// Whether 32 bytes are the compressed form of a point of the Ed25519 curve:
/// whether the group of the exchange reads them as an element.
pub uninterp spec fn group_element(bytes: Seq<u8>) -> bool;

/// Why the exchange refuses a message, or `None` where it accepts it. A
/// message is accepted where it has `PAKE_MESSAGE_LEN` bytes, opens with the
/// side byte `'S'` of the symmetric mode, and goes on with a group element.
/// Nothing else plays a part: not the password, not the state.
pub open spec fn refusal(msg: Seq<u8>) -> Option<SpakeFailure> {
    if msg.len() != PAKE_MESSAGE_LEN {
        Some(SpakeFailure::WrongLength)
    } else if msg[0] != 0x53 {
        Some(SpakeFailure::BadSide)
    } else if !group_element(msg.skip(1)) {
        Some(SpakeFailure::CorruptMessage)
    } else {
        None
    }
}

/// Whether the exchange accepts a message.
pub open spec fn acceptable(msg: Seq<u8>) -> bool {
    refusal(msg) is None
}

/// `Spake2::<Ed25519Group>::start_symmetric` of the `spake2` crate, with the
/// operating system's random source.
///
/// Trusted: the outbound message has 33 bytes: the side byte `'S'` of the
/// symmetric mode, and the compressed form of the point that the side has
/// computed, which is a group element.
#[verifier::external_body]
fn spake_start(password: &[u8], identity: &[u8]) -> (r: (SpakeState, Vec<u8>))
    ensures
        r.1@.len() == PAKE_MESSAGE_LEN,
        r.1@[0] == 0x53,
        group_element(r.1@.skip(1)),
{
    let (spake, msg) = Spake2::<Ed25519Group>::start_symmetric(
        &Password::new(password),
        &Identity::new(identity),
    );
    (SpakeState { spake }, msg)
}

/// `Spake2::finish` of the `spake2` crate, on a state of the symmetric mode:
/// `spake_start` makes every state there is.
///
/// Trusted: the exchange tests the length of the message, then its side
/// byte, then whether the rest is a group element, and refuses it with the
/// first test that fails; a message that passes all three gives a key, and a
/// key has 32 bytes.
#[verifier::external_body]
fn spake_finish(state: SpakeState, inbound: &[u8]) -> (r: Result<Vec<u8>, SpakeFailure>)
    ensures
        (match r {
            Ok(k) => refusal(inbound@) is None && k@.len() == KEY_LEN,
            Err(f) => refusal(inbound@) == Some(f),
        }),
{
    match state.spake.finish(inbound) {
        Ok(k) => Ok(k),
        Err(spake2::Error::BadSide) => Err(SpakeFailure::BadSide),
        Err(spake2::Error::CorruptMessage) => Err(SpakeFailure::CorruptMessage),
        Err(spake2::Error::WrongLength) => Err(SpakeFailure::WrongLength),
    }
}

/// The identity under which both sides of a pairing run the exchange.
pub open spec fn pake_identity() -> Seq<char> {
    "clustercut-connect"@
}

/// Opens one side of the symmetric key exchange on `password`. The two
/// identities are not part of the exchange: both sides run it under
/// `pake_identity`. Returns the state to keep and the message to send. The
/// message is one that every peer's `finish_spake2` accepts, whatever its
/// password.
pub fn start_spake2(password: &str, _id_a: &str, _id_b: &str) -> (r: Result<
    (SpakeState, Vec<u8>),
    CryptoError,
>)
    ensures
        r is Ok,
        r matches Ok(pair) ==> acceptable(pair.1@),
{
    Ok(spake_start(password.as_bytes(), "clustercut-connect".as_bytes()))
}

/// Closes the exchange with the peer's message and yields the session key.
/// A key is given exactly for the messages that the exchange accepts, and a
/// message that it refuses is refused for the first reason that holds.
///
/// Two sides that started on the same password end with the same key. Two
/// sides that started on different passwords each end with a key, and the
/// keys differ: nothing in this step tells them so. A caller learns of the
/// mismatch when the first blob sealed under one key fails to open under the
/// other.
pub fn finish_spake2(state: SpakeState, inbound_msg: &[u8]) -> (r: Result<Vec<u8>, CryptoError>)
    ensures
        (match r {
            Ok(k) => acceptable(inbound_msg@) && k@.len() == KEY_LEN,
            Err(e) => refusal(inbound_msg@) matches Some(f) && e == CryptoError::Spake(f),
        }),
{
    match spake_finish(state, inbound_msg) {
        Ok(k) => Ok(k),
        Err(f) => Err(CryptoError::Spake(f)),
    }
}

} // verus!
