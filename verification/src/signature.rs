//! Freshness signatures: proof that a device holds the cluster key now.
//!
//! A signature is the base64 text of a blob that seals `"<id>:<unix seconds>"`
//! under the cluster key. It is no digital signature: whoever holds the key
//! can make one for any identifier. It shows possession of the key without
//! sending the key, and it expires with the clock.

use crate::crypto::{decrypt, encrypt, opened, CryptoError, NONCE_LEN, SEAL_LIMIT, TAG_LEN};
use crate::text::{bytes_equal, decimal, format_u64, lemma_parse_decimal, parse_u64, parsed_u64, utf8};
use base64::engine::general_purpose::STANDARD;
use base64::Engine;
use vstd::prelude::*;
use vstd::slice::slice_subrange;
use vstd::string::StringSliceAdditionalSpecFns;

verus! {

/// The byte `':'`, which parts the identifier from the time.
pub const COLON: u8 = 58u8;

/// A signature made this many seconds ago, or more, has expired.
pub const MAX_AGE: u64 = 60u64;

/// A signature dated this many seconds ahead of the local clock, or more, is
/// refused.
pub const MAX_AHEAD: u64 = 10u64;

/// The base64 text, standard alphabet with padding, of a byte string.
pub uninterp spec fn base64_text(bytes: Seq<u8>) -> Seq<char>;

/// The byte string that a base64 text stands for, or `None` where the text
/// is no base64.
pub uninterp spec fn base64_bytes(text: Seq<char>) -> Option<Seq<u8>>;

/// `Engine::encode` of the `base64` crate on its `STANDARD` engine.
///
/// Trusted: the result is the named text, and the crate's `decode` reads the
/// bytes back from it. The bound keeps the length of the text within `usize`.
#[verifier::external_body]
pub(crate) fn to_base64(bytes: &[u8]) -> (r: String)
    requires
        bytes@.len() / 3 < usize::MAX / 4,
    ensures
        r@ == base64_text(bytes@),
        base64_bytes(r@) == Some(bytes@),
{
    STANDARD.encode(bytes)
}

/// `Engine::decode` of the `base64` crate on its `STANDARD` engine.
///
/// Trusted: the result is the named reading of the text.
#[verifier::external_body]
pub(crate) fn from_base64(text: &str) -> (r: Option<Vec<u8>>)
    ensures
        (match r {
            Some(b) => base64_bytes(text@) == Some(b@),
            None => base64_bytes(text@) is None,
        }),
{
    STANDARD.decode(text).ok()
}

/// Whether a timestamp lies in the window that the local clock accepts:
/// less than `MAX_AGE` seconds old, or less than `MAX_AHEAD` seconds ahead.
pub open spec fn fresh(ts: u64, now: u64) -> bool {
    (now >= ts && now - ts < MAX_AGE) || (ts > now && ts - now < MAX_AHEAD)
}

/// Whether a timestamp lies in the accepted window.
pub fn is_fresh(ts: u64, now: u64) -> (r: bool)
    ensures
        r == fresh(ts, now),
{
    if now >= ts {
        now - ts < MAX_AGE
    } else {
        ts - now < MAX_AHEAD
    }
}

/// The place of the first colon of `s`, or its length where it has none.
pub open spec fn first_colon(s: Seq<u8>) -> int
    decreases s.len(),
{
    if s.len() == 0 {
        0
    } else if s[0] == COLON {
        0
    } else {
        1 + first_colon(s.skip(1))
    }
}

/// `first_colon` is the least place of a colon.
pub proof fn lemma_first_colon(s: Seq<u8>)
    ensures
        0 <= first_colon(s) <= s.len(),
        forall|i: int| 0 <= i < first_colon(s) ==> s[i] != COLON,
        first_colon(s) < s.len() ==> s[first_colon(s)] == COLON,
    decreases s.len(),
{
    if s.len() > 0 && s[0] != COLON {
        lemma_first_colon(s.skip(1));
        assert forall|i: int| 0 <= i < first_colon(s) implies s[i] != COLON by {
            if i > 0 {
                assert(s.skip(1)[i - 1] == s[i]);
            }
        }
        if first_colon(s) < s.len() {
            assert(s.skip(1)[first_colon(s) - 1] == s[first_colon(s)]);
        }
    }
}

/// A place that holds a colon, with none before it, is the first colon.
pub proof fn lemma_first_colon_at(s: Seq<u8>, k: int)
    requires
        0 <= k <= s.len(),
        forall|i: int| 0 <= i < k ==> s[i] != COLON,
        k < s.len() ==> s[k] == COLON,
    ensures
        first_colon(s) == k,
{
    lemma_first_colon(s);
    let f = first_colon(s);
    if f < k {
        assert(s[f] == COLON);
    } else if k < f {
        assert(s[k] != COLON);
    }
}

/// The text that a signature seals: the identifier, a colon, and the time in
/// decimal.
pub open spec fn signature_payload(id: Seq<char>, ts: u64) -> Seq<u8> {
    utf8(id) + seq![COLON] + decimal(ts as nat)
}

/// The time that a payload states for the identifier `id`: the payload must
/// be the identifier, one colon, and a number. A payload for another
/// identifier, with no colon or with a second one, or with anything but a
/// number behind the colon, states nothing.
pub open spec fn payload_timestamp(payload: Seq<u8>, id: Seq<char>) -> Option<u64> {
    let k = first_colon(payload);
    if k < payload.len() && payload.take(k) == utf8(id) {
        parsed_u64(payload.skip(k + 1))
    } else {
        None
    }
}

/// Reads the time that a payload states for `id`.
pub fn read_payload(payload: &[u8], id: &str) -> (r: Option<u64>)
    ensures
        r == payload_timestamp(payload@, id@),
{
    let n: usize = payload.len();
    let mut k: usize = 0;
    while k < n && payload[k] != COLON
        invariant
            n == payload@.len(),
            k <= n,
            forall|i: int| 0 <= i < k ==> payload@[i] != COLON,
        decreases n - k,
    {
        k = k + 1;
    }
    proof {
        lemma_first_colon_at(payload@, k as int);
    }
    if k >= n {
        return None;
    }
    let head = slice_subrange(payload, 0, k);
    let tail = slice_subrange(payload, k + 1, n);
    proof {
        assert(head@ =~= payload@.take(k as int));
        assert(tail@ =~= payload@.skip(k + 1));
    }
    if !bytes_equal(head, id.as_bytes()) {
        return None;
    }
    parse_u64(tail)
}

/// Whether `sig` is, at the time `now`, a valid signature of `id` under
/// `key`: it is base64 of a blob that opens under the key to a payload that
/// states, for this identifier, a time in the accepted window.
pub open spec fn signature_valid(key: Seq<u8>, id: Seq<char>, sig: Seq<char>, now: u64) -> bool {
    match base64_bytes(sig) {
        Some(blob) => match opened(key, blob) {
            Ok(payload) => match payload_timestamp(payload, id) {
                Some(ts) => fresh(ts, now),
                None => false,
            },
            Err(_) => false,
        },
        None => false,
    }
}

/// Whether `sig` was made for `id` under `key` at the time `ts`.
pub open spec fn signed_at(key: Seq<u8>, id: Seq<char>, sig: Seq<char>, ts: u64) -> bool {
    match base64_bytes(sig) {
        Some(blob) => opened(key, blob) == Ok::<Seq<u8>, CryptoError>(signature_payload(id, ts)),
        None => false,
    }
}

/// Checks a signature against the local clock, given as `now` in unix
/// seconds.
pub fn verify_signature(key: &[u8; 32], id: &str, signature: &str, now: u64) -> (r: bool)
    ensures
        r == signature_valid(key@, id@, signature@, now),
{
    match from_base64(signature) {
        Some(blob) => match decrypt(key, blob.as_slice()) {
            Ok(payload) => match read_payload(payload.as_slice(), id) {
                Some(ts) => is_fresh(ts, now),
                None => false,
            },
            Err(_) => false,
        },
        None => false,
    }
}

/// Whether an identifier can be signed at the time `now`: the cipher can
/// seal its payload, and the length of the base64 text of the blob fits the
/// machine's word. Only identifiers that no memory holds fail this.
pub open spec fn signable(id: Seq<char>, now: u64) -> bool {
    let n = signature_payload(id, now).len();
    n < SEAL_LIMIT && (NONCE_LEN + n + TAG_LEN) / 3 < usize::MAX / 4
}

/// Signs `id` under `key` at the time `now`, in unix seconds. Every call
/// seals under a fresh nonce, so two signatures of one identifier at one
/// time differ.
pub fn generate_signature(key: &[u8; 32], id: &str, now: u64) -> (r: Option<String>)
    ensures
        r is Some <==> signable(id@, now),
        r matches Some(sig) ==> signed_at(key@, id@, sig@, now),
{
    let mut payload: Vec<u8> = Vec::new();
    payload.extend_from_slice(id.as_bytes());
    payload.push(COLON);
    let digits = format_u64(now);
    payload.extend_from_slice(digits.as_slice());
    proof {
        assert(payload@ =~= signature_payload(id@, now));
    }
    match encrypt(key, payload.as_slice()) {
        Ok(blob) => if blob.len() / 3 < usize::MAX / 4 {
            Some(to_base64(blob.as_slice()))
        } else {
            None
        },
        Err(_) => None,
    }
}

/// No byte of `s` is a colon.
pub open spec fn colon_free(s: Seq<u8>) -> bool {
    forall|i: int| 0 <= i < s.len() ==> s[i] != COLON
}

/// The payload made for an identifier without a colon states, for that
/// identifier, the time it was made at.
pub proof fn lemma_payload_reads_back(id: Seq<char>, ts: u64)
    requires
        colon_free(utf8(id)),
    ensures
        payload_timestamp(signature_payload(id, ts), id) == Some(ts),
{
    let p = signature_payload(id, ts);
    let k = utf8(id).len() as int;
    assert forall|i: int| 0 <= i < k implies p[i] != COLON by {
        assert(p[i] == utf8(id)[i]);
    }
    assert(p[k] == COLON);
    lemma_first_colon_at(p, k);
    assert(p.take(k) =~= utf8(id));
    assert(p.skip(k + 1) =~= decimal(ts as nat));
    lemma_parse_decimal(ts);
}

/// A signature verifies under the key that made it for as long as it is
/// fresh: made for an identifier without a colon at the time `ts`, it is
/// valid at every time `now` that has `ts` in its window.
pub proof fn lemma_signature_verifies(
    key: Seq<u8>,
    id: Seq<char>,
    sig: Seq<char>,
    ts: u64,
    now: u64,
)
    requires
        signed_at(key, id, sig, ts),
        colon_free(utf8(id)),
    ensures
        signature_valid(key, id, sig, now) == fresh(ts, now),
{
    lemma_payload_reads_back(id, ts);
}

/// An identifier that holds a colon has no valid signature: its payload
/// would part in three.
pub proof fn lemma_colon_never_verifies(key: Seq<u8>, id: Seq<char>, sig: Seq<char>, now: u64)
    requires
        !colon_free(utf8(id)),
    ensures
        !signature_valid(key, id, sig, now),
{
    if let Some(blob) = base64_bytes(sig) {
        if let Ok(payload) = opened(key, blob) {
            let k = first_colon(payload);
            lemma_first_colon(payload);
            if k < payload.len() && payload.take(k) == utf8(id) {
                let i = choose|i: int| 0 <= i < utf8(id).len() && utf8(id)[i] == COLON;
                assert(payload.take(k)[i] == payload[i]);
            }
        }
    }
}

} // verus!
