//! The clock, the random generator and SHA-256, and the identifiers and key
//! hashes built from them.
//!
//! Random identifiers have the shape `<prefix><hex of n random bytes>`; API
//! keys are stored only as the hex of their SHA-256 digest.

use vstd::prelude::*;
use rand::Rng;
use sha2::{Digest, Sha256};
use crate::text::{hex_bytes, hex_encode, lemma_hex_bytes_len, push_str};

verus! {

/// Seconds since the Unix epoch, read from the system clock.
///
/// Trusted: calls `SystemTime::now` and `duration_since(UNIX_EPOCH)`, falling
/// back to zero for a clock set before the epoch. Nothing is stated of the
/// result: it depends on the machine's clock.
#[verifier::external_body]
pub(crate) fn epoch_secs() -> u64 {
    std::time::SystemTime::now().duration_since(std::time::UNIX_EPOCH).unwrap_or_default().as_secs()
}

/// The UTC date and time `secs` seconds after the Unix epoch, written by
/// the strftime-style `pattern`; `None` where the instant is out of range.
pub uninterp spec fn utc_formatted(secs: int, pattern: Seq<char>) -> Option<Seq<char>>;

/// The pattern of the dates the dashboards show: `YYYY-MM-DD HH:MM:SS UTC`.
pub open spec fn utc_pattern() -> Seq<char> {
    "%Y-%m-%d %H:%M:%S UTC"@
}

/// The UTC date and time `secs` seconds after the Unix epoch, written as
/// `YYYY-MM-DD HH:MM:SS UTC`; `None` where the instant is out of range.
pub open spec fn utc_text(secs: int) -> Option<Seq<char>> {
    utc_formatted(secs, utc_pattern())
}

/// Writes an instant as a UTC date and time in the dashboards' pattern.
pub(crate) fn utc_datetime_text(secs: i64) -> (res: Option<String>)
    ensures
        match res {
            Some(t) => utc_text(secs as int) == Some(t@),
            None => utc_text(secs as int) is None,
        },
{
    format_utc(secs, "%Y-%m-%d %H:%M:%S UTC")
}

/// Writes an instant as a UTC date and time.
///
/// Trusted: calls `chrono::DateTime::from_timestamp(secs, 0)` and formats
/// the result with `pattern`. The text is named `utc_formatted`; the range
/// of seconds for which chrono gives a date is not stated. Writing the text
/// panics on a pattern chrono cannot parse, so only the dashboards' pattern
/// is allowed.
#[verifier::external_body]
fn format_utc(secs: i64, pattern: &str) -> (res: Option<String>)
    requires
        pattern@ == utc_pattern(),
    ensures
        match res {
            Some(t) => utc_formatted(secs as int, pattern@) == Some(t@),
            None => utc_formatted(secs as int, pattern@) is None,
        },
{
    match chrono::DateTime::from_timestamp(secs, 0) {
        Some(dt) => Some(dt.format(pattern).to_string()),
        None => None,
    }
}

/// Eight random bytes.
///
/// Trusted: calls `rand::thread_rng().gen::<[u8; 8]>()`; only the length of
/// the result is stated.
#[verifier::external_body]
pub(crate) fn random_bytes_8() -> (res: Vec<u8>)
    ensures
        res@.len() == 8,
{
    let b: [u8; 8] = rand::thread_rng().gen();
    b.to_vec()
}

/// Sixteen random bytes.
///
/// Trusted: calls `rand::thread_rng().gen::<[u8; 16]>()`; only the length of
/// the result is stated.
#[verifier::external_body]
pub(crate) fn random_bytes_16() -> (res: Vec<u8>)
    ensures
        res@.len() == 16,
{
    let b: [u8; 16] = rand::thread_rng().gen();
    b.to_vec()
}

/// The SHA-256 digest of a byte sequence.
pub uninterp spec fn sha256_digest(data: Seq<u8>) -> Seq<u8>;

/// SHA-256 of `data`.
///
/// Trusted: calls `Sha256::new`, `update` and `finalize` of the `sha2` crate.
/// The digest is named `sha256_digest`; the crate's documentation fixes its
/// length at 32 bytes.
#[verifier::external_body]
pub(crate) fn sha256(data: &[u8]) -> (res: Vec<u8>)
    ensures
        res@ == sha256_digest(data@),
        res@.len() == 32,
{
    let mut hasher = Sha256::new();
    hasher.update(data);
    hasher.finalize().to_vec()
}

/// `id` is `prefix` followed by the lower-case hex of `n` bytes.
pub open spec fn is_hex_id(id: Seq<char>, prefix: Seq<char>, n: nat) -> bool {
    exists|b: Seq<u8>| b.len() == n && id == prefix + hex_bytes(b)
}

/// `prefix` followed by the hex of `bytes`.
pub fn prefixed_hex(prefix: &str, bytes: &Vec<u8>) -> (res: String)
    ensures
        res@ == prefix@ + hex_bytes(bytes@),
        res@.len() == prefix@.len() + 2 * bytes@.len(),
{
    let mut s = String::new();
    push_str(&mut s, prefix);
    let h = hex_encode(bytes.as_slice());
    push_str(&mut s, h.as_str());
    proof {
        lemma_hex_bytes_len(bytes@);
        assert(Seq::<char>::empty() + prefix@ + hex_bytes(bytes@) =~= prefix@ + hex_bytes(
            bytes@,
        ));
    }
    s
}

/// A fresh random identifier: `prefix` and the hex of eight random bytes.
pub fn random_id_8(prefix: &str) -> (res: String)
    ensures
        is_hex_id(res@, prefix@, 8),
        res@.len() == prefix@.len() + 16,
{
    let b = random_bytes_8();
    prefixed_hex(prefix, &b)
}

/// A fresh random secret: `prefix` and the hex of sixteen random bytes.
pub fn random_id_16(prefix: &str) -> (res: String)
    ensures
        is_hex_id(res@, prefix@, 16),
        res@.len() == prefix@.len() + 32,
{
    let b = random_bytes_16();
    prefixed_hex(prefix, &b)
}

/// The stored form of a secret: hex of the SHA-256 of its UTF-8 bytes.
pub open spec fn key_digest(raw: Seq<char>) -> Seq<char> {
    hex_bytes(sha256_digest(vstd::utf8::encode_utf8(raw)))
}

/// Hashes a raw secret for storage.
pub fn hash_secret(raw: &str) -> (res: String)
    ensures
        res@ == key_digest(raw@),
        res@.len() == 64,
{
    let d = sha256(raw.as_bytes());
    proof {
        lemma_hex_bytes_len(d@);
    }
    hex_encode(d.as_slice())
}

} // verus!
