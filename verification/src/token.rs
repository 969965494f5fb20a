//! The write token: proof that a write was confirmed, tied by hashes to the
//! confirmation phrase and to the change plan it authorises.

use vstd::prelude::*;

use crate::text::{hex_chars, hex_lower};

verus! {

/// The SHA-256 digest of a byte string.
pub uninterp spec fn sha256_of(data: Seq<u8>) -> Seq<u8>;

/// The SHA-256 digest of `data` (`sha2::Sha256::digest`): 32 bytes that are
/// a function of `data` alone.
#[verifier::external_body]
fn sha256_digest(data: &[u8]) -> (digest: Vec<u8>)
    ensures
        digest@ == sha256_of(data@),
        digest@.len() == 32,
{
    <sha2::Sha256 as sha2::Digest>::digest(data).to_vec()
}

/// A UTC instant: whole seconds since the Unix epoch and the nanoseconds
/// past that second.
#[derive(Debug, Clone, Copy, PartialEq, Eq, Structural)]
pub struct UtcTimestamp {
    pub secs: i64,
    pub nanos: u32,
}

#[verifier::external_type_specification]
#[verifier::external_body]
pub struct ExSystemTime(std::time::SystemTime);

/// The current reading of the system clock (`std::time::SystemTime::now`).
/// Nothing is stated of it: it depends on the clock.
#[verifier::external_body]
fn system_now() -> std::time::SystemTime {
    std::time::SystemTime::now()
}

/// How long after the Unix epoch `t` lies
/// (`SystemTime::duration_since(UNIX_EPOCH)`), or `None` when `t` lies
/// before the epoch (the call's error). Nothing more is stated: the
/// duration depends on the clock reading.
#[verifier::external_body]
fn since_unix_epoch(t: &std::time::SystemTime) -> Option<core::time::Duration> {
    match t.duration_since(std::time::UNIX_EPOCH) {
        Ok(d) => Some(d),
        Err(_) => None,
    }
}

/// The whole seconds of a duration (`Duration::as_secs`).
pub assume_specification[ core::time::Duration::as_secs ](d: &core::time::Duration) -> u64;

/// The nanoseconds of a duration past its whole seconds
/// (`Duration::subsec_nanos`), which its documentation puts below one
/// billion.
pub assume_specification[ core::time::Duration::subsec_nanos ](d: &core::time::Duration) -> (n: u32)
    ensures
        n < 1_000_000_000,
;

/// The current time as seconds and nanoseconds since the Unix epoch, or
/// `None` when the clock reads before the epoch. The value depends on the
/// clock; what is stated is that the nanoseconds stay below one second.
fn utc_now() -> (t: Option<UtcTimestamp>)
    ensures
        t matches Some(u) ==> u.nanos < 1_000_000_000,
{
    let now = system_now();
    match since_unix_epoch(&now) {
        Some(d) => {
            let secs = d.as_secs();
            let nanos = d.subsec_nanos();
            Some(UtcTimestamp { secs: secs as i64, nanos })
        },
        None => None,
    }
}

/// The lowercase hexadecimal SHA-256 digest of the UTF-8 encoding of `s`.
pub open spec fn spec_hash_text(s: Seq<char>) -> Seq<char> {
    hex_chars(sha256_of(vstd::utf8::encode_utf8(s)))
}

/// Hashes text to its SHA-256 digest in lowercase hexadecimal.
pub fn hash_str(s: &str) -> (h: String)
    ensures
        h@ == spec_hash_text(s@),
        h@.len() == 64,
{
    let digest = sha256_digest(s.as_bytes());
    let h = hex_lower(digest.as_slice());
    proof {
        lemma_hex_len(digest@);
    }
    h
}

/// Two hex digits per byte.
pub proof fn lemma_hex_len(bytes: Seq<u8>)
    ensures
        hex_chars(bytes).len() == 2 * bytes.len(),
    decreases bytes.len(),
{
    if bytes.len() > 0 {
        lemma_hex_len(bytes.drop_last());
    }
}

/// Authorisation for one write, made once every safety check has passed.
#[derive(Debug)]
pub struct WriteToken {
    pub disk_id: String,
    /// When the token was made; `None` when the clock read before the Unix
    /// epoch.
    pub timestamp: Option<UtcTimestamp>,
    pub backup_id: Option<String>,
    pub confirmation_hash: String,
    pub change_plan_hash: String,
}

impl WriteToken {
    /// A token for `disk_id`, stamped now (no stamp when the clock reads
    /// before the Unix epoch), that carries the hashes of the confirmation
    /// phrase and of the change plan's JSON text.
    pub fn new(
        disk_id: String,
        backup_id: Option<String>,
        confirmation_phrase: &str,
        change_plan_json: &str,
    ) -> (t: Self)
        ensures
            t.disk_id@ == disk_id@,
            crate::model::opt_str(t.backup_id) == crate::model::opt_str(backup_id),
            t.confirmation_hash@ == spec_hash_text(confirmation_phrase@),
            t.change_plan_hash@ == spec_hash_text(change_plan_json@),
    {
        let confirmation_hash = hash_str(confirmation_phrase);
        let change_plan_hash = hash_str(change_plan_json);
        Self {
            disk_id,
            timestamp: utc_now(),
            backup_id,
            confirmation_hash,
            change_plan_hash,
        }
    }
}

} // verus!
