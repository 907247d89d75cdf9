//! SHA-256 and HMAC-SHA256 from the `sha2` and `hmac` crates, and the system
//! clock.

use vstd::prelude::*;

verus! {

/// The SHA-256 digest of `data`, as `sha2::Sha256` computes it.
pub uninterp spec fn sha256(data: Seq<u8>) -> Seq<u8>;

/// The HMAC-SHA256 tag of `message` under `key`, as `hmac::Hmac<sha2::Sha256>`
/// computes it.
pub uninterp spec fn hmac_sha256(key: Seq<u8>, message: Seq<u8>) -> Seq<u8>;

/// Calls `sha2::Digest::digest` for `sha2::Sha256`. Claims that the result is
/// the digest of `data` and is 32 bytes long, as the output size of SHA-256 is.
#[verifier::external_body]
pub(crate) fn sha256_digest(data: &[u8]) -> (digest: Vec<u8>)
    ensures
        digest@ == sha256(data@),
        digest@.len() == 32,
{
    <sha2::Sha256 as sha2::Digest>::digest(data).to_vec()
}

/// Computes an HMAC-SHA256 tag with `hmac::Mac` on `hmac::Hmac<sha2::Sha256>`:
/// `new_from_slice` with the key (which accepts keys of every length, so the
/// `expect` never fires), `update` with the message, then `finalize`. Claims
/// that the tag is the HMAC of `message` under `key` and is 32 bytes long.
#[verifier::external_body]
pub(crate) fn hmac_sha256_tag(key: &[u8], message: &[u8]) -> (tag: Vec<u8>)
    ensures
        tag@ == hmac_sha256(key@, message@),
        tag@.len() == 32,
{
    let mut mac = <hmac::Hmac<sha2::Sha256> as hmac::Mac>::new_from_slice(key).expect(
        "HMAC accepts any key size",
    );
    hmac::Mac::update(&mut mac, message);
    hmac::Mac::finalize(mac).into_bytes().to_vec()
}

/// Checks an HMAC-SHA256 tag in constant time with `hmac::Mac` on
/// `hmac::Hmac<sha2::Sha256>`: `new_from_slice`, `update` with the message,
/// then `verify_slice`, which succeeds exactly when `tag` has the output
/// length and equals the computed tag. Claims that the result says whether
/// `tag` is the HMAC of `message` under `key`.
#[verifier::external_body]
pub(crate) fn hmac_sha256_verify(key: &[u8], message: &[u8], tag: &[u8]) -> (ok: bool)
    ensures
        ok == (tag@ == hmac_sha256(key@, message@)),
{
    match <hmac::Hmac<sha2::Sha256> as hmac::Mac>::new_from_slice(key) {
        Ok(mut mac) => {
            hmac::Mac::update(&mut mac, message);
            hmac::Mac::verify_slice(mac, tag).is_ok()
        },
        Err(_) => false,
    }
}

/// Reads the system clock: whole seconds since the Unix epoch, or 0 when the
/// clock stands before the epoch (`SystemTime::now`, `duration_since`,
/// `unwrap_or_default`, `as_secs`). Nothing is claimed of the value.
#[verifier::external_body]
pub(crate) fn unix_time_secs() -> u64 {
    std::time::SystemTime::now().duration_since(std::time::UNIX_EPOCH).unwrap_or_default().as_secs()
}

/// Whether `t` is a reading that the system clock can give, in whole seconds
/// since the Unix epoch (a value that [`unix_time_secs`] can return).
pub closed spec fn clock_reading(t: u64) -> bool {
    call_ensures(unix_time_secs, (), t)
}

/// Reads the system clock, in whole seconds since the Unix epoch.
pub(crate) fn read_clock() -> (t: u64)
    ensures
        clock_reading(t),
{
    unix_time_secs()
}

} // verus!
