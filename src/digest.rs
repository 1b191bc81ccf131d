//! Content addresses for cache files, through the `sha1` crate.

use sha1::Digest;
use vstd::prelude::*;

verus! {

/// The lowercase hexadecimal SHA-1 digest of the UTF-8 encoding of `text`.
pub uninterp spec fn sha1_hex_of(text: Seq<char>) -> Seq<char>;

/// Relies on `sha1::Sha1` through `digest::Digest` (`new`, `update`,
/// `finalize`) and its lowercase-hex formatting: the digest of the bytes of `s`.
#[verifier::external_body]
pub(crate) fn sha1_hex(s: &str) -> (r: String)
    ensures
        r@ == sha1_hex_of(s@),
{
    let mut hasher = sha1::Sha1::new();
    hasher.update(s.as_bytes());
    format!("{:x}", hasher.finalize())
}

/// `prefix` + the digest of `key` + `.json`.
pub open spec fn cache_file_name(prefix: Seq<char>, key: Seq<char>) -> Seq<char> {
    prefix + sha1_hex_of(key) + ".json"@
}

pub(crate) fn cache_file_name_for(prefix: &str, key: &str) -> (r: String)
    ensures
        r@ == cache_file_name(prefix@, key@),
{
    let mut s = String::from_str(prefix);
    let digest = sha1_hex(key);
    s.append(digest.as_str());
    s.append(".json");
    s
}

} // verus!
