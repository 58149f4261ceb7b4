//! Manage-key handling. A workspace stores only the hex SHA-256 digest of
//! its manage key; a request proves management rights by presenting a token
//! whose digest equals the stored one.

use sha2::Digest;

use vstd::prelude::*;

verus! {

/// Workspace manage token, already extracted from the transport by the
/// caller (bearer header, api-key header or query parameter).
pub struct WorkspaceToken(pub String);

/// What `hash_key` returns: the digest text is a function of the key alone.
pub uninterp spec fn key_digest(key: Seq<char>) -> Seq<char>;

/// Relies on sha2::Sha256 (through its Digest trait) and hex::encode: the
/// lowercase hex rendering of the key's SHA-256 digest — two characters per
/// digest byte, 64 in all, determined by the key alone.
#[verifier::external_body]
pub fn hash_key(key: &str) -> (r: String)
    ensures
        r@ == key_digest(key@),
        r@.len() == 64,
{
    let mut hasher = sha2::Sha256::new();
    hasher.update(key.as_bytes());
    hex::encode(hasher.finalize())
}

/// A lowercase hexadecimal digit.
pub open spec fn is_lower_hex_digit(c: char) -> bool {
    (48 <= (c as u32) && (c as u32) <= 57) || (97 <= (c as u32) && (c as u32) <= 102)
}

/// Relies on uuid::Uuid::new_v4 and its hyphenated rendering: a fresh
/// random manage key. Nothing can be promised of the random part; every
/// outcome is the fixed five-character prefix followed by the UUID's 32
/// lowercase hex digits.
#[verifier::external_body]
pub fn generate_key() -> (r: String)
    ensures
        r@.len() == 37,
        r@.subrange(0, 5) == "adoc_"@,
        forall|i: int| 5 <= i < 37 ==> is_lower_hex_digit(r@[i]),
{
    format!("adoc_{}", uuid::Uuid::new_v4().to_string().replace("-", ""))
}

/// Whether `token` is the manage key whose digest is `stored_hash`.
pub fn verify_key(token: &str, stored_hash: &str) -> (r: bool)
    ensures
        r == (key_digest(token@) == stored_hash@),
{
    let h = hash_key(token);
    crate::text::str_eq(h.as_str(), stored_hash)
}

} // verus!
