//! The hashing stage: a username string is turned into a fixed-length
//! 64-byte digest. The digest function itself is an outside capability;
//! everything downstream is verified against its named result.

use sha2::Digest;
use vstd::prelude::*;

verus! {

/// The SHA-512 digest of a character sequence. The digest depends on the
/// characters alone, so equal usernames always yield equal digests.
pub uninterp spec fn sha512_of(s: Seq<char>) -> Seq<u8>;

/// Relies on sha2::Sha512 (via the sha2::Digest trait): feeding the string's
/// bytes through `update` and calling `finalize` yields the SHA-512 digest,
/// which is always exactly 64 bytes and depends on the input alone.
#[verifier::external_body]
pub(crate) fn sha512_digest(username: &String) -> (r: Vec<u8>)
    ensures
        r@ == sha512_of(username@),
        r@.len() == 64,
{
    let mut hasher = sha2::Sha512::default();
    hasher.update(username.as_bytes());
    hasher.finalize().to_vec()
}

/// Equal usernames produce equal digests: the digest is a function of the
/// character sequence and of nothing else.
pub proof fn lemma_hash_deterministic(u1: Seq<char>, u2: Seq<char>)
    requires
        u1 == u2,
    ensures
        sha512_of(u1) == sha512_of(u2),
{
}

} // verus!
