use vstd::prelude::*;
use crypto::digest::Digest;
use crate::text::bytes_eq;

verus! {

/// `crypto::sha2::Sha256`, the running state of one SHA-256 computation.
#[verifier::external_type_specification]
#[verifier::external_body]
pub struct ExSha256(crypto::sha2::Sha256);

/// The SHA-256 digest of a message, as `crypto::sha2::Sha256` computes it.
pub uninterp spec fn sha256(message: Seq<u8>) -> Seq<u8>;

/// The bytes that a hasher has been fed since it was made.
pub uninterp spec fn absorbed(hasher: crypto::sha2::Sha256) -> Seq<u8>;

/// SHA-256 is defined for messages of fewer than 2^64 bits, that is of fewer
/// than this many bytes.
pub const SHA256_MAX_BYTES: u64 = 0x2000_0000_0000_0000;

/// `crypto::sha2::Sha256::new`: a hasher that has been fed nothing.
#[verifier::external_body]
fn hasher_new() -> (hasher: crypto::sha2::Sha256)
    ensures
        absorbed(hasher) == Seq::<u8>::empty(),
{
    crypto::sha2::Sha256::new()
}

/// `Digest::input` of `crypto::sha2::Sha256`: appends `data` to what the
/// hasher has been fed. The call panics once the message reaches 2^64 bits,
/// which the precondition excludes.
#[verifier::external_body]
fn hasher_input(hasher: &mut crypto::sha2::Sha256, data: &[u8])
    requires
        absorbed(*old(hasher)).len() + data@.len() < SHA256_MAX_BYTES,
    ensures
        absorbed(*final(hasher)) == absorbed(*old(hasher)) + data@,
{
    hasher.input(data)
}

/// `Digest::result` of `crypto::sha2::Sha256`: the 32-byte SHA-256 digest of
/// what the hasher has been fed. The hasher is used up.
#[verifier::external_body]
fn hasher_result(hasher: crypto::sha2::Sha256) -> (digest: [u8; 32])
    ensures
        digest@ == sha256(absorbed(hasher)),
{
    let mut hasher = hasher;
    let mut out = [0u8; 32];
    hasher.result(&mut out);
    out
}

/// The digest of a message where SHA-256 is defined for it.
pub open spec fn sha256_of(message: Seq<u8>) -> Option<Seq<u8>> {
    if message.len() < SHA256_MAX_BYTES {
        Some(sha256(message))
    } else {
        None
    }
}

/// What an optional digest holds.
pub open spec fn digest_view(digest: Option<[u8; 32]>) -> Option<Seq<u8>> {
    match digest {
        Some(d) => Some(d@),
        None => None,
    }
}

/// The SHA-256 digest of `message`; `None` where the message is too long for
/// SHA-256 to be defined.
pub fn sha256_digest(message: &[u8]) -> (digest: Option<[u8; 32]>)
    ensures
        digest_view(digest) == sha256_of(message@),
{
    if message.len() as u64 >= SHA256_MAX_BYTES {
        return None;
    }
    let mut hasher = hasher_new();
    hasher_input(&mut hasher, message);
    Some(hasher_result(hasher))
}

/// Whether two digests are the same, byte for byte.
pub fn digests_equal(a: &[u8; 32], b: &[u8; 32]) -> (equal: bool)
    ensures
        equal == (a@ == b@),
{
    bytes_eq(a.as_slice(), b.as_slice())
}

} // verus!
