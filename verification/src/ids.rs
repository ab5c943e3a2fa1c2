//! Identifiers and digests.
//!
//! An identifier is the 128-bit number of a UUID.

use sha2::Digest;

use vstd::prelude::*;

verus! {

/// The SHA-256 digest of a byte sequence.
pub uninterp spec fn sha256_digest(bytes: Seq<u8>) -> Seq<u8>;

/// Calls `sha2::Sha256::digest`. The digest is a function of the bytes alone,
/// named `sha256_digest`, and has 32 bytes.
#[verifier::external_body]
pub(crate) fn sha256(bytes: &[u8]) -> (r: Vec<u8>)
    ensures
        r@ == sha256_digest(bytes@),
        r@.len() == 32,
{
    sha2::Sha256::digest(bytes).to_vec()
}

/// Calls `uuid::Uuid::new_v4` for a random identifier. Nothing is claimed of
/// which one it is.
#[verifier::external_body]
pub(crate) fn random_id() -> u128 {
    uuid::Uuid::new_v4().as_u128()
}

/// The number that `bytes` write, the most significant byte first.
pub open spec fn big_endian(bytes: Seq<u8>) -> int
    decreases bytes.len(),
{
    if bytes.len() == 0 {
        0
    } else {
        big_endian(bytes.drop_last()) * 256 + bytes.last()
    }
}

/// Calls `uuid::Uuid::from_bytes`: the bytes of the identifier, the most
/// significant first.
#[verifier::external_body]
fn id_from_bytes(bytes: [u8; 16]) -> (r: u128)
    ensures
        r == big_endian(bytes@),
{
    uuid::Uuid::from_bytes(bytes).as_u128()
}

/// The `count` low bytes of `x`, the least significant first.
pub open spec fn little_endian(x: nat, count: nat) -> Seq<u8>
    decreases count,
{
    if count == 0 {
        Seq::empty()
    } else {
        seq![(x % 256) as u8] + little_endian(x / 256, (count - 1) as nat)
    }
}

/// Appends the eight bytes of `x`, the least significant first.
pub(crate) fn push_little_endian(out: &mut Vec<u8>, x: u64)
    ensures
        final(out)@ == old(out)@ + little_endian(x as nat, 8),
{
    let mut rest: u64 = x;
    let mut i: usize = 0;
    while i < 8
        invariant
            i <= 8,
            out@ + little_endian(rest as nat, (8 - i) as nat) == old(out)@ + little_endian(
                x as nat,
                8,
            ),
        decreases 8 - i,
    {
        let ghost before = out@;
        let ghost tail = little_endian(rest as nat / 256, (8 - i - 1) as nat);
        out.push((rest % 256) as u8);
        assert(out@ + tail =~= before + (seq![(rest as nat % 256) as u8] + tail));
        rest = rest / 256;
        i = i + 1;
    }
    assert(out@ + little_endian(rest as nat, 0) =~= out@);
}

/// The identifier made of the first sixteen bytes of the digest of `bytes`.
pub open spec fn digest_id(bytes: Seq<u8>) -> int {
    big_endian(sha256_digest(bytes).take(16))
}

/// The identifier made of the first sixteen bytes of the digest of `bytes`.
pub(crate) fn id_of(bytes: &[u8]) -> (r: u128)
    ensures
        r == digest_id(bytes@),
{
    let digest = sha256(bytes);
    let head: [u8; 16] = [
        digest[0],
        digest[1],
        digest[2],
        digest[3],
        digest[4],
        digest[5],
        digest[6],
        digest[7],
        digest[8],
        digest[9],
        digest[10],
        digest[11],
        digest[12],
        digest[13],
        digest[14],
        digest[15],
    ];
    assert(head@ =~= sha256_digest(bytes@).take(16));
    id_from_bytes(head)
}

} // verus!
