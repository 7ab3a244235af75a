//! The proof-of-work puzzle: a SHA-256 digest over two big-endian integers,
//! and the brute-force search for a candidate whose digest meets the target.

use vstd::prelude::*;
use sha2::Digest;
use crate::ledger::Blockchain;

verus! {

/// What SHA-256 yields for a byte string.
pub uninterp spec fn sha256_of(data: Seq<u8>) -> Seq<u8>;

/// Relies on sha2::Sha256::digest: the 32-byte SHA-256 digest of `data`.
#[verifier::external_body]
fn sha256(data: &[u8]) -> (r: Vec<u8>)
    ensures
        r@ == sha256_of(data@),
        r@.len() == 32,
{
    sha2::Sha256::digest(data).to_vec()
}

/// The eight bytes of `x`, most significant first.
pub open spec fn be_bytes(x: u64) -> Seq<u8> {
    seq![
        (x >> 56u64) as u8,
        (x >> 48u64) as u8,
        (x >> 40u64) as u8,
        (x >> 32u64) as u8,
        (x >> 24u64) as u8,
        (x >> 16u64) as u8,
        (x >> 8u64) as u8,
        x as u8,
    ]
}

/// The bytes that the puzzle digests: both proofs, big-endian, previous first.
pub open spec fn puzzle_input(last_proof: u64, proof: u64) -> Seq<u8> {
    be_bytes(last_proof) + be_bytes(proof)
}

/// A digest meets the target when it starts with the ASCII bytes "00".
pub open spec fn meets_target(digest: Seq<u8>) -> bool {
    digest.len() >= 2 && digest[0] == 0x30u8 && digest[1] == 0x30u8
}

/// A candidate solves the puzzle for `last_proof` when the digest of the pair
/// meets the target.
pub open spec fn solves(last_proof: u64, proof: u64) -> bool {
    meets_target(sha256_of(puzzle_input(last_proof, proof)))
}

/// `proof` is the smallest candidate that solves the puzzle for `last_proof`.
pub open spec fn least_solution(last_proof: u64, proof: u64) -> bool {
    solves(last_proof, proof) && forall|q: u64| q < proof ==> !solves(last_proof, q)
}

/// Appends the eight big-endian bytes of `x` to `out`.
pub fn write_u64_be(out: &mut Vec<u8>, x: u64)
    ensures
        final(out)@ == old(out)@ + be_bytes(x),
{
    out.push((x >> 56u64) as u8);
    out.push((x >> 48u64) as u8);
    out.push((x >> 40u64) as u8);
    out.push((x >> 32u64) as u8);
    out.push((x >> 24u64) as u8);
    out.push((x >> 16u64) as u8);
    out.push((x >> 8u64) as u8);
    out.push(x as u8);
    assert(final(out)@ =~= old(out)@ + be_bytes(x));
}

/// The SHA-256 digest of the two proofs written big-endian, previous first.
pub fn puzzle_digest(last_proof: u64, proof: u64) -> (r: Vec<u8>)
    ensures
        r@ == sha256_of(puzzle_input(last_proof, proof)),
        r@.len() == 32,
{
    let mut bytes: Vec<u8> = Vec::new();
    write_u64_be(&mut bytes, last_proof);
    write_u64_be(&mut bytes, proof);
    assert(bytes@ =~= puzzle_input(last_proof, proof));
    sha256(bytes.as_slice())
}

/// Whether a digest starts with the two ASCII bytes "00".
pub fn digest_meets_target(digest: &[u8]) -> (r: bool)
    ensures
        r == meets_target(digest@),
{
    digest.len() >= 2 && digest[0] == 0x30u8 && digest[1] == 0x30u8
}

impl Blockchain {
    /// Whether `proof` solves the puzzle for `last_proof`. The answer depends on
    /// the two arguments alone, so repeated calls agree.
    pub fn valid_proof(last_proof: u64, proof: u64) -> (r: bool)
        ensures
            r == solves(last_proof, proof),
    {
        let digest = puzzle_digest(last_proof, proof);
        digest_meets_target(digest.as_slice())
    }

    /// Searches the candidates upward from 0 for the first that solves the puzzle
    /// for `last_proof`; `None` only when no 64-bit candidate does.
    pub fn proof_of_work(last_proof: u64) -> (r: Option<u64>)
        ensures
            match r {
                Some(p) => least_solution(last_proof, p),
                None => forall|q: u64| !solves(last_proof, q),
            },
    {
        let mut proof: u64 = 0;
        loop
            invariant
                forall|q: u64| q < proof ==> !solves(last_proof, q),
            decreases u64::MAX - proof,
        {
            if Blockchain::valid_proof(last_proof, proof) {
                return Some(proof);
            }
            if proof == u64::MAX {
                return None;
            }
            proof = proof + 1;
        }
    }
}

} // verus!
