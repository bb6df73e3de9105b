//! Roots of Merkle inclusion proofs over SHA-256.
use soroban_sdk::{Bytes, Env};
use vstd::prelude::*;

verus! {

/// The host environment of an invocation. It is only carried to the hash function.
#[verifier::external_type_specification]
#[verifier::external_body]
pub struct ExEnv(soroban_sdk::Env);

/// The SHA-256 digest of a sequence of bytes.
pub uninterp spec fn sha256(data: Seq<u8>) -> Seq<u8>;

/// Calls `soroban_sdk::crypto::Crypto::sha256` on the 64 bytes.
///
/// Claimed: the digest is the SHA-256 hash of exactly these bytes, whichever
/// environment computes it. Left unsaid: the host meters the call, and an
/// invocation that is out of budget ends here instead of getting a digest.
#[verifier::external_body]
fn hash_pair(env: &Env, payload: &[u8; 64]) -> (digest: [u8; 32])
    ensures
        digest@ == sha256(payload@),
{
    env.crypto().sha256(&Bytes::from_array(env, payload)).to_array()
}

/// The root that a leaf and its siblings, nearest first, lead to. At every level the
/// node climbed from is the left half of the hashed pair.
pub open spec fn root_of(leaf: Seq<u8>, proof: Seq<[u8; 32]>) -> Seq<u8>
    decreases proof.len(),
{
    if proof.len() == 0 {
        leaf
    } else {
        sha256(root_of(leaf, proof.drop_last()) + proof.last()@)
    }
}

/// The two halves of a hashed pair, left before right.
fn pair(left: &[u8; 32], right: &[u8; 32]) -> (payload: [u8; 64])
    ensures
        payload@ == left@ + right@,
{
    let mut payload: [u8; 64] = [0u8; 64];
    let mut i: usize = 0;
    while i < 32
        invariant
            i <= 32,
            forall|j: int| 0 <= j < i ==> payload@[j] == left@[j],
            forall|j: int| 0 <= j < i ==> payload@[32 + j] == right@[j],
        decreases 32 - i,
    {
        payload[i] = left[i];
        payload[32 + i] = right[i];
        i += 1;
    }
    assert(payload@ =~= left@ + right@);
    payload
}

/// Builds the Merkle root from a leaf and a sibling proof path, nearest sibling first.
pub fn compute_root(env: &Env, leaf: &[u8; 32], proof: &Vec<[u8; 32]>) -> (root: [u8; 32])
    ensures
        root@ == root_of(leaf@, proof@),
{
    let mut current: [u8; 32] = *leaf;
    let mut i: usize = 0;
    while i < proof.len()
        invariant
            i <= proof.len(),
            current@ == root_of(leaf@, proof@.take(i as int)),
        decreases proof.len() - i,
    {
        let payload = pair(&current, &proof[i]);
        current = hash_pair(env, &payload);
        proof {
            assert(proof@.take(i + 1).drop_last() =~= proof@.take(i as int));
        }
        i += 1;
    }
    assert(proof@.take(i as int) =~= proof@);
    current
}

/// A leaf without siblings is its own root, and one with a single sibling leads to the hash
/// of the two, the leaf on the left.
pub proof fn law_each_level_hashes_the_pair(leaf: Seq<u8>, sibling: [u8; 32])
    ensures
        root_of(leaf, seq![]) == leaf,
        root_of(leaf, seq![sibling]) == sha256(leaf + sibling@),
{
    assert(seq![sibling].drop_last() =~= seq![]);
    reveal_with_fuel(root_of, 2);
}

/// A proof path can be climbed in two stretches: the root of the whole path is the
/// root of its upper part, started from the root of its lower part.
pub proof fn law_root_of_concatenation(leaf: Seq<u8>, lower: Seq<[u8; 32]>, upper: Seq<[u8; 32]>)
    ensures
        root_of(leaf, lower + upper) == root_of(root_of(leaf, lower), upper),
    decreases upper.len(),
{
    if upper.len() == 0 {
        assert(lower + upper =~= lower);
    } else {
        law_root_of_concatenation(leaf, lower, upper.drop_last());
        assert((lower + upper).drop_last() =~= lower + upper.drop_last());
    }
}

} // verus!
