//! Structural hashing of expression trees.
//!
//! A tree's digest commits to its whole structure: an atom hashes as
//! `SHA-256(0x01 || bytes)` and a pair as `SHA-256(0x02 || first || rest)`
//! over the subtrees' digests.

use vstd::prelude::*;

use crate::tree::{ClvmTree, TreeV};

verus! {

/// The SHA-256 digest of a byte string.
pub uninterp spec fn sha256(data: Seq<u8>) -> Seq<u8>;

/// Relies on chia_sha2::Sha256: the one-shot SHA-256 digest of the input,
/// which is 32 bytes long and depends on the input bytes alone.
#[verifier::external_body]
pub(crate) fn sha256_bytes(data: &Vec<u8>) -> (r: Vec<u8>)
    ensures
        r@ == sha256(data@),
        r@.len() == 32,
{
    let mut ctx = chia_sha2::Sha256::new();
    ctx.update(data.as_slice());
    ctx.finalize().to_vec()
}

/// The digest of an atom holding the given bytes.
pub open spec fn atom_digest(bytes: Seq<u8>) -> Seq<u8> {
    sha256(seq![1u8] + bytes)
}

/// The digest of a pair from its subtrees' digests.
pub open spec fn pair_digest(first: Seq<u8>, rest: Seq<u8>) -> Seq<u8> {
    sha256(seq![2u8] + first + rest)
}

/// The structural digest of a tree.
pub open spec fn tree_digest(t: TreeV) -> Seq<u8>
    decreases t,
{
    match t {
        TreeV::Atom(bytes) => atom_digest(bytes),
        TreeV::Pair(first, rest) => pair_digest(tree_digest(*first), tree_digest(*rest)),
    }
}

/// Appends the contents of `src` to `dst`.
pub fn push_all(dst: &mut Vec<u8>, src: &Vec<u8>)
    ensures
        final(dst)@ == old(dst)@ + src@,
{
    let mut i: usize = 0;
    while i < src.len()
        invariant
            i <= src.len(),
            dst@ == old(dst)@ + src@.take(i as int),
        decreases src.len() - i,
    {
        dst.push(src[i]);
        proof {
            assert(dst@ =~= old(dst)@ + src@.take(i as int + 1));
        }
        i += 1;
    }
    proof {
        assert(dst@ =~= old(dst)@ + src@);
    }
}

/// The digest of an atom with the given bytes.
pub fn hash_atom(bytes: &Vec<u8>) -> (r: Vec<u8>)
    ensures
        r@ == sha256(seq![1u8] + bytes@),
        r@ == tree_digest(TreeV::Atom(bytes@)),
        r@.len() == 32,
{
    let mut buf: Vec<u8> = Vec::new();
    buf.push(1);
    proof {
        assert(buf@ =~= seq![1u8]);
    }
    push_all(&mut buf, bytes);
    sha256_bytes(&buf)
}

/// The digest of a pair from its subtrees' digests.
pub fn hash_pair(first: &Vec<u8>, rest: &Vec<u8>) -> (r: Vec<u8>)
    ensures
        r@ == sha256(seq![2u8] + first@ + rest@),
        r@.len() == 32,
{
    let mut buf: Vec<u8> = Vec::new();
    buf.push(2);
    proof {
        assert(buf@ =~= seq![2u8]);
    }
    push_all(&mut buf, first);
    push_all(&mut buf, rest);
    sha256_bytes(&buf)
}

/// Computes the structural digest of a tree.
pub fn tree_hash(t: &ClvmTree) -> (r: Vec<u8>)
    ensures
        r@ == tree_digest(t@),
        r@.len() == 32,
    decreases t,
{
    match t {
        ClvmTree::Atom(bytes) => hash_atom(bytes),
        ClvmTree::Pair(first, rest) => {
            let hf = tree_hash(first);
            let hr = tree_hash(rest);
            hash_pair(&hf, &hr)
        }
    }
}

} // verus!
