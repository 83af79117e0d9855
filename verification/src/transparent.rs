//! The opaque leaf layer: an arbitrary inner spending policy carried as a
//! bare tree, or as only its commitment when the full puzzle is not known.

use vstd::prelude::*;

use crate::digest::{tree_digest, tree_hash};
use crate::errors::DriverError;
use crate::layer::{PuzzleLayer, Recognition};
use crate::tree::{clone_tree, copy_bytes, ClvmTree, TreeV};

verus! {

/// Mathematical model of a transparent layer.
#[verifier::ext_equal]
pub struct TransparentLayerV {
    pub puzzle_hash: Seq<u8>,
    pub puzzle: Option<TreeV>,
}

/// A leaf layer holding an arbitrary puzzle's commitment, and the full
/// puzzle tree when it is known. Constructing the puzzle requires the full
/// tree; hashing does not.
#[derive(Debug)]
pub struct TransparentLayer {
    pub puzzle_hash: Vec<u8>,
    pub puzzle: Option<ClvmTree>,
}

impl View for TransparentLayer {
    type V = TransparentLayerV;

    open spec fn view(&self) -> TransparentLayerV {
        TransparentLayerV {
            puzzle_hash: self.puzzle_hash@,
            puzzle: match self.puzzle {
                Option::None => Option::None,
                Option::Some(t) => Option::Some(t@),
            },
        }
    }
}

impl TransparentLayer {
    pub fn new(puzzle_hash: Vec<u8>, puzzle: Option<ClvmTree>) -> (r: TransparentLayer)
        ensures
            r.puzzle_hash@ == puzzle_hash@,
            puzzle is Some ==> (r@.puzzle matches Some(t) && t == puzzle.unwrap()@),
            puzzle is None ==> r@.puzzle is None,
    {
        TransparentLayer { puzzle_hash, puzzle }
    }
}

impl PuzzleLayer for TransparentLayer {
    type Solution = ClvmTree;

    open spec fn inv(v: TransparentLayerV) -> bool {
        &&& v.puzzle_hash.len() == 32
        &&& (v.puzzle matches Some(t) ==> v.puzzle_hash == tree_digest(t))
    }

    open spec fn sol_inv(v: TransparentLayerV, s: TreeV) -> bool {
        true
    }

    open spec fn build_puzzle(v: TransparentLayerV) -> Result<TreeV, DriverError> {
        match v.puzzle {
            Some(t) => Ok(t),
            None => Err(DriverError::MissingPuzzle),
        }
    }

    open spec fn build_solution(v: TransparentLayerV, s: TreeV) -> Result<TreeV, DriverError> {
        Ok(s)
    }

    open spec fn parse_puzzle(t: TreeV) -> Recognition<TransparentLayerV> {
        Recognition::Found(TransparentLayerV { puzzle_hash: tree_digest(t), puzzle: Some(t) })
    }

    open spec fn parse_spend(puzzle: TreeV, solution: TreeV) -> Recognition<TransparentLayerV> {
        Recognition::Found(
            TransparentLayerV { puzzle_hash: tree_digest(puzzle), puzzle: Some(puzzle) },
        )
    }

    open spec fn hash_repr(v: TransparentLayerV) -> Seq<u8> {
        v.puzzle_hash
    }

    fn construct_puzzle(&self) -> (r: Result<ClvmTree, DriverError>) {
        match &self.puzzle {
            Some(t) => Ok(clone_tree(t)),
            None => Err(DriverError::MissingPuzzle),
        }
    }

    fn construct_solution(&self, solution: ClvmTree) -> (r: Result<ClvmTree, DriverError>) {
        Ok(solution)
    }

    fn from_puzzle(puzzle: &ClvmTree) -> (r: Result<Option<Self>, DriverError>) {
        let hash = tree_hash(puzzle);
        Ok(Some(TransparentLayer { puzzle_hash: hash, puzzle: Some(clone_tree(puzzle)) }))
    }

    fn from_parent_spend(puzzle: &ClvmTree, solution: &ClvmTree) -> (r: Result<
        Option<Self>,
        DriverError,
    >) {
        let hash = tree_hash(puzzle);
        Ok(Some(TransparentLayer { puzzle_hash: hash, puzzle: Some(clone_tree(puzzle)) }))
    }

    fn tree_hash(&self) -> (r: Vec<u8>) {
        copy_bytes(&self.puzzle_hash)
    }

    proof fn lemma_puzzle_roundtrip(v: TransparentLayerV) {
        let t = Self::build_puzzle(v).unwrap();
        assert(v.puzzle == Some(t));
        assert(Self::parse_puzzle(t) matches Recognition::Found(p) && p =~= v);
    }

    proof fn lemma_spend_roundtrip(v: TransparentLayerV, s: TreeV) {
        let t = Self::build_puzzle(v).unwrap();
        assert(v.puzzle == Some(t));
        assert(Self::parse_spend(t, Self::build_solution(v, s).unwrap())
            matches Recognition::Found(p) && p =~= v);
    }

    proof fn lemma_hash_consistent(v: TransparentLayerV) {
    }
}

} // verus!
