//! The generic layer-codec contract every puzzle layer implements.

use vstd::prelude::*;

use crate::coin::{Coin, CoinSpend, CoinSpendV, CoinV};
use crate::digest::tree_digest;
use crate::errors::DriverError;
use crate::tree::{ClvmTree, TreeV};

verus! {

/// The three-way outcome of recognizing a layer in a tree: the tree is not
/// an instance of the layer's template at all, or it matched the template
/// but its embedded values are invalid, or a layer value was recovered.
pub enum Recognition<T> {
    Absent,
    Invalid(DriverError),
    Found(T),
}

/// A composable puzzle layer.
///
/// Every layer can build its puzzle tree and its solution tree from typed
/// data, recognize itself in a bare puzzle tree, recognize itself in the
/// puzzle and solution of an already-broadcast parent spend, and compute
/// its puzzle commitment without materializing the tree. Construction and
/// recognition are tied together by the round-trip laws at the bottom of
/// the trait, which every implementation must prove.
pub trait PuzzleLayer: View + Sized {
    type Solution: View;

    /// Well-formedness of the typed layer data.
    spec fn inv(v: Self::V) -> bool;

    /// Well-formedness of typed solution data for the layer.
    spec fn sol_inv(v: Self::V, s: <Self::Solution as View>::V) -> bool;

    /// The puzzle tree the layer builds, or the error construction reports.
    spec fn build_puzzle(v: Self::V) -> Result<TreeV, DriverError>;

    /// The solution tree the layer builds for the given solution data.
    spec fn build_solution(v: Self::V, s: <Self::Solution as View>::V) -> Result<
        TreeV,
        DriverError,
    >;

    /// What recognizing the layer in a bare puzzle tree yields.
    spec fn parse_puzzle(t: TreeV) -> Recognition<Self::V>;

    /// What recognizing the layer in a parent spend's puzzle and solution
    /// yields.
    spec fn parse_spend(puzzle: TreeV, solution: TreeV) -> Recognition<Self::V>;

    /// The layer's puzzle commitment.
    spec fn hash_repr(v: Self::V) -> Seq<u8>;

    /// Builds this layer's puzzle tree.
    fn construct_puzzle(&self) -> (r: Result<ClvmTree, DriverError>)
        requires
            Self::inv(self@),
        ensures
            (match Self::build_puzzle(self@) {
                Ok(t) => r matches Ok(c) && c@ == t,
                Err(e) => r matches Err(x) && x == e,
            }),
    ;

    /// Builds this layer's solution tree from typed solution data.
    fn construct_solution(&self, solution: Self::Solution) -> (r: Result<ClvmTree, DriverError>)
        requires
            Self::inv(self@),
        ensures
            (match Self::build_solution(self@, solution@) {
                Ok(t) => r matches Ok(c) && c@ == t,
                Err(e) => r matches Err(x) && x == e,
            }),
    ;

    /// Attempts to recognize this layer in a bare puzzle tree. An absent
    /// result is a normal outcome used when probing unknown puzzles; an
    /// error means the template matched but its embedded values are wrong.
    fn from_puzzle(puzzle: &ClvmTree) -> (r: Result<Option<Self>, DriverError>)
        ensures
            (match Self::parse_puzzle(puzzle@) {
                Recognition::Absent => r matches Ok(o) && o is None,
                Recognition::Invalid(e) => r matches Err(x) && x == e,
                Recognition::Found(v) => r matches Ok(o) && o matches Some(l) && l@ == v
                    && Self::inv(l@),
            }),
    ;

    /// Attempts to recognize this layer in the puzzle and solution revealed
    /// by an already-broadcast parent spend, recovering state that is only
    /// knowable from the solution.
    fn from_parent_spend(puzzle: &ClvmTree, solution: &ClvmTree) -> (r: Result<
        Option<Self>,
        DriverError,
    >)
        ensures
            (match Self::parse_spend(puzzle@, solution@) {
                Recognition::Absent => r matches Ok(o) && o is None,
                Recognition::Invalid(e) => r matches Err(x) && x == e,
                Recognition::Found(v) => r matches Ok(o) && o matches Some(l) && l@ == v
                    && Self::inv(l@),
            }),
    ;

    /// Computes the layer's puzzle commitment from its own fields, without
    /// building the puzzle tree.
    fn tree_hash(&self) -> (r: Vec<u8>)
        requires
            Self::inv(self@),
        ensures
            r@ == Self::hash_repr(self@),
            r@.len() == 32,
    ;

    /// Parsing the puzzle a layer builds recovers that layer exactly.
    proof fn lemma_puzzle_roundtrip(v: Self::V)
        requires
            Self::inv(v),
            Self::build_puzzle(v) is Ok,
        ensures
            Self::parse_puzzle(Self::build_puzzle(v).unwrap()) == Recognition::Found(v),
    ;

    /// Parsing the puzzle and solution a layer builds recovers that layer
    /// exactly.
    proof fn lemma_spend_roundtrip(v: Self::V, s: <Self::Solution as View>::V)
        requires
            Self::inv(v),
            Self::sol_inv(v, s),
            Self::build_puzzle(v) is Ok,
            Self::build_solution(v, s) is Ok,
        ensures
            Self::parse_spend(
                Self::build_puzzle(v).unwrap(),
                Self::build_solution(v, s).unwrap(),
            ) == Recognition::Found(v),
    ;

    /// The commitment computed from the layer's fields equals the digest of
    /// the puzzle tree the layer builds.
    proof fn lemma_hash_consistent(v: Self::V)
        requires
            Self::inv(v),
            Self::build_puzzle(v) is Ok,
        ensures
            Self::hash_repr(v) == tree_digest(Self::build_puzzle(v).unwrap()),
    ;
}

/// An outermost puzzle layer, able to assemble a whole spend record.
pub trait OuterPuzzleLayer: View + Sized {
    type Solution: View;

    /// Well-formedness of the layer data handed to `solve`.
    spec fn solvable(v: Self::V) -> bool;

    /// The spend record `solve` assembles, or the error it reports.
    spec fn build_spend(v: Self::V, coin: CoinV, s: <Self::Solution as View>::V) -> Result<
        CoinSpendV,
        DriverError,
    >;

    /// Builds the puzzle and solution trees, serializes both, and pairs
    /// them with the coin being spent.
    fn solve(&self, coin: Coin, solution: Self::Solution) -> (r: Result<CoinSpend, DriverError>)
        requires
            Self::solvable(self@),
        ensures
            (match Self::build_spend(self@, coin@, solution@) {
                Ok(sv) => r matches Ok(cs) && cs@ == sv,
                Err(e) => r matches Err(x) && x == e,
            }),
    ;
}

} // verus!
