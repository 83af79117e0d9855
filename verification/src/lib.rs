//! Composable puzzle layers for smart coins on a UTXO-style ledger.
//!
//! A coin's spending conditions are an expression tree (a "puzzle") built by
//! wrapping an inner layer's puzzle in an outer template via currying. This
//! crate models those trees, constructs and parses layered puzzles and
//! solutions, and keeps the identity and lineage bookkeeping for a
//! persistent-identity ("singleton") layer.

pub mod coin;
pub mod digest;
pub mod encoding;
pub mod errors;
pub mod layer;
pub mod puzzle;
pub mod singleton;
pub mod transparent;
pub mod tree;

pub use coin::{Coin, CoinSpend};
pub use errors::DriverError;
pub use layer::{OuterPuzzleLayer, PuzzleLayer, Recognition};
pub use puzzle::{CurriedPuzzle, Puzzle};
pub use singleton::{EveProof, LineageProof, Proof, SingletonLayer, SingletonLayerSolution};
pub use transparent::TransparentLayer;
pub use tree::ClvmTree;
