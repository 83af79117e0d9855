//! End-to-end behavior of the layer codec: construction and recognition
//! round trips, lineage bookkeeping, and the rejection rules.

use puzzle_layers::coin::Coin;
use puzzle_layers::digest::tree_hash;
use puzzle_layers::encoding::deserialize;
use puzzle_layers::errors::DriverError;
use puzzle_layers::layer::{OuterPuzzleLayer, PuzzleLayer};
use puzzle_layers::puzzle::curry2;
use puzzle_layers::singleton::{
    build_struct, decode_solution, singleton_launcher_puzzle_hash, singleton_top_layer_hash,
    singleton_top_layer_program, EveProof, LineageProof, Proof, SingletonLayer,
    SingletonLayerSolution,
};
use puzzle_layers::transparent::TransparentLayer;
use puzzle_layers::tree::{tree_eq, ClvmTree};

type Singleton = SingletonLayer<TransparentLayer>;

fn leaf(bytes: Vec<u8>) -> TransparentLayer {
    let tree = ClvmTree::Atom(bytes);
    let hash = tree_hash(&tree);
    TransparentLayer::new(hash, Some(tree))
}

fn leaf_tree(layer: &TransparentLayer) -> &ClvmTree {
    layer.puzzle.as_ref().expect("leaf holds its tree")
}

#[test]
fn test_puzzle_roundtrip() {
    let layer = Singleton::new(vec![7u8; 32], leaf(vec![1]));
    let puzzle = layer.construct_puzzle().unwrap();
    let parsed = Singleton::from_puzzle(&puzzle).unwrap().expect("should recognize");
    assert_eq!(parsed.launcher_id, vec![7u8; 32]);
    assert_eq!(parsed.inner_puzzle.puzzle_hash, layer.inner_puzzle.puzzle_hash);
    assert!(tree_eq(leaf_tree(&parsed.inner_puzzle), leaf_tree(&layer.inner_puzzle)));
}

#[test]
fn test_parent_spend_roundtrip() {
    let layer = Singleton::new(vec![7u8; 32], leaf(vec![1]));
    let coin = Coin::new(vec![3u8; 32], layer.tree_hash(), 1);
    let solution = SingletonLayerSolution {
        lineage_proof: Proof::Eve(EveProof { parent_coin_info: vec![9u8; 32], amount: 1 }),
        amount: 1,
        inner_solution: ClvmTree::Atom(vec![]),
    };
    let spend = layer.solve(coin, solution).unwrap();
    assert_eq!(spend.coin.amount, 1);
    let puzzle = deserialize(&spend.puzzle_reveal).unwrap();
    let sol = deserialize(&spend.solution).unwrap();
    let parsed = Singleton::from_parent_spend(&puzzle, &sol).unwrap().expect("should recognize");
    assert_eq!(parsed.launcher_id, vec![7u8; 32]);
    assert!(tree_eq(leaf_tree(&parsed.inner_puzzle), leaf_tree(&layer.inner_puzzle)));
    // The decoded solution carries the proof and amount that went in.
    let (proof, amount, inner_sol) = decode_solution(&sol).expect("solution should decode");
    match proof {
        Proof::Eve(e) => {
            assert_eq!(e.parent_coin_info, vec![9u8; 32]);
            assert_eq!(e.amount, 1);
        }
        Proof::Lineage(_) => panic!("expected an eve proof"),
    }
    assert_eq!(amount, 1);
    assert!(tree_eq(&inner_sol, &ClvmTree::Atom(vec![])));
}

#[test]
fn test_nested_singleton_roundtrip() {
    // The layer is generic in its inner layer, so an identity layer can
    // wrap another identity layer; recognition recurses all the way down.
    type Nested = SingletonLayer<SingletonLayer<TransparentLayer>>;
    let inner = SingletonLayer::new(vec![8u8; 32], leaf(vec![1]));
    let outer: Nested = SingletonLayer::new(vec![7u8; 32], inner);
    let puzzle = outer.construct_puzzle().unwrap();
    let parsed = Nested::from_puzzle(&puzzle).unwrap().expect("should recognize");
    assert_eq!(parsed.launcher_id, vec![7u8; 32]);
    assert_eq!(parsed.inner_puzzle.launcher_id, vec![8u8; 32]);
    assert!(tree_eq(
        leaf_tree(&parsed.inner_puzzle.inner_puzzle),
        leaf_tree(&outer.inner_puzzle.inner_puzzle)
    ));
    assert_eq!(outer.tree_hash(), tree_hash(&puzzle));
}

#[test]
fn test_hash_tree_equivalence() {
    let layer = Singleton::new(vec![11u8; 32], leaf(vec![1, 2, 3]));
    let puzzle = layer.construct_puzzle().unwrap();
    assert_eq!(layer.tree_hash(), tree_hash(&puzzle));
}

#[test]
fn test_lineage_proof_equivalence() {
    let layer = Singleton::new(vec![7u8; 32], leaf(vec![1]));
    let coin = Coin::new(vec![3u8; 32], layer.tree_hash(), 1000);
    let puzzle = layer.construct_puzzle().unwrap();
    let from_layer = layer.lineage_proof_for_child(vec![3u8; 32], 1000);
    let from_spend = Singleton::lineage_proof_from_parent_spend(&coin, &puzzle)
        .unwrap()
        .expect("should recognize");
    assert_eq!(from_layer.parent_parent_coin_id, from_spend.parent_parent_coin_id);
    assert_eq!(from_layer.parent_inner_puzzle_hash, from_spend.parent_inner_puzzle_hash);
    assert_eq!(from_layer.parent_amount, from_spend.parent_amount);
}

#[test]
fn test_foreign_template_absent() {
    // A puzzle curried from the launcher template, not the identity-layer
    // template: recognition must say absent, not error.
    let other_program = ClvmTree::Atom(vec![1]);
    let sstruct = build_struct(&vec![7u8; 32]);
    let foreign = curry2(other_program, sstruct, ClvmTree::Atom(vec![1]));
    assert!(matches!(Singleton::from_puzzle(&foreign), Ok(None)));
}

#[test]
fn test_bare_atom_absent() {
    assert!(matches!(Singleton::from_puzzle(&ClvmTree::Atom(vec![42])), Ok(None)));
    let pair = ClvmTree::pair(ClvmTree::Atom(vec![1]), ClvmTree::Atom(vec![2]));
    assert!(matches!(Singleton::from_puzzle(&pair), Ok(None)));
}

#[test]
fn test_tampered_launcher_hash_rejected() {
    let mut tampered = singleton_launcher_puzzle_hash();
    tampered[0] ^= 0x01;
    let sstruct = ClvmTree::pair(
        ClvmTree::Atom(singleton_top_layer_hash()),
        ClvmTree::pair(ClvmTree::Atom(vec![7u8; 32]), ClvmTree::Atom(tampered)),
    );
    let puzzle = curry2(singleton_top_layer_program(), sstruct, ClvmTree::Atom(vec![1]));
    assert!(matches!(
        Singleton::from_puzzle(&puzzle),
        Err(DriverError::InvalidSingletonStruct)
    ));
    let sol = ClvmTree::Atom(vec![]);
    assert!(matches!(
        Singleton::from_parent_spend(&puzzle, &sol),
        Err(DriverError::InvalidSingletonStruct)
    ));
}

#[test]
fn test_tampered_mod_hash_rejected() {
    let mut tampered = singleton_top_layer_hash();
    tampered[31] ^= 0x80;
    let sstruct = ClvmTree::pair(
        ClvmTree::Atom(tampered),
        ClvmTree::pair(ClvmTree::Atom(vec![7u8; 32]), ClvmTree::Atom(
            singleton_launcher_puzzle_hash(),
        )),
    );
    let puzzle = curry2(singleton_top_layer_program(), sstruct, ClvmTree::Atom(vec![1]));
    assert!(matches!(
        Singleton::from_puzzle(&puzzle),
        Err(DriverError::InvalidSingletonStruct)
    ));
}

#[test]
fn test_malformed_args_error() {
    // The identity-layer template curried with a single argument: the
    // template matches, so the malformed argument list is a hard error.
    let template = singleton_top_layer_program();
    let q = ClvmTree::Atom(vec![1]);
    let quoted = ClvmTree::pair(q, ClvmTree::Atom(vec![5]));
    let tail = ClvmTree::pair(ClvmTree::Atom(vec![1]), ClvmTree::nil());
    let env = ClvmTree::pair(ClvmTree::Atom(vec![4]), ClvmTree::pair(quoted, tail));
    let quoted_tpl = ClvmTree::pair(ClvmTree::Atom(vec![1]), template);
    let puzzle = ClvmTree::pair(
        ClvmTree::Atom(vec![2]),
        ClvmTree::pair(quoted_tpl, ClvmTree::pair(env, ClvmTree::nil())),
    );
    assert!(matches!(Singleton::from_puzzle(&puzzle), Err(DriverError::FromClvm)));
}

#[test]
fn test_garbage_solution_error() {
    let layer = Singleton::new(vec![7u8; 32], leaf(vec![1]));
    let puzzle = layer.construct_puzzle().unwrap();
    let garbage = ClvmTree::Atom(vec![1, 2, 3]);
    assert!(matches!(
        Singleton::from_parent_spend(&puzzle, &garbage),
        Err(DriverError::FromClvm)
    ));
}

#[test]
fn test_missing_puzzle_error() {
    let hash_only = TransparentLayer::new(vec![5u8; 32], None);
    assert!(matches!(hash_only.construct_puzzle(), Err(DriverError::MissingPuzzle)));
    let layer = SingletonLayer::new(vec![7u8; 32], TransparentLayer::new(vec![5u8; 32], None));
    assert!(matches!(layer.construct_puzzle(), Err(DriverError::MissingPuzzle)));
}

#[test]
fn test_scenario_launch_eve_child() {
    // Launch coin with amount 1.
    let launcher_parent = vec![1u8; 32];
    let launcher_coin = Coin::new(launcher_parent.clone(), singleton_launcher_puzzle_hash(), 1);
    let launcher_id = launcher_coin.coin_id();

    // Eve spend: the identity is established over leaf A, with an eve
    // proof referencing the launch coin's parent and amount.
    let leaf_a = leaf(vec![1]);
    let leaf_a_hash = leaf_a.puzzle_hash.clone();
    let eve_layer = Singleton::new(launcher_id.clone(), leaf_a);
    let eve_coin = Coin::new(launcher_id.clone(), eve_layer.tree_hash(), 1);
    let eve_parent = eve_coin.parent_coin_info.clone();
    let eve_amount = eve_coin.amount;
    let eve_solution = SingletonLayerSolution {
        lineage_proof: Proof::Eve(EveProof { parent_coin_info: launcher_parent, amount: 1 }),
        amount: 1,
        inner_solution: ClvmTree::Atom(vec![]),
    };
    let eve_spend = eve_layer.solve(eve_coin, eve_solution).unwrap();

    // The proof the eve coin hands to its child.
    let child_proof = eve_layer.lineage_proof_for_child(eve_parent, eve_amount);
    assert_eq!(child_proof.parent_parent_coin_id, launcher_id);
    assert_eq!(child_proof.parent_inner_puzzle_hash, leaf_a_hash);
    assert_eq!(child_proof.parent_amount, 1);

    // The same proof recovered from the broadcast eve spend.
    let eve_puzzle = deserialize(&eve_spend.puzzle_reveal).unwrap();
    let recovered = Singleton::lineage_proof_from_parent_spend(&eve_spend.coin, &eve_puzzle)
        .unwrap()
        .expect("eve spend should be recognized");
    assert_eq!(recovered.parent_parent_coin_id, child_proof.parent_parent_coin_id);
    assert_eq!(recovered.parent_inner_puzzle_hash, child_proof.parent_inner_puzzle_hash);
    assert_eq!(recovered.parent_amount, child_proof.parent_amount);

    // Child spend: the identity re-wraps leaf B with the lineage proof.
    let child_layer = Singleton::new(launcher_id.clone(), leaf(vec![2]));
    let eve_coin_again = Coin::new(launcher_id.clone(), eve_layer.tree_hash(), 1);
    let child_coin = Coin::new(eve_coin_again.coin_id(), child_layer.tree_hash(), 1);
    let child_solution = SingletonLayerSolution {
        lineage_proof: Proof::Lineage(LineageProof {
            parent_parent_coin_id: child_proof.parent_parent_coin_id.clone(),
            parent_inner_puzzle_hash: child_proof.parent_inner_puzzle_hash.clone(),
            parent_amount: child_proof.parent_amount,
        }),
        amount: 1,
        inner_solution: ClvmTree::Atom(vec![]),
    };
    let child_spend = child_layer.solve(child_coin, child_solution).unwrap();

    // Parsing the child's spend from the ledger yields the identity over
    // leaf B, and the lineage proof that was constructed.
    let child_puzzle = deserialize(&child_spend.puzzle_reveal).unwrap();
    let child_sol = deserialize(&child_spend.solution).unwrap();
    let parsed = Singleton::from_parent_spend(&child_puzzle, &child_sol)
        .unwrap()
        .expect("child spend should be recognized");
    assert_eq!(parsed.launcher_id, launcher_id);
    assert_eq!(parsed.inner_puzzle.puzzle_hash, child_layer.inner_puzzle.puzzle_hash);
    let (decoded_proof, decoded_amount, _) = decode_solution(&child_sol).unwrap();
    match decoded_proof {
        Proof::Lineage(l) => {
            assert_eq!(l.parent_parent_coin_id, launcher_id);
            assert_eq!(l.parent_inner_puzzle_hash, leaf_a_hash);
            assert_eq!(l.parent_amount, 1);
        }
        Proof::Eve(_) => panic!("expected a lineage proof"),
    }
    assert_eq!(decoded_amount, 1);
}
