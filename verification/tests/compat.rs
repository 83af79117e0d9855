//! Checks the library's encodings, digests and constants against the
//! ecosystem crates they must stay byte-compatible with.

use clvmr::allocator::NodePtr;
use clvmr::serde::node_to_bytes;
use clvmr::Allocator;

use clvm_traits::ToClvm;
use puzzle_layers::coin::Coin;
use puzzle_layers::digest::{hash_atom, tree_hash};
use puzzle_layers::encoding::{deserialize, encode_uint, serialize};
use puzzle_layers::puzzle::curry2;
use puzzle_layers::layer::PuzzleLayer;
use puzzle_layers::singleton::{
    singleton_launcher_puzzle_hash, singleton_top_layer_hash, singleton_top_layer_program,
    SingletonLayer,
};
use puzzle_layers::transparent::TransparentLayer;
use puzzle_layers::tree::{tree_eq, ClvmTree};

fn to_node(a: &mut Allocator, t: &ClvmTree) -> NodePtr {
    match t {
        ClvmTree::Atom(bytes) => a.new_atom(bytes).unwrap(),
        ClvmTree::Pair(first, rest) => {
            let f = to_node(a, first);
            let r = to_node(a, rest);
            a.new_pair(f, r).unwrap()
        }
    }
}

fn sample_tree() -> ClvmTree {
    let a = ClvmTree::Atom(vec![51]);
    let b = ClvmTree::Atom(vec![0xab; 32]);
    let c = ClvmTree::Atom(vec![]);
    let d = ClvmTree::Atom(vec![1, 2, 3, 4, 5, 6, 7, 8, 9, 10]);
    let inner = ClvmTree::pair(b, ClvmTree::pair(d, c));
    ClvmTree::pair(a, inner)
}

#[test]
fn test_top_hash_constant_is_template_tree_hash() {
    let computed = clvm_utils::tree_hash_from_bytes(&chia_puzzles::SINGLETON_TOP_LAYER_V1_1)
        .unwrap();
    assert_eq!(computed.to_vec(), chia_puzzles::SINGLETON_TOP_LAYER_V1_1_HASH.to_vec());
    assert_eq!(singleton_top_layer_hash(), chia_puzzles::SINGLETON_TOP_LAYER_V1_1_HASH.to_vec());
}

#[test]
fn test_launcher_hash_constant() {
    assert_eq!(singleton_launcher_puzzle_hash(), chia_puzzles::SINGLETON_LAUNCHER_HASH.to_vec());
}

#[test]
fn test_template_deserializes_and_reserializes() {
    let program = singleton_top_layer_program();
    let bytes = serialize(&program).unwrap();
    assert_eq!(bytes, chia_puzzles::SINGLETON_TOP_LAYER_V1_1.to_vec());
    assert_eq!(tree_hash(&program), chia_puzzles::SINGLETON_TOP_LAYER_V1_1_HASH.to_vec());
}

#[test]
fn test_tree_hash_matches_clvm_utils() {
    let t = sample_tree();
    let mut a = Allocator::new();
    let node = to_node(&mut a, &t);
    let theirs = clvm_utils::tree_hash(&a, node);
    assert_eq!(tree_hash(&t), theirs.to_vec());
}

#[test]
fn test_hash_atom_matches_known_digest() {
    // SHA-256 of the single byte 0x01: the tree hash of the empty atom.
    let expected = clvm_utils::tree_hash_atom(&[]);
    assert_eq!(hash_atom(&Vec::new()), expected.to_vec());
    let expected2 = clvm_utils::tree_hash_atom(&[0xde, 0xad]);
    assert_eq!(hash_atom(&vec![0xde, 0xad]), expected2.to_vec());
}

#[test]
fn test_serialize_matches_clvmr() {
    let t = sample_tree();
    let mut a = Allocator::new();
    let node = to_node(&mut a, &t);
    let theirs = node_to_bytes(&a, node).unwrap();
    assert_eq!(serialize(&t).unwrap(), theirs);
}

#[test]
fn test_serialize_long_atoms_matches_clvmr() {
    for len in [0usize, 1, 2, 0x3f, 0x40, 0x1fff, 0x2000, 0xf_ffff, 0x10_0000] {
        let t = ClvmTree::Atom(vec![0x5a; len]);
        let mut a = Allocator::new();
        let node = to_node(&mut a, &t);
        let theirs = node_to_bytes(&a, node).unwrap();
        assert_eq!(serialize(&t).unwrap(), theirs, "atom length {len}");
    }
}

#[test]
fn test_deserialize_inverts_serialize() {
    let t = sample_tree();
    let bytes = serialize(&t).unwrap();
    let back = deserialize(&bytes).unwrap();
    assert!(tree_eq(&t, &back));
}

#[test]
fn test_deserialize_rejects_trailing_bytes() {
    let t = sample_tree();
    let mut bytes = serialize(&t).unwrap();
    bytes.push(0x00);
    assert!(deserialize(&bytes).is_err());
}

#[test]
fn test_coin_id_matches_chia_protocol() {
    for amount in [0u64, 1, 0x7f, 0x80, 0xff, 0x100, 0xffff_ffff, 1_000_000_000_000, u64::MAX] {
        let parent = [3u8; 32];
        let ph = [9u8; 32];
        let mine = Coin::new(parent.to_vec(), ph.to_vec(), amount).coin_id();
        let theirs = chia_protocol::Coin::new(
            chia_protocol::Bytes32::new(parent),
            chia_protocol::Bytes32::new(ph),
            amount,
        )
        .coin_id();
        assert_eq!(mine, theirs.to_vec(), "amount {amount}");
    }
}

#[test]
fn test_uint_encoding_matches_clvm_traits() {
    for v in [0u64, 1, 0x7f, 0x80, 0xff, 0x100, 0x8000, 0xffff_ffff, u64::MAX] {
        let mut a = Allocator::new();
        let node = v.to_clvm(&mut a).unwrap();
        let theirs = a.atom(node).as_ref().to_vec();
        assert_eq!(encode_uint(v), theirs, "value {v}");
    }
}

#[test]
fn test_singleton_tree_hash_matches_curry_tree_hash() {
    let leaf_tree = ClvmTree::Atom(vec![1]);
    let leaf_hash = tree_hash(&leaf_tree);
    let leaf = TransparentLayer::new(leaf_hash.clone(), Some(leaf_tree));
    let layer = SingletonLayer::new(vec![7u8; 32], leaf);
    let mine = layer.tree_hash();

    let mut a = Allocator::new();
    let struct_tree = puzzle_layers::singleton::build_struct(&vec![7u8; 32]);
    let struct_node = to_node(&mut a, &struct_tree);
    let struct_hash = clvm_utils::tree_hash(&a, struct_node);
    let theirs = clvm_utils::curry_tree_hash(
        clvm_utils::TreeHash::new(chia_puzzles::SINGLETON_TOP_LAYER_V1_1_HASH),
        &[struct_hash, clvm_utils::TreeHash::new(leaf_hash.clone().try_into().unwrap())],
    );
    assert_eq!(mine, theirs.to_vec());
}

#[test]
fn test_curried_puzzle_matches_clvmr_curry() {
    // The puzzle built by the layer serializes to the same bytes as a
    // curried program assembled through clvmr's own allocator.
    let leaf_tree = ClvmTree::Atom(vec![1]);
    let leaf_hash = tree_hash(&leaf_tree);
    let leaf = TransparentLayer::new(leaf_hash, Some(ClvmTree::Atom(vec![1])));
    let layer = SingletonLayer::new(vec![7u8; 32], leaf);
    let puzzle = layer.construct_puzzle().unwrap();
    let mine = serialize(&puzzle).unwrap();

    let mut a = Allocator::new();
    let template = clvmr::serde::node_from_bytes(&mut a, &chia_puzzles::SINGLETON_TOP_LAYER_V1_1)
        .unwrap();
    let struct_tree = puzzle_layers::singleton::build_struct(&vec![7u8; 32]);
    let struct_node = to_node(&mut a, &struct_tree);
    let leaf_node = a.new_atom(&[1]).unwrap();
    let one = a.one();
    let q = a.new_small_number(1).unwrap();
    let c = a.new_small_number(4).unwrap();
    let ap = a.new_small_number(2).unwrap();
    let nil = a.nil();
    // env = (c (q . struct) (c (q . leaf) 1))
    let q_leaf = a.new_pair(q, leaf_node).unwrap();
    let tail1 = a.new_pair(one, nil).unwrap();
    let body1 = a.new_pair(q_leaf, tail1).unwrap();
    let env1 = a.new_pair(c, body1).unwrap();
    let q_struct = a.new_pair(q, struct_node).unwrap();
    let tail0 = a.new_pair(env1, nil).unwrap();
    let body0 = a.new_pair(q_struct, tail0).unwrap();
    let env = a.new_pair(c, body0).unwrap();
    // curried = (a (q . template) env)
    let q_tpl = a.new_pair(q, template).unwrap();
    let env_nil = a.new_pair(env, nil).unwrap();
    let body = a.new_pair(q_tpl, env_nil).unwrap();
    let curried = a.new_pair(ap, body).unwrap();
    let theirs = node_to_bytes(&a, curried).unwrap();
    assert_eq!(mine, theirs);
}

#[test]
fn test_curry2_shape_matches_clvm_utils_hash() {
    // Currying any template with any two arguments produces a tree whose
    // hash clvm-utils computes identically from the component hashes.
    let program = ClvmTree::Atom(vec![2]);
    let arg1 = ClvmTree::Atom(vec![5]);
    let arg2 = ClvmTree::Atom(vec![8]);
    let ph = tree_hash(&program);
    let h1 = tree_hash(&arg1);
    let h2 = tree_hash(&arg2);
    let curried = curry2(program, arg1, arg2);
    let mine = tree_hash(&curried);
    let theirs = clvm_utils::curry_tree_hash(
        clvm_utils::TreeHash::new(ph.try_into().unwrap()),
        &[
            clvm_utils::TreeHash::new(h1.try_into().unwrap()),
            clvm_utils::TreeHash::new(h2.try_into().unwrap()),
        ],
    );
    assert_eq!(mine, theirs.to_vec());
}
