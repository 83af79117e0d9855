//! Edge cases of the amount encoding and of tree serialization.

use puzzle_layers::encoding::{decode_uint, deserialize, encode_uint, serialize};
use puzzle_layers::tree::{tree_eq, ClvmTree};

#[test]
fn test_uint_zero_is_empty_atom() {
    assert_eq!(encode_uint(0), Vec::<u8>::new());
    assert_eq!(decode_uint(&Vec::new()), Some(0));
}

#[test]
fn test_uint_sign_padding() {
    assert_eq!(encode_uint(0x7f), vec![0x7f]);
    assert_eq!(encode_uint(0x80), vec![0x00, 0x80]);
    assert_eq!(encode_uint(0xff), vec![0x00, 0xff]);
    assert_eq!(encode_uint(0x100), vec![0x01, 0x00]);
    assert_eq!(encode_uint(u64::MAX), vec![0x00, 0xff, 0xff, 0xff, 0xff, 0xff, 0xff, 0xff, 0xff]);
}

#[test]
fn test_uint_roundtrip_values() {
    for v in [0u64, 1, 0x7f, 0x80, 0xff, 0x100, 0x7fff, 0x8000, 0xffff_ffff, u64::MAX] {
        assert_eq!(decode_uint(&encode_uint(v)), Some(v), "value {v}");
    }
}

#[test]
fn test_uint_rejects_sign_bit() {
    assert_eq!(decode_uint(&vec![0x80]), None);
    assert_eq!(decode_uint(&vec![0xff, 0x00]), None);
}

#[test]
fn test_uint_tolerates_zero_padding() {
    assert_eq!(decode_uint(&vec![0x00, 0x00, 0x01]), Some(1));
    let mut padded = vec![0u8; 64];
    padded.extend_from_slice(&[0xff; 8]);
    assert_eq!(decode_uint(&padded), Some(u64::MAX));
    let mut too_padded = vec![0u8; 65];
    too_padded.extend_from_slice(&[0xff; 8]);
    assert_eq!(decode_uint(&too_padded), None);
}

#[test]
fn test_uint_rejects_nonzero_overlong() {
    // Nine bytes whose top byte is not a pure pad carry no 64-bit value.
    assert_eq!(decode_uint(&vec![0x01, 0, 0, 0, 0, 0, 0, 0, 0]), None);
}

#[test]
fn test_serialize_atom_forms() {
    assert_eq!(serialize(&ClvmTree::Atom(vec![])).unwrap(), vec![0x80]);
    assert_eq!(serialize(&ClvmTree::Atom(vec![0x7f])).unwrap(), vec![0x7f]);
    assert_eq!(serialize(&ClvmTree::Atom(vec![0x80])).unwrap(), vec![0x81, 0x80]);
    let pair = ClvmTree::pair(ClvmTree::Atom(vec![1]), ClvmTree::Atom(vec![]));
    assert_eq!(serialize(&pair).unwrap(), vec![0xff, 0x01, 0x80]);
}

#[test]
fn test_deserialize_rejects_truncated() {
    assert!(deserialize(&vec![]).is_err());
    assert!(deserialize(&vec![0xff, 0x01]).is_err());
    assert!(deserialize(&vec![0x83, 0x01]).is_err());
}

#[test]
fn test_deep_tree_roundtrip() {
    let mut t = ClvmTree::Atom(vec![]);
    for i in 0..200u16 {
        t = ClvmTree::pair(ClvmTree::Atom(vec![(i % 256) as u8]), t);
    }
    let bytes = serialize(&t).unwrap();
    let back = deserialize(&bytes).unwrap();
    assert!(tree_eq(&t, &back));
}
