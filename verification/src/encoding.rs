//! Wire encodings: unsigned amounts as minimal signed big-endian atoms, and
//! the byte serialization of whole trees.

use vstd::prelude::*;

use crate::digest::push_all;
use crate::errors::DriverError;
use crate::tree::{ClvmTree, TreeV};

verus! {

/// 256 raised to the `n`th power.
pub open spec fn pow256(n: nat) -> nat
    decreases n,
{
    if n == 0 {
        1
    } else {
        256 * pow256((n - 1) as nat)
    }
}

/// The minimal big-endian bytes of an unsigned value: no leading zero, empty
/// for zero.
pub open spec fn be_bytes(v: nat) -> Seq<u8>
    decreases v,
{
    if v == 0 {
        Seq::empty()
    } else {
        be_bytes(v / 256) + seq![(v % 256) as u8]
    }
}

/// The unsigned value read big-endian from a byte string.
pub open spec fn be_val(s: Seq<u8>) -> nat
    decreases s.len(),
{
    if s.len() == 0 {
        0
    } else {
        be_val(s.drop_last()) * 256 + s.last() as nat
    }
}

/// The atom encoding of an unsigned 64-bit value: its minimal big-endian
/// bytes, with one zero byte prepended when the top bit would read as a sign.
pub open spec fn uint_bytes(v: u64) -> Seq<u8> {
    if v == 0 {
        Seq::empty()
    } else if be_bytes(v as nat)[0] >= 0x80 {
        seq![0u8] + be_bytes(v as nat)
    } else {
        be_bytes(v as nat)
    }
}

/// The unsigned 64-bit value an atom decodes to, if any: an empty atom is
/// zero, a leading sign bit is rejected, and up to 64 zero padding bytes are
/// tolerated ahead of the 8 value bytes.
pub open spec fn uint_val(s: Seq<u8>) -> Option<u64> {
    if s.len() == 0 {
        Some(0u64)
    } else if s[0] >= 0x80 {
        None
    } else if s.len() <= 8 {
        Some(be_val(s) as u64)
    } else if s.len() <= 72 && (forall|i: int| 0 <= i < s.len() - 8 ==> s[i] == 0) {
        Some(be_val(s.skip(s.len() - 8)) as u64)
    } else {
        None
    }
}

pub proof fn lemma_pow256_monotone(i: nat, j: nat)
    requires
        i <= j,
    ensures
        pow256(i) <= pow256(j),
    decreases j,
{
    if i < j {
        lemma_pow256_monotone(i, (j - 1) as nat);
        assert(pow256(j) == 256 * pow256((j - 1) as nat));
    }
}

pub proof fn lemma_be_val_bound(s: Seq<u8>)
    ensures
        be_val(s) < pow256(s.len()),
    decreases s.len(),
{
    if s.len() > 0 {
        lemma_be_val_bound(s.drop_last());
        assert(be_val(s.drop_last()) <= pow256((s.len() - 1) as nat) - 1);
        assert(be_val(s.drop_last()) * 256 <= (pow256((s.len() - 1) as nat) - 1) * 256)
            by (nonlinear_arith)
            requires
                be_val(s.drop_last()) <= pow256((s.len() - 1) as nat) - 1,
        ;
    }
}

pub proof fn lemma_be_bytes_len(v: nat, n: nat)
    requires
        v < pow256(n),
    ensures
        be_bytes(v).len() <= n,
    decreases n,
{
    if v > 0 {
        assert(n > 0);
        assert(pow256(n) == 256 * pow256((n - 1) as nat));
        assert(v / 256 < pow256((n - 1) as nat)) by (nonlinear_arith)
            requires
                v < 256 * pow256((n - 1) as nat),
        ;
        lemma_be_bytes_len(v / 256, (n - 1) as nat);
    }
}

pub proof fn lemma_be_bytes_first(v: nat)
    requires
        v > 0,
    ensures
        be_bytes(v).len() >= 1,
        be_bytes(v)[0] != 0,
    decreases v,
{
    if v < 256 {
        assert(v / 256 == 0);
        assert(be_bytes(0) =~= Seq::<u8>::empty());
        assert(be_bytes(v) =~= seq![(v % 256) as u8]);
        assert(v % 256 == v);
    } else {
        lemma_be_bytes_first(v / 256);
        assert(be_bytes(v)[0] == be_bytes(v / 256)[0]);
    }
}

pub proof fn lemma_be_bytes_val(v: nat)
    ensures
        be_val(be_bytes(v)) == v,
    decreases v,
{
    if v > 0 {
        lemma_be_bytes_val(v / 256);
        let s = be_bytes(v);
        assert(s.drop_last() =~= be_bytes(v / 256));
        assert(s.last() == (v % 256) as u8);
        assert(v / 256 * 256 + v % 256 == v);
    }
}

/// A leading zero byte does not change the value read.
pub proof fn lemma_be_val_leading_zero(s: Seq<u8>)
    ensures
        be_val(seq![0u8] + s) == be_val(s),
    decreases s.len(),
{
    if s.len() == 0 {
        assert(seq![0u8] + s =~= seq![0u8]);
        assert(seq![0u8].drop_last() =~= Seq::<u8>::empty());
        assert(be_val(Seq::<u8>::empty()) == 0);
        assert(be_val(seq![0u8]) == be_val(Seq::<u8>::empty()) * 256 + 0);
    } else {
        lemma_be_val_leading_zero(s.drop_last());
        assert((seq![0u8] + s).drop_last() =~= seq![0u8] + s.drop_last());
        assert((seq![0u8] + s).last() == s.last());
    }
}

/// Decoding inverts encoding on every unsigned 64-bit value.
pub proof fn lemma_uint_roundtrip(v: u64)
    ensures
        uint_val(uint_bytes(v)) == Some(v),
{
    if v > 0 {
        let b = be_bytes(v as nat);
        lemma_be_bytes_first(v as nat);
        lemma_be_bytes_val(v as nat);
        assert(pow256(8) == 0x1_0000_0000_0000_0000) by {
            reveal_with_fuel(pow256, 9);
        }
        lemma_be_bytes_len(v as nat, 8);
        if b[0] >= 0x80 {
            let s = seq![0u8] + b;
            assert(s[0] == 0);
            lemma_be_val_leading_zero(b);
            if s.len() <= 8 {
                assert(uint_val(s) == Some(be_val(s) as u64));
                assert(be_val(s) == v as nat);
            } else {
                assert(b.len() == 8);
                assert(s.len() == 9);
                assert(forall|i: int| 0 <= i < s.len() - 8 ==> s[i] == 0);
                assert(s.skip(1) =~= b);
                assert(uint_val(s) == Some(be_val(b) as u64));
            }
        } else {
            assert(b[0] < 0x80);
            assert(b.len() >= 1);
            assert(uint_val(b) == Some(be_val(b) as u64));
        }
    }
}

/// The minimal big-endian bytes of `v`.
fn be_bytes_exec(v: u64) -> (r: Vec<u8>)
    ensures
        r@ == be_bytes(v as nat),
    decreases v,
{
    if v == 0 {
        Vec::new()
    } else {
        let mut r = be_bytes_exec(v / 256);
        r.push((v % 256) as u8);
        proof {
            assert(r@ =~= be_bytes(v as nat));
        }
        r
    }
}

/// Encodes an unsigned 64-bit value as its wire atom bytes.
pub fn encode_uint(v: u64) -> (r: Vec<u8>)
    ensures
        r@ == uint_bytes(v),
{
    let mut b = be_bytes_exec(v);
    if b.len() > 0 && b[0] >= 0x80 {
        b.insert(0, 0);
        proof {
            assert(b@ =~= seq![0u8] + be_bytes(v as nat));
        }
    }
    b
}

/// Decodes an atom's bytes as an unsigned 64-bit value.
pub fn decode_uint(bytes: &Vec<u8>) -> (r: Option<u64>)
    ensures
        r == uint_val(bytes@),
{
    let n = bytes.len();
    if n == 0 {
        return Some(0);
    }
    if bytes[0] >= 0x80 {
        return None;
    }
    if n > 72 {
        return None;
    }
    let start: usize = if n > 8 {
        let mut i: usize = 0;
        while i < n - 8
            invariant
                n == bytes@.len(),
                8 < n <= 72,
                i <= n - 8,
                forall|j: int| 0 <= j < i ==> bytes@[j] == 0,
            decreases n - 8 - i,
        {
            if bytes[i] != 0 {
                proof {
                    assert(!(forall|j: int| 0 <= j < bytes@.len() - 8 ==> bytes@[j] == 0));
                }
                return None;
            }
            i += 1;
        }
        n - 8
    } else {
        0
    };
    let ghost tail = bytes@.skip(start as int);
    let mut acc: u64 = 0;
    let mut i: usize = start;
    while i < n
        invariant
            n == bytes@.len(),
            start <= i <= n,
            n - start <= 8,
            tail == bytes@.skip(start as int),
            acc == be_val(tail.take(i - start)),
            acc < pow256((i - start) as nat),
        decreases n - i,
    {
        proof {
            lemma_pow256_monotone((i - start) as nat, 7);
            assert(pow256(7) == 0x100_0000_0000_0000) by {
                reveal_with_fuel(pow256, 8);
            }
            assert(acc <= 0xff_ffff_ffff_ffff);
        }
        let b = bytes[i];
        let next: u64 = acc * 256 + (b as u64);
        proof {
            let k = (i - start) as int;
            assert(tail.take(k + 1).drop_last() =~= tail.take(k));
            assert(tail.take(k + 1).last() == tail[k]);
            assert(tail[k] == bytes@[i as int]);
            assert(pow256((k + 1) as nat) == 256 * pow256(k as nat));
            assert(next < 256 * pow256(k as nat)) by (nonlinear_arith)
                requires
                    acc < pow256(k as nat),
                    next == acc * 256 + bytes@[i as int],
                    bytes@[i as int] < 256,
            ;
        }
        acc = next;
        i += 1;
    }
    proof {
        if start == 0 {
            assert(tail =~= bytes@);
            assert(tail.take(n as int) =~= tail);
            lemma_be_val_bound(bytes@);
        } else {
            assert(tail.take((n - start) as int) =~= tail);
            lemma_be_val_bound(tail);
            assert(forall|j: int| 0 <= j < bytes@.len() - 8 ==> bytes@[j] == 0);
        }
    }
    Some(acc)
}

// ---------------------------------------------------------------------------
// Tree serialization
// ---------------------------------------------------------------------------

/// Whether the serializer accepts the tree: every atom is shorter than the
/// largest length a five-byte prefix can carry.
pub open spec fn serializable(t: TreeV) -> bool
    decreases t,
{
    match t {
        TreeV::Atom(bytes) => bytes.len() < 0x4_0000_0000,
        TreeV::Pair(first, rest) => serializable(*first) && serializable(*rest),
    }
}

/// The length prefix written before an atom's bytes. A one-byte atom below
/// 0x80 is written bare; longer atoms carry their length in one to five
/// prefix bytes.
pub open spec fn len_prefix(b: Seq<u8>) -> Seq<u8> {
    let n = b.len();
    if n == 0 {
        seq![0x80u8]
    } else if n == 1 && b[0] < 0x80 {
        Seq::empty()
    } else if n < 0x40 {
        seq![(0x80 + n) as u8]
    } else if n < 0x2000 {
        seq![(0xc0 + n / 0x100) as u8, (n % 0x100) as u8]
    } else if n < 0x10_0000 {
        seq![(0xe0 + n / 0x1_0000) as u8, ((n / 0x100) % 0x100) as u8, (n % 0x100) as u8]
    } else if n < 0x800_0000 {
        seq![
            (0xf0 + n / 0x100_0000) as u8,
            ((n / 0x1_0000) % 0x100) as u8,
            ((n / 0x100) % 0x100) as u8,
            (n % 0x100) as u8,
        ]
    } else {
        seq![
            (0xf8 + n / 0x1_0000_0000) as u8,
            ((n / 0x100_0000) % 0x100) as u8,
            ((n / 0x1_0000) % 0x100) as u8,
            ((n / 0x100) % 0x100) as u8,
            (n % 0x100) as u8,
        ]
    }
}

/// The byte serialization of a tree: prefixed atoms, and `0xff` followed by
/// both subtrees for a pair. Meaningful when `serializable` holds.
pub open spec fn serial(t: TreeV) -> Seq<u8>
    decreases t,
{
    match t {
        TreeV::Atom(bytes) => len_prefix(bytes) + bytes,
        TreeV::Pair(first, rest) => seq![0xffu8] + serial(*first) + serial(*rest),
    }
}

/// For a prefix byte in `0x80..0xff`, the count of extra size bytes that
/// follow and the size bits carried by the prefix byte itself.
pub open spec fn prefix_extra(c: u8) -> Option<(nat, nat)> {
    if c < 0xc0 {
        Some(((0nat), (c - 0x80) as nat))
    } else if c < 0xe0 {
        Some(((1nat), (c - 0xc0) as nat))
    } else if c < 0xf0 {
        Some(((2nat), (c - 0xe0) as nat))
    } else if c < 0xf8 {
        Some(((3nat), (c - 0xf0) as nat))
    } else if c < 0xfc {
        Some(((4nat), (c - 0xf8) as nat))
    } else {
        None
    }
}

/// Parses one tree from the front of `s`, returning it and the count of
/// bytes consumed.
pub open spec fn parse_node(s: Seq<u8>) -> Option<(TreeV, nat)>
    decreases s.len(),
{
    if s.len() == 0 {
        None
    } else {
        let c = s[0];
        if c == 0xff {
            match parse_node(s.skip(1)) {
                None => None,
                Some((first, n1)) => if 1 + n1 <= s.len() {
                    match parse_node(s.skip(1 + n1 as int)) {
                        None => None,
                        Some((rest, n2)) => if 1 + n1 + n2 <= s.len() {
                            Some((TreeV::Pair(Box::new(first), Box::new(rest)), 1 + n1 + n2))
                        } else {
                            None
                        },
                    }
                } else {
                    None
                },
            }
        } else if c < 0x80 {
            Some((TreeV::Atom(seq![c]), 1))
        } else {
            match prefix_extra(c) {
                None => None,
                Some((extra, base)) => if 1 + extra <= s.len() {
                    let size = base * pow256(extra) + be_val(s.subrange(1, 1 + extra as int));
                    if 1 + extra + size <= s.len() {
                        Some(
                            (
                                TreeV::Atom(
                                    s.subrange(1 + extra as int, 1 + extra as int + size as int),
                                ),
                                1 + extra + size,
                            ),
                        )
                    } else {
                        None
                    }
                } else {
                    None
                },
            }
        }
    }
}

/// A successful parse consumes between one byte and the whole input.
pub proof fn lemma_parse_consumes(s: Seq<u8>)
    ensures
        parse_node(s) matches Some(p) ==> 1 <= p.1 <= s.len(),
    decreases s.len(),
{
    if s.len() > 0 && s[0] == 0xff {
        lemma_parse_consumes(s.skip(1));
        match parse_node(s.skip(1)) {
            Some((first, n1)) => {
                if 1 + n1 <= s.len() {
                    lemma_parse_consumes(s.skip(1 + n1 as int));
                }
            }
            None => {}
        }
    }
}

proof fn lemma_be_val1(a: u8)
    ensures
        be_val(seq![a]) == a,
{
    assert(seq![a].drop_last() =~= Seq::<u8>::empty());
    assert(be_val(Seq::<u8>::empty()) == 0);
}

proof fn lemma_be_val2(a: u8, b: u8)
    ensures
        be_val(seq![a, b]) == a * 256 + b,
{
    assert(seq![a, b].drop_last() =~= seq![a]);
    lemma_be_val1(a);
}

proof fn lemma_be_val3(a: u8, b: u8, c: u8)
    ensures
        be_val(seq![a, b, c]) == (a * 256 + b) * 256 + c,
{
    assert(seq![a, b, c].drop_last() =~= seq![a, b]);
    lemma_be_val2(a, b);
}

proof fn lemma_be_val4(a: u8, b: u8, c: u8, d: u8)
    ensures
        be_val(seq![a, b, c, d]) == ((a * 256 + b) * 256 + c) * 256 + d,
{
    assert(seq![a, b, c, d].drop_last() =~= seq![a, b, c]);
    lemma_be_val3(a, b, c);
}

/// Parsing reads back exactly the tree that was serialized, whatever bytes
/// follow it.
pub proof fn lemma_parse_serial(t: TreeV, rest: Seq<u8>)
    requires
        serializable(t),
    ensures
        parse_node(serial(t) + rest) matches Some(p) && p.0 == t && p.1 == serial(t).len(),
    decreases t,
{
    let s = serial(t) + rest;
    match t {
        TreeV::Atom(b) => {
            let n = b.len();
            let p = len_prefix(b);
            assert(s =~= p + b + rest);
            if n == 0 {
                assert(s[0] == 0x80);
                assert(prefix_extra(0x80) == Some(((0nat), (0nat))));
                assert(s.subrange(1, 1) =~= Seq::<u8>::empty());
                assert(pow256(0) == 1);
                assert(s.subrange(1, 1) =~= b);
                assert(parse_node(s) matches Some(q) && q.0 == t && q.1 == 1);
            } else if n == 1 && b[0] < 0x80 {
                assert(s[0] == b[0]);
                assert(seq![s[0]] =~= b);
            } else if n < 0x40 {
                let c = (0x80 + n) as u8;
                assert(s[0] == c);
                assert(0x80 < c < 0xc0);
                assert(prefix_extra(c) == Some(((0nat), (c - 0x80) as nat)));
                assert((c - 0x80) as nat == n);
                assert(s.subrange(1, 1) =~= Seq::<u8>::empty());
                assert(be_val(Seq::<u8>::empty()) == 0);
                assert(pow256(0) == 1);
                let size = n * pow256(0) + be_val(Seq::<u8>::empty());
                assert(n * pow256(0) == n) by (nonlinear_arith)
                    requires
                        pow256(0) == 1,
                ;
                assert(size == n);
                assert(1 + size <= s.len());
                assert(s.subrange(1, 1 + n as int) =~= b);
            } else if n < 0x2000 {
                let c = (0xc0 + n / 0x100) as u8;
                assert(s[0] == c);
                assert(n / 0x100 < 0x20);
                assert(0xc0 <= c < 0xe0);
                assert(s[1] == (n % 0x100) as u8);
                assert(s.subrange(1, 2) =~= seq![(n % 0x100) as u8]);
                lemma_be_val1((n % 0x100) as u8);
                assert(pow256(1) == 256) by {
                    reveal_with_fuel(pow256, 2);
                }
                let size = (c - 0xc0) as nat * pow256(1) + be_val(s.subrange(1, 2));
                let m = n as u64;
                assert((m / 0x100) * 0x100 + m % 0x100 == m) by (bit_vector)
                    requires
                        m < 0x2000,
                ;
                assert(size == n);
                assert(1 + 1 + size <= s.len());
                assert(s.subrange(2, 2 + n as int) =~= b);
            } else if n < 0x10_0000 {
                let c = (0xe0 + n / 0x1_0000) as u8;
                assert(s[0] == c);
                assert(n / 0x1_0000 < 0x10);
                assert(0xe0 <= c < 0xf0);
                assert(s.subrange(1, 3) =~= seq![((n / 0x100) % 0x100) as u8, (n % 0x100) as u8]);
                lemma_be_val2(((n / 0x100) % 0x100) as u8, (n % 0x100) as u8);
                assert(pow256(2) == 0x1_0000) by {
                    reveal_with_fuel(pow256, 3);
                }
                let size = (c - 0xe0) as nat * pow256(2) + be_val(s.subrange(1, 3));
                let m = n as u64;
                assert((m / 0x1_0000) * 0x1_0000 + ((m / 0x100) % 0x100) * 0x100 + m % 0x100
                    == m) by (bit_vector)
                    requires
                        m < 0x10_0000,
                ;
                assert(size == n);
                assert(s.subrange(3, 3 + n as int) =~= b);
            } else if n < 0x800_0000 {
                let c = (0xf0 + n / 0x100_0000) as u8;
                assert(s[0] == c);
                assert(n / 0x100_0000 < 0x8);
                assert(0xf0 <= c < 0xf8);
                assert(s.subrange(1, 4) =~= seq![
                    ((n / 0x1_0000) % 0x100) as u8,
                    ((n / 0x100) % 0x100) as u8,
                    (n % 0x100) as u8,
                ]);
                lemma_be_val3(
                    ((n / 0x1_0000) % 0x100) as u8,
                    ((n / 0x100) % 0x100) as u8,
                    (n % 0x100) as u8,
                );
                assert(pow256(3) == 0x100_0000) by {
                    reveal_with_fuel(pow256, 4);
                }
                let size = (c - 0xf0) as nat * pow256(3) + be_val(s.subrange(1, 4));
                let m = n as u64;
                assert((m / 0x100_0000) * 0x100_0000 + ((m / 0x1_0000) % 0x100) * 0x1_0000 + ((m
                    / 0x100) % 0x100) * 0x100 + m % 0x100 == m) by (bit_vector)
                    requires
                        m < 0x800_0000,
                ;
                assert(size == n);
                assert(s.subrange(4, 4 + n as int) =~= b);
            } else {
                let c = (0xf8 + n / 0x1_0000_0000) as u8;
                assert(s[0] == c);
                assert(n / 0x1_0000_0000 < 0x4);
                assert(0xf8 <= c < 0xfc);
                assert(s.subrange(1, 5) =~= seq![
                    ((n / 0x100_0000) % 0x100) as u8,
                    ((n / 0x1_0000) % 0x100) as u8,
                    ((n / 0x100) % 0x100) as u8,
                    (n % 0x100) as u8,
                ]);
                lemma_be_val4(
                    ((n / 0x100_0000) % 0x100) as u8,
                    ((n / 0x1_0000) % 0x100) as u8,
                    ((n / 0x100) % 0x100) as u8,
                    (n % 0x100) as u8,
                );
                assert(pow256(4) == 0x1_0000_0000) by {
                    reveal_with_fuel(pow256, 5);
                }
                let size = (c - 0xf8) as nat * pow256(4) + be_val(s.subrange(1, 5));
                let m = n as u64;
                assert((m / 0x1_0000_0000) * 0x1_0000_0000 + ((m / 0x100_0000) % 0x100)
                    * 0x100_0000 + ((m / 0x1_0000) % 0x100) * 0x1_0000 + ((m / 0x100) % 0x100)
                    * 0x100 + m % 0x100 == m) by (bit_vector)
                    requires
                        m < 0x4_0000_0000,
                ;
                assert(size == n);
                assert(s.subrange(5, 5 + n as int) =~= b);
            }
        }
        TreeV::Pair(first, restree) => {
            let sf = serial(*first);
            let sr = serial(*restree);
            assert(s[0] == 0xff);
            assert(s.skip(1) =~= sf + (sr + rest));
            lemma_parse_serial(*first, sr + rest);
            let n1 = sf.len();
            assert(1 + n1 <= s.len());
            assert(s.skip(1 + n1 as int) =~= sr + rest);
            lemma_parse_serial(*restree, rest);
            let n2 = sr.len();
            assert(1 + n1 + n2 <= s.len());
            assert(serial(t).len() == 1 + n1 + n2);
        }
    }
}

/// Parsing the exact serialization of a tree yields the tree back, consuming
/// every byte.
pub proof fn lemma_serial_roundtrip(t: TreeV)
    requires
        serializable(t),
    ensures
        parse_node(serial(t)) == Some((t, serial(t).len() as nat)),
{
    lemma_parse_serial(t, Seq::<u8>::empty());
    assert(serial(t) + Seq::<u8>::empty() =~= serial(t));
}

/// Appends the serialization of `t` to `out`.
fn serialize_onto(t: &ClvmTree, out: &mut Vec<u8>) -> (r: Result<(), DriverError>)
    ensures
        r is Ok ==> serializable(t@) && final(out)@ == old(out)@ + serial(t@),
        r matches Err(e) ==> !serializable(t@) && e == DriverError::ToClvm,
    decreases t,
{
    match t {
        ClvmTree::Atom(bytes) => {
            let n = bytes.len();
            let n64: u64 = n as u64;
            if n == 0 {
                out.push(0x80);
                proof {
                    assert(out@ =~= old(out)@ + len_prefix(bytes@));
                }
            } else if n == 1 && bytes[0] < 0x80 {
                proof {
                    assert(out@ =~= old(out)@ + len_prefix(bytes@));
                }
            } else if n64 < 0x40 {
                out.push(0x80 + n as u8);
                proof {
                    assert(0x80 + n as u8 == (0x80 + bytes@.len()) as u8);
                    assert(out@ =~= old(out)@ + len_prefix(bytes@));
                }
            } else if n64 < 0x2000 {
                out.push(0xc0 + (n64 / 0x100) as u8);
                out.push((n64 % 0x100) as u8);
                proof {
                    assert(n64 / 0x100 == bytes@.len() / 0x100 && n64 % 0x100 == bytes@.len()
                        % 0x100);
                    assert(out@ =~= old(out)@ + len_prefix(bytes@));
                }
            } else if n64 < 0x10_0000 {
                out.push(0xe0 + (n64 / 0x1_0000) as u8);
                out.push(((n64 / 0x100) % 0x100) as u8);
                out.push((n64 % 0x100) as u8);
                proof {
                    assert(n64 / 0x1_0000 == bytes@.len() / 0x1_0000 && n64 / 0x100 == bytes@.len()
                        / 0x100 && n64 % 0x100 == bytes@.len() % 0x100);
                    assert(out@ =~= old(out)@ + len_prefix(bytes@));
                }
            } else if n64 < 0x800_0000 {
                out.push(0xf0 + (n64 / 0x100_0000) as u8);
                out.push(((n64 / 0x1_0000) % 0x100) as u8);
                out.push(((n64 / 0x100) % 0x100) as u8);
                out.push((n64 % 0x100) as u8);
                proof {
                    assert(n64 / 0x100_0000 == bytes@.len() / 0x100_0000 && n64 / 0x1_0000
                        == bytes@.len() / 0x1_0000 && n64 / 0x100 == bytes@.len() / 0x100 && n64
                        % 0x100 == bytes@.len() % 0x100);
                    assert(out@ =~= old(out)@ + len_prefix(bytes@));
                }
            } else if n64 < 0x4_0000_0000 {
                out.push(0xf8 + (n64 / 0x1_0000_0000) as u8);
                out.push(((n64 / 0x100_0000) % 0x100) as u8);
                out.push(((n64 / 0x1_0000) % 0x100) as u8);
                out.push(((n64 / 0x100) % 0x100) as u8);
                out.push((n64 % 0x100) as u8);
                proof {
                    assert(n64 / 0x1_0000_0000 == bytes@.len() / 0x1_0000_0000 && n64 / 0x100_0000
                        == bytes@.len() / 0x100_0000 && n64 / 0x1_0000 == bytes@.len() / 0x1_0000
                        && n64 / 0x100 == bytes@.len() / 0x100 && n64 % 0x100 == bytes@.len()
                        % 0x100);
                    assert(out@ =~= old(out)@ + len_prefix(bytes@));
                }
            } else {
                return Err(DriverError::ToClvm);
            }
            push_all(out, bytes);
            proof {
                assert(out@ =~= old(out)@ + serial(t@));
            }
            Ok(())
        }
        ClvmTree::Pair(first, rest) => {
            out.push(0xff);
            let ghost mid0 = out@;
            match serialize_onto(first, out) {
                Err(e) => {
                    return Err(e);
                }
                Ok(()) => {}
            }
            let ghost mid1 = out@;
            match serialize_onto(rest, out) {
                Err(e) => {
                    return Err(e);
                }
                Ok(()) => {}
            }
            proof {
                assert(mid0 =~= old(out)@ + seq![0xffu8]);
                assert(mid1 == mid0 + serial(first@));
                assert(out@ == mid1 + serial(rest@));
                assert(out@ =~= old(out)@ + serial(t@));
            }
            Ok(())
        }
    }
}

/// Serializes a tree to bytes. Fails exactly when some atom is too long for
/// the longest length prefix.
pub fn serialize(t: &ClvmTree) -> (r: Result<Vec<u8>, DriverError>)
    ensures
        r matches Ok(v) ==> serializable(t@) && v@ == serial(t@),
        r matches Err(e) ==> !serializable(t@) && e == DriverError::ToClvm,
{
    let mut out: Vec<u8> = Vec::new();
    match serialize_onto(t, &mut out) {
        Ok(()) => {
            proof {
                assert(out@ =~= serial(t@));
            }
            Ok(out)
        }
        Err(e) => Err(e),
    }
}

/// Copies `s[a..b]` into a fresh vector.
fn copy_range(s: &Vec<u8>, a: usize, b: usize) -> (r: Vec<u8>)
    requires
        a <= b <= s@.len(),
    ensures
        r@ == s@.subrange(a as int, b as int),
{
    let mut r: Vec<u8> = Vec::new();
    let mut i: usize = a;
    while i < b
        invariant
            a <= i <= b <= s@.len(),
            r@ == s@.subrange(a as int, i as int),
        decreases b - i,
    {
        r.push(s[i]);
        proof {
            assert(r@ =~= s@.subrange(a as int, i + 1));
        }
        i += 1;
    }
    r
}

/// Parses one tree from `s` starting at `pos`, returning it and the
/// position just past it.
#[verifier::rlimit(60)]
fn parse_node_at(s: &Vec<u8>, pos: usize) -> (r: Result<(ClvmTree, usize), DriverError>)
    requires
        pos <= s@.len(),
    ensures
        parse_node(s@.skip(pos as int)) matches Some(p) ==> (r matches Ok(q) && q.0@ == p.0
            && q.1 == pos + p.1),
        parse_node(s@.skip(pos as int)) is None ==> (r matches Err(e) && e
            == DriverError::FromClvm),
    decreases s@.len() - pos,
{
    let ghost ss = s@.skip(pos as int);
    if pos == s.len() {
        return Err(DriverError::FromClvm);
    }
    let c = s[pos];
    proof {
        assert(ss[0] == s@[pos as int]);
    }
    if c == 0xff {
        proof {
            assert(ss.skip(1) =~= s@.skip(pos + 1));
            lemma_parse_consumes(s@.skip(pos + 1));
        }
        let (first, p1) = match parse_node_at(s, pos + 1) {
            Err(e) => {
                return Err(e);
            }
            Ok(q) => q,
        };
        proof {
            assert(ss.skip(1 + (p1 - pos - 1)) =~= s@.skip(p1 as int));
            lemma_parse_consumes(s@.skip(p1 as int));
        }
        let (rest, p2) = match parse_node_at(s, p1) {
            Err(e) => {
                return Err(e);
            }
            Ok(q) => q,
        };
        Ok((ClvmTree::Pair(Box::new(first), Box::new(rest)), p2))
    } else if c < 0x80 {
        Ok((ClvmTree::atom1(c), pos + 1))
    } else {
        let (extra, base): (usize, u64) = if c < 0xc0 {
            (0, (c - 0x80) as u64)
        } else if c < 0xe0 {
            (1, (c - 0xc0) as u64)
        } else if c < 0xf0 {
            (2, (c - 0xe0) as u64)
        } else if c < 0xf8 {
            (3, (c - 0xf0) as u64)
        } else if c < 0xfc {
            (4, (c - 0xf8) as u64)
        } else {
            return Err(DriverError::FromClvm);
        };
        if s.len() - pos < 1 + extra {
            return Err(DriverError::FromClvm);
        }
        proof {
            assert(prefix_extra(c) == Some(((extra as nat), (base as nat))));
        }
        let ghost bspec = base as nat;
        let mut sz: u64 = base;
        let mut k: usize = 0;
        proof {
            assert(s@.subrange(pos + 1, pos + 1) =~= Seq::<u8>::empty());
            assert(be_val(Seq::<u8>::empty()) == 0);
            assert(pow256(0) == 1);
        }
        while k < extra
            invariant
                k <= extra <= 4,
                base < 0x40,
                bspec == base,
                pos + 1 + extra <= s@.len(),
                s@.len() <= usize::MAX,
                ss == s@.skip(pos as int),
                sz == bspec * pow256(k as nat) + be_val(s@.subrange(pos + 1, pos + 1 + k)),
                sz < 0x40 * pow256(k as nat),
            decreases extra - k,
        {
            proof {
                lemma_pow256_monotone(k as nat, 3);
                assert(pow256(3) == 0x100_0000) by {
                    reveal_with_fuel(pow256, 4);
                }
                assert(sz < 0x40 * 0x100_0000) by (nonlinear_arith)
                    requires
                        sz < 0x40 * pow256(k as nat),
                        pow256(k as nat) <= 0x100_0000,
                ;
            }
            let b = s[pos + 1 + k];
            let next: u64 = sz * 256 + (b as u64);
            proof {
                let pre = s@.subrange(pos + 1, pos + 1 + k);
                let post = s@.subrange(pos + 1, pos + 1 + k + 1);
                assert(post.drop_last() =~= pre);
                assert(post.last() == s@[pos + 1 + k]);
                assert(next == bspec * pow256(k as nat) * 256 + be_val(post)) by (nonlinear_arith)
                    requires
                        sz == bspec * pow256(k as nat) + be_val(pre),
                        be_val(post) == be_val(pre) * 256 + s@[pos + 1 + k],
                        next == sz * 256 + s@[pos + 1 + k],
                ;
                assert(bspec * pow256(k as nat) * 256 == bspec * pow256((k + 1) as nat))
                    by (nonlinear_arith)
                    requires
                        pow256((k + 1) as nat) == 256 * pow256(k as nat),
                ;
                assert(next < 0x40 * pow256((k + 1) as nat)) by (nonlinear_arith)
                    requires
                        sz < 0x40 * pow256(k as nat),
                        next == sz * 256 + s@[pos + 1 + k],
                        s@[pos + 1 + k] < 256,
                        pow256((k + 1) as nat) == 256 * pow256(k as nat),
                ;
            }
            sz = next;
            k += 1;
        }
        let ghost size = bspec * pow256(extra as nat) + be_val(ss.subrange(1, 1 + extra as int));
        proof {
            assert(ss.subrange(1, 1 + extra as int) =~= s@.subrange(pos + 1, pos + 1 + extra));
            assert(sz == size);
        }
        let remaining: usize = s.len() - (pos + 1 + extra);
        if (remaining as u64) < sz {
            proof {
                assert(!(1 + size + extra <= ss.len()));
            }
            return Err(DriverError::FromClvm);
        }
        let start = pos + 1 + extra;
        let end = start + (sz as usize);
        let bytes = copy_range(s, start, end);
        proof {
            assert(ss.subrange(1 + extra as int, 1 + extra as int + size as int) =~= s@.subrange(
                start as int,
                end as int,
            ));
        }
        Ok((ClvmTree::Atom(bytes), end))
    }
}

/// Parses a byte string as the serialization of one whole tree.
pub fn deserialize(s: &Vec<u8>) -> (r: Result<ClvmTree, DriverError>)
    ensures
        (match parse_node(s@) {
            Some(p) => if p.1 == s@.len() {
                r matches Ok(t) && t@ == p.0
            } else {
                r matches Err(e) && e == DriverError::FromClvm
            },
            None => r matches Err(e) && e == DriverError::FromClvm,
        }),
{
    proof {
        assert(s@.skip(0) =~= s@);
    }
    match parse_node_at(s, 0) {
        Ok((t, n)) => if n == s.len() {
            Ok(t)
        } else {
            Err(DriverError::FromClvm)
        },
        Err(e) => Err(e),
    }
}

} // verus!
