//! The persistent-identity ("singleton") layer: it wraps an arbitrary inner
//! layer, anchors a stable identity to a one-time launch coin, and links
//! every spend to its parent's committed state through a lineage proof.

use vstd::prelude::*;

use crate::coin::{Coin, CoinSpend, CoinSpendV, CoinV};
use crate::digest::{atom_digest, hash_atom, hash_pair, pair_digest, tree_digest};
use crate::encoding::{
    decode_uint, encode_uint, parse_node, serial, serializable, uint_bytes, uint_val,
};
use crate::errors::DriverError;
use crate::layer::{OuterPuzzleLayer, PuzzleLayer, Recognition};
use crate::puzzle::{
    curried, curry2, curry_env, decode_two_curry_args, parse_curry_args, quote, uncurry_top,
    Puzzle,
};
use crate::tree::{
    bytes_eq, clone_tree, copy_bytes, is_nil, list2v, list3v, nilv, pairv, single_byte_vec,
    ClvmTree, TreeV,
};

verus! {

// ---------------------------------------------------------------------------
// Protocol constants
// ---------------------------------------------------------------------------

/// The tree hash of the identity-layer template program.
pub open spec fn singleton_top_hash() -> Seq<u8> {
    seq![
        0x7fu8, 0xaa, 0x32, 0x53, 0xbf, 0xdd, 0xd1, 0xe0, 0xde, 0xcb, 0x09, 0x06, 0xb2, 0xdc,
        0x62, 0x47, 0xbb, 0xc4, 0xcf, 0x60, 0x8f, 0x58, 0x34, 0x5d, 0x17, 0x3a, 0xdb, 0x63, 0xe8,
        0xb4, 0x7c, 0x9f,
    ]
}

/// The tree hash of the launcher template program.
pub open spec fn singleton_launcher_hash() -> Seq<u8> {
    seq![
        0xefu8, 0xf0, 0x75, 0x22, 0x49, 0x50, 0x60, 0xc0, 0x66, 0xf6, 0x6f, 0x32, 0xac, 0xc2,
        0xa7, 0x7e, 0x3a, 0x3e, 0x73, 0x7a, 0xca, 0x8b, 0xae, 0xa4, 0xd1, 0xa6, 0x4e, 0xa4, 0xcd,
        0xc1, 0x3d, 0xa9,
    ]
}

/// The template program whose tree hash is `hash`, as the puzzle-template
/// library ships it.
pub uninterp spec fn template_of(hash: Seq<u8>) -> TreeV;

/// Relies on chia_puzzles::SINGLETON_TOP_LAYER_V1_1: the serialized
/// identity-layer template program, a fixed constant.
#[verifier::external_body]
fn singleton_template_bytes() -> (r: Vec<u8>)
    ensures
        parse_node(r@) == Some((template_of(singleton_top_hash()), r@.len() as nat)),
{
    chia_puzzles::SINGLETON_TOP_LAYER_V1_1.to_vec()
}

/// Relies on chia_puzzles::SINGLETON_TOP_LAYER_V1_1_HASH: the 32-byte tree
/// hash of the identity-layer template program above.
#[verifier::external_body]
pub fn singleton_top_layer_hash() -> (r: Vec<u8>)
    ensures
        r@ == singleton_top_hash() && r@ == tree_digest(template_of(singleton_top_hash())),
{
    chia_puzzles::SINGLETON_TOP_LAYER_V1_1_HASH.to_vec()
}

/// The launcher template's tree hash as bytes.
pub fn singleton_launcher_puzzle_hash() -> (r: Vec<u8>)
    ensures
        r@ == singleton_launcher_hash(),
{
    let mut r: Vec<u8> = Vec::new();
    r.push(0xef);
    r.push(0xf0);
    r.push(0x75);
    r.push(0x22);
    r.push(0x49);
    r.push(0x50);
    r.push(0x60);
    r.push(0xc0);
    r.push(0x66);
    r.push(0xf6);
    r.push(0x6f);
    r.push(0x32);
    r.push(0xac);
    r.push(0xc2);
    r.push(0xa7);
    r.push(0x7e);
    r.push(0x3a);
    r.push(0x3e);
    r.push(0x73);
    r.push(0x7a);
    r.push(0xca);
    r.push(0x8b);
    r.push(0xae);
    r.push(0xa4);
    r.push(0xd1);
    r.push(0xa6);
    r.push(0x4e);
    r.push(0xa4);
    r.push(0xcd);
    r.push(0xc1);
    r.push(0x3d);
    r.push(0xa9);
    proof {
        assert(r@ =~= singleton_launcher_hash());
    }
    r
}

/// The identity-layer template program, deserialized from its fixed bytes.
pub fn singleton_top_layer_program() -> (r: ClvmTree)
    ensures
        r@ == template_of(singleton_top_hash()),
{
    let bytes = singleton_template_bytes();
    match crate::encoding::deserialize(&bytes) {
        Ok(t) => t,
        Err(_) => vstd::pervasive::unreached(),
    }
}

// ---------------------------------------------------------------------------
// Proofs of lineage
// ---------------------------------------------------------------------------

/// Mathematical model of an eve proof.
#[verifier::ext_equal]
pub struct EveProofV {
    pub parent_coin_info: Seq<u8>,
    pub amount: u64,
}

/// The proof accompanying the first spend after launch: it commits only to
/// the launcher coin's parent and amount.
#[derive(Debug)]
pub struct EveProof {
    pub parent_coin_info: Vec<u8>,
    pub amount: u64,
}

impl View for EveProof {
    type V = EveProofV;

    open spec fn view(&self) -> EveProofV {
        EveProofV { parent_coin_info: self.parent_coin_info@, amount: self.amount }
    }
}

/// Mathematical model of a lineage proof.
#[verifier::ext_equal]
pub struct LineageProofV {
    pub parent_parent_coin_id: Seq<u8>,
    pub parent_inner_puzzle_hash: Seq<u8>,
    pub parent_amount: u64,
}

/// The proof accompanying every later spend: it commits to the immediate
/// parent coin's id, the parent's inner puzzle commitment, and the parent's
/// amount.
#[derive(Debug)]
pub struct LineageProof {
    pub parent_parent_coin_id: Vec<u8>,
    pub parent_inner_puzzle_hash: Vec<u8>,
    pub parent_amount: u64,
}

impl View for LineageProof {
    type V = LineageProofV;

    open spec fn view(&self) -> LineageProofV {
        LineageProofV {
            parent_parent_coin_id: self.parent_parent_coin_id@,
            parent_inner_puzzle_hash: self.parent_inner_puzzle_hash@,
            parent_amount: self.parent_amount,
        }
    }
}

/// Mathematical model of a proof.
#[verifier::ext_equal]
pub enum ProofV {
    Lineage(LineageProofV),
    Eve(EveProofV),
}

/// The chain-history evidence handed to each spend: a lineage proof, or an
/// eve proof for the first spend after launch.
#[derive(Debug)]
pub enum Proof {
    Lineage(LineageProof),
    Eve(EveProof),
}

impl View for Proof {
    type V = ProofV;

    open spec fn view(&self) -> ProofV {
        match self {
            Proof::Lineage(p) => ProofV::Lineage(p@),
            Proof::Eve(p) => ProofV::Eve(p@),
        }
    }
}

/// A proof's committed ids are 32 bytes each.
pub open spec fn proof_wf(p: ProofV) -> bool {
    match p {
        ProofV::Lineage(l) => l.parent_parent_coin_id.len() == 32
            && l.parent_inner_puzzle_hash.len() == 32,
        ProofV::Eve(e) => e.parent_coin_info.len() == 32,
    }
}

/// The wire encoding of a lineage proof: a proper list of its three fields.
pub open spec fn lineage_proof_tree(p: LineageProofV) -> TreeV {
    list3v(
        TreeV::Atom(p.parent_parent_coin_id),
        TreeV::Atom(p.parent_inner_puzzle_hash),
        TreeV::Atom(uint_bytes(p.parent_amount)),
    )
}

/// The wire encoding of an eve proof: a proper list of its two fields.
pub open spec fn eve_proof_tree(p: EveProofV) -> TreeV {
    list2v(TreeV::Atom(p.parent_coin_info), TreeV::Atom(uint_bytes(p.amount)))
}

/// The wire encoding of a proof: the encoding of whichever variant it holds,
/// with no discriminant tag.
pub open spec fn proof_tree(p: ProofV) -> TreeV {
    match p {
        ProofV::Lineage(l) => lineage_proof_tree(l),
        ProofV::Eve(e) => eve_proof_tree(e),
    }
}

/// Decodes a tree as a lineage proof: a proper list of two 32-byte atoms
/// and an amount atom.
pub open spec fn parse_lineage_tree(t: TreeV) -> Option<LineageProofV> {
    match t {
        TreeV::Pair(a, r1) => match *a {
            TreeV::Atom(id) => if id.len() == 32 {
                match *r1 {
                    TreeV::Pair(b, r2) => match *b {
                        TreeV::Atom(ih) => if ih.len() == 32 {
                            match *r2 {
                                TreeV::Pair(c, nil) => match *c {
                                    TreeV::Atom(am) => if *nil == nilv() {
                                        match uint_val(am) {
                                            Some(v) => Some(
                                                LineageProofV {
                                                    parent_parent_coin_id: id,
                                                    parent_inner_puzzle_hash: ih,
                                                    parent_amount: v,
                                                },
                                            ),
                                            None => None,
                                        }
                                    } else {
                                        None
                                    },
                                    TreeV::Pair(_, _) => None,
                                },
                                TreeV::Atom(_) => None,
                            }
                        } else {
                            None
                        },
                        TreeV::Pair(_, _) => None,
                    },
                    TreeV::Atom(_) => None,
                }
            } else {
                None
            },
            TreeV::Pair(_, _) => None,
        },
        TreeV::Atom(_) => None,
    }
}

/// Decodes a tree as an eve proof: a proper list of one 32-byte atom and an
/// amount atom.
pub open spec fn parse_eve_tree(t: TreeV) -> Option<EveProofV> {
    match t {
        TreeV::Pair(a, r1) => match *a {
            TreeV::Atom(id) => if id.len() == 32 {
                match *r1 {
                    TreeV::Pair(b, nil) => match *b {
                        TreeV::Atom(am) => if *nil == nilv() {
                            match uint_val(am) {
                                Some(v) => Some(EveProofV { parent_coin_info: id, amount: v }),
                                None => None,
                            }
                        } else {
                            None
                        },
                        TreeV::Pair(_, _) => None,
                    },
                    TreeV::Atom(_) => None,
                }
            } else {
                None
            },
            TreeV::Pair(_, _) => None,
        },
        TreeV::Atom(_) => None,
    }
}

/// Decodes a tree as a proof, trying the lineage shape first and then the
/// eve shape, as the wire format has no discriminant tag.
pub open spec fn parse_proof(t: TreeV) -> Option<ProofV> {
    match parse_lineage_tree(t) {
        Some(l) => Some(ProofV::Lineage(l)),
        None => match parse_eve_tree(t) {
            Some(e) => Some(ProofV::Eve(e)),
            None => None,
        },
    }
}

/// Decoding inverts encoding on every well-formed proof.
pub proof fn lemma_proof_roundtrip(p: ProofV)
    requires
        proof_wf(p),
    ensures
        parse_proof(proof_tree(p)) == Some(p),
{
    match p {
        ProofV::Lineage(l) => {
            crate::encoding::lemma_uint_roundtrip(l.parent_amount);
            assert(parse_lineage_tree(lineage_proof_tree(l)) == Some(l));
        }
        ProofV::Eve(e) => {
            crate::encoding::lemma_uint_roundtrip(e.amount);
            assert(uint_bytes(e.amount).len() <= 9) by {
                if e.amount > 0 {
                    assert(crate::encoding::pow256(8) == 0x1_0000_0000_0000_0000) by {
                        reveal_with_fuel(crate::encoding::pow256, 9);
                    }
                    crate::encoding::lemma_be_bytes_len(e.amount as nat, 8);
                }
            }
            assert(parse_lineage_tree(eve_proof_tree(e)) is None);
            assert(parse_eve_tree(eve_proof_tree(e)) == Some(e));
        }
    }
}

/// Encodes a proof as its wire tree.
pub fn encode_proof(p: &Proof) -> (r: ClvmTree)
    ensures
        r@ == proof_tree(p@),
{
    match p {
        Proof::Lineage(l) => {
            let a = ClvmTree::Atom(copy_bytes(&l.parent_parent_coin_id));
            let b = ClvmTree::Atom(copy_bytes(&l.parent_inner_puzzle_hash));
            let c = ClvmTree::Atom(encode_uint(l.parent_amount));
            ClvmTree::pair(a, ClvmTree::pair(b, ClvmTree::pair(c, ClvmTree::nil())))
        }
        Proof::Eve(e) => {
            let a = ClvmTree::Atom(copy_bytes(&e.parent_coin_info));
            let b = ClvmTree::Atom(encode_uint(e.amount));
            ClvmTree::pair(a, ClvmTree::pair(b, ClvmTree::nil()))
        }
    }
}

/// Decodes a tree as a lineage proof.
fn decode_lineage(t: &ClvmTree) -> (r: Option<LineageProof>)
    ensures
        (match parse_lineage_tree(t@) {
            Some(l) => r matches Some(x) && x@ == l,
            None => r is None,
        }),
{
    let (a, r1) = match t {
        ClvmTree::Pair(a, r1) => (a, r1),
        ClvmTree::Atom(_) => {
            return None;
        }
    };
    proof {
        assert(t@ == TreeV::Pair(Box::new(a@), Box::new(r1@)));
    }
    let id = match &**a {
        ClvmTree::Atom(id) => id,
        ClvmTree::Pair(_, _) => {
            return None;
        }
    };
    proof {
        assert(a@ == TreeV::Atom(id@));
    }
    if id.len() != 32 {
        return None;
    }
    let (b, r2) = match &**r1 {
        ClvmTree::Pair(b, r2) => (b, r2),
        ClvmTree::Atom(_) => {
            return None;
        }
    };
    proof {
        assert(r1@ == TreeV::Pair(Box::new(b@), Box::new(r2@)));
    }
    let ih = match &**b {
        ClvmTree::Atom(ih) => ih,
        ClvmTree::Pair(_, _) => {
            return None;
        }
    };
    proof {
        assert(b@ == TreeV::Atom(ih@));
    }
    if ih.len() != 32 {
        return None;
    }
    let (c, nil) = match &**r2 {
        ClvmTree::Pair(c, nil) => (c, nil),
        ClvmTree::Atom(_) => {
            return None;
        }
    };
    proof {
        assert(r2@ == TreeV::Pair(Box::new(c@), Box::new(nil@)));
    }
    let am = match &**c {
        ClvmTree::Atom(am) => am,
        ClvmTree::Pair(_, _) => {
            return None;
        }
    };
    proof {
        assert(c@ == TreeV::Atom(am@));
    }
    if !is_nil(nil) {
        return None;
    }
    match decode_uint(am) {
        Some(v) => Some(
            LineageProof {
                parent_parent_coin_id: copy_bytes(id),
                parent_inner_puzzle_hash: copy_bytes(ih),
                parent_amount: v,
            },
        ),
        None => None,
    }
}

/// Decodes a tree as an eve proof.
fn decode_eve(t: &ClvmTree) -> (r: Option<EveProof>)
    ensures
        (match parse_eve_tree(t@) {
            Some(e) => r matches Some(x) && x@ == e,
            None => r is None,
        }),
{
    let (a, r1) = match t {
        ClvmTree::Pair(a, r1) => (a, r1),
        ClvmTree::Atom(_) => {
            return None;
        }
    };
    proof {
        assert(t@ == TreeV::Pair(Box::new(a@), Box::new(r1@)));
    }
    let id = match &**a {
        ClvmTree::Atom(id) => id,
        ClvmTree::Pair(_, _) => {
            return None;
        }
    };
    proof {
        assert(a@ == TreeV::Atom(id@));
    }
    if id.len() != 32 {
        return None;
    }
    let (b, nil) = match &**r1 {
        ClvmTree::Pair(b, nil) => (b, nil),
        ClvmTree::Atom(_) => {
            return None;
        }
    };
    proof {
        assert(r1@ == TreeV::Pair(Box::new(b@), Box::new(nil@)));
    }
    let am = match &**b {
        ClvmTree::Atom(am) => am,
        ClvmTree::Pair(_, _) => {
            return None;
        }
    };
    proof {
        assert(b@ == TreeV::Atom(am@));
    }
    if !is_nil(nil) {
        return None;
    }
    match decode_uint(am) {
        Some(v) => Some(EveProof { parent_coin_info: copy_bytes(id), amount: v }),
        None => None,
    }
}

/// Decodes a tree as a proof, trying the lineage shape first.
pub fn decode_proof(t: &ClvmTree) -> (r: Option<Proof>)
    ensures
        (match parse_proof(t@) {
            Some(p) => r matches Some(x) && x@ == p,
            None => r is None,
        }),
{
    match decode_lineage(t) {
        Some(l) => Some(Proof::Lineage(l)),
        None => match decode_eve(t) {
            Some(e) => Some(Proof::Eve(e)),
            None => None,
        },
    }
}

// ---------------------------------------------------------------------------
// The identity structure and the solution
// ---------------------------------------------------------------------------

/// The identity structure curried into the template: the template's own
/// hash, then the launcher id paired with the launcher template's hash.
pub open spec fn singleton_struct_tree(launcher_id: Seq<u8>) -> TreeV {
    pairv(
        TreeV::Atom(singleton_top_hash()),
        pairv(TreeV::Atom(launcher_id), TreeV::Atom(singleton_launcher_hash())),
    )
}

/// Decodes a tree as an identity structure, without validating the
/// constants: three 32-byte atoms in the structure's nested-pair shape.
pub open spec fn parse_struct(t: TreeV) -> Option<(Seq<u8>, Seq<u8>, Seq<u8>)> {
    match t {
        TreeV::Pair(mh, r1) => match (*mh, *r1) {
            (TreeV::Atom(m), TreeV::Pair(lid, lph)) => match (*lid, *lph) {
                (TreeV::Atom(i), TreeV::Atom(p)) => if m.len() == 32 && i.len() == 32 && p.len()
                    == 32 {
                    Some((m, i, p))
                } else {
                    None
                },
                _ => None,
            },
            _ => None,
        },
        TreeV::Atom(_) => None,
    }
}

/// Builds the identity structure for a launcher id.
pub fn build_struct(launcher_id: &Vec<u8>) -> (r: ClvmTree)
    ensures
        r@ == singleton_struct_tree(launcher_id@),
{
    let mh = ClvmTree::Atom(singleton_top_layer_hash());
    let lid = ClvmTree::Atom(copy_bytes(launcher_id));
    let lph = ClvmTree::Atom(singleton_launcher_puzzle_hash());
    ClvmTree::pair(mh, ClvmTree::pair(lid, lph))
}

/// Decodes a tree as an identity structure.
pub fn decode_struct(t: &ClvmTree) -> (r: Option<(Vec<u8>, Vec<u8>, Vec<u8>)>)
    ensures
        (match parse_struct(t@) {
            Some(s) => r matches Some(x) && x.0@ == s.0 && x.1@ == s.1 && x.2@ == s.2,
            None => r is None,
        }),
{
    let (mh, r1) = match t {
        ClvmTree::Pair(mh, r1) => (mh, r1),
        ClvmTree::Atom(_) => {
            return None;
        }
    };
    proof {
        assert(t@ == TreeV::Pair(Box::new(mh@), Box::new(r1@)));
    }
    let m = match &**mh {
        ClvmTree::Atom(m) => m,
        ClvmTree::Pair(_, _) => {
            return None;
        }
    };
    proof {
        assert(mh@ == TreeV::Atom(m@));
    }
    let (lid, lph) = match &**r1 {
        ClvmTree::Pair(lid, lph) => (lid, lph),
        ClvmTree::Atom(_) => {
            return None;
        }
    };
    proof {
        assert(r1@ == TreeV::Pair(Box::new(lid@), Box::new(lph@)));
    }
    let i = match &**lid {
        ClvmTree::Atom(i) => i,
        ClvmTree::Pair(_, _) => {
            return None;
        }
    };
    let p = match &**lph {
        ClvmTree::Atom(p) => p,
        ClvmTree::Pair(_, _) => {
            return None;
        }
    };
    proof {
        assert(lid@ == TreeV::Atom(i@));
        assert(lph@ == TreeV::Atom(p@));
    }
    if m.len() == 32 && i.len() == 32 && p.len() == 32 {
        Some((copy_bytes(m), copy_bytes(i), copy_bytes(p)))
    } else {
        None
    }
}

/// The wire encoding of the layer's solution: the proof, the coin's amount,
/// and the inner solution, as a proper list in that order.
pub open spec fn singleton_solution_tree(p: ProofV, amount: u64, inner: TreeV) -> TreeV {
    list3v(proof_tree(p), TreeV::Atom(uint_bytes(amount)), inner)
}

/// Decodes a tree as the layer's solution.
pub open spec fn parse_solution(t: TreeV) -> Option<(ProofV, u64, TreeV)> {
    match t {
        TreeV::Pair(pf, r1) => match *r1 {
            TreeV::Pair(am, r2) => match (*am, *r2) {
                (TreeV::Atom(ab), TreeV::Pair(isol, nil)) => if *nil == nilv() {
                    match (parse_proof(*pf), uint_val(ab)) {
                        (Some(p), Some(v)) => Some((p, v, *isol)),
                        _ => None,
                    }
                } else {
                    None
                },
                _ => None,
            },
            TreeV::Atom(_) => None,
        },
        TreeV::Atom(_) => None,
    }
}

/// Decoding inverts encoding on every solution with a well-formed proof.
pub proof fn lemma_solution_roundtrip(p: ProofV, amount: u64, inner: TreeV)
    requires
        proof_wf(p),
    ensures
        parse_solution(singleton_solution_tree(p, amount, inner)) == Some((p, amount, inner)),
{
    lemma_proof_roundtrip(p);
    crate::encoding::lemma_uint_roundtrip(amount);
}

/// Builds the layer's solution tree.
pub fn build_solution_tree(p: &Proof, amount: u64, inner: ClvmTree) -> (r: ClvmTree)
    ensures
        r@ == singleton_solution_tree(p@, amount, inner@),
{
    let pf = encode_proof(p);
    let am = ClvmTree::Atom(encode_uint(amount));
    ClvmTree::pair(pf, ClvmTree::pair(am, ClvmTree::pair(inner, ClvmTree::nil())))
}

/// Decodes a tree as the layer's solution.
pub fn decode_solution(t: &ClvmTree) -> (r: Option<(Proof, u64, ClvmTree)>)
    ensures
        (match parse_solution(t@) {
            Some(s) => r matches Some(x) && x.0@ == s.0 && x.1 == s.1 && x.2@ == s.2,
            None => r is None,
        }),
{
    let (pf, r1) = match t {
        ClvmTree::Pair(pf, r1) => (pf, r1),
        ClvmTree::Atom(_) => {
            return None;
        }
    };
    proof {
        assert(t@ == TreeV::Pair(Box::new(pf@), Box::new(r1@)));
    }
    let (am, r2) = match &**r1 {
        ClvmTree::Pair(am, r2) => (am, r2),
        ClvmTree::Atom(_) => {
            return None;
        }
    };
    proof {
        assert(r1@ == TreeV::Pair(Box::new(am@), Box::new(r2@)));
    }
    let ab = match &**am {
        ClvmTree::Atom(ab) => ab,
        ClvmTree::Pair(_, _) => {
            return None;
        }
    };
    proof {
        assert(am@ == TreeV::Atom(ab@));
    }
    let (isol, nil) = match &**r2 {
        ClvmTree::Pair(isol, nil) => (isol, nil),
        ClvmTree::Atom(_) => {
            return None;
        }
    };
    proof {
        assert(r2@ == TreeV::Pair(Box::new(isol@), Box::new(nil@)));
    }
    if !is_nil(nil) {
        return None;
    }
    let lineage_proof = match decode_proof(pf) {
        Some(p) => p,
        None => {
            return None;
        }
    };
    let amount = match decode_uint(ab) {
        Some(v) => v,
        None => {
            return None;
        }
    };
    Some((lineage_proof, amount, clone_tree(isol)))
}

// ---------------------------------------------------------------------------
// The hash projection
// ---------------------------------------------------------------------------

/// The digest of the quotation of a tree with the given digest.
pub open spec fn quoted_digest(h: Seq<u8>) -> Seq<u8> {
    pair_digest(atom_digest(seq![1u8]), h)
}

/// The digest of a template curried with two arguments, from the digests of
/// the template and of each argument alone.
pub open spec fn curried2_digest(ph: Seq<u8>, h1: Seq<u8>, h2: Seq<u8>) -> Seq<u8> {
    let nil_d = atom_digest(Seq::<u8>::empty());
    let one_d = atom_digest(seq![1u8]);
    let env2 = pair_digest(
        atom_digest(seq![4u8]),
        pair_digest(quoted_digest(h2), pair_digest(one_d, nil_d)),
    );
    let env1 = pair_digest(
        atom_digest(seq![4u8]),
        pair_digest(quoted_digest(h1), pair_digest(env2, nil_d)),
    );
    pair_digest(atom_digest(seq![2u8]), pair_digest(quoted_digest(ph), pair_digest(env1, nil_d)))
}

/// The digest of the identity structure for a launcher id.
pub open spec fn struct_digest(launcher_id: Seq<u8>) -> Seq<u8> {
    pair_digest(
        atom_digest(singleton_top_hash()),
        pair_digest(atom_digest(launcher_id), atom_digest(singleton_launcher_hash())),
    )
}

/// One step of the digest's definition, spelled out for pairs.
proof fn lemma_digest_pair(x: TreeV, y: TreeV)
    ensures
        tree_digest(TreeV::Pair(Box::new(x), Box::new(y))) == pair_digest(
            tree_digest(x),
            tree_digest(y),
        ),
{
}

/// The shadow hash computation agrees with hashing the curried tree itself.
pub proof fn lemma_curried2_digest(p: TreeV, a1: TreeV, a2: TreeV)
    ensures
        tree_digest(curried(p, seq![a1, a2])) == curried2_digest(
            tree_digest(p),
            tree_digest(a1),
            tree_digest(a2),
        ),
{
    let args = seq![a1, a2];
    assert(args.first() == a1);
    assert(args.drop_first() =~= seq![a2]);
    let args2 = seq![a2];
    assert(args2.first() == a2);
    assert(args2.drop_first() =~= Seq::<TreeV>::empty());
    let one = TreeV::Atom(seq![1u8]);
    let four = TreeV::Atom(seq![4u8]);
    let two = TreeV::Atom(seq![2u8]);
    let nil = TreeV::Atom(Seq::<u8>::empty());
    let nil_d = atom_digest(Seq::<u8>::empty());
    let one_d = atom_digest(seq![1u8]);
    assert(tree_digest(one) == one_d);
    assert(tree_digest(nil) == nil_d);
    let env0 = curry_env(Seq::<TreeV>::empty());
    assert(env0 == one);
    let env2 = curry_env(args2);
    assert(env2 == TreeV::Pair(
        Box::new(four),
        Box::new(
            TreeV::Pair(
                Box::new(quote(a2)),
                Box::new(TreeV::Pair(Box::new(env0), Box::new(nil))),
            ),
        ),
    ));
    lemma_digest_pair(one, a2);
    assert(tree_digest(quote(a2)) == quoted_digest(tree_digest(a2)));
    lemma_digest_pair(env0, nil);
    lemma_digest_pair(quote(a2), TreeV::Pair(Box::new(env0), Box::new(nil)));
    lemma_digest_pair(
        four,
        TreeV::Pair(
            Box::new(quote(a2)),
            Box::new(TreeV::Pair(Box::new(env0), Box::new(nil))),
        ),
    );
    let env2_d = pair_digest(
        atom_digest(seq![4u8]),
        pair_digest(quoted_digest(tree_digest(a2)), pair_digest(one_d, nil_d)),
    );
    assert(tree_digest(env2) == env2_d);
    let env1 = curry_env(args);
    assert(env1 == TreeV::Pair(
        Box::new(four),
        Box::new(
            TreeV::Pair(
                Box::new(quote(a1)),
                Box::new(TreeV::Pair(Box::new(env2), Box::new(nil))),
            ),
        ),
    ));
    lemma_digest_pair(one, a1);
    lemma_digest_pair(env2, nil);
    lemma_digest_pair(quote(a1), TreeV::Pair(Box::new(env2), Box::new(nil)));
    lemma_digest_pair(
        four,
        TreeV::Pair(
            Box::new(quote(a1)),
            Box::new(TreeV::Pair(Box::new(env2), Box::new(nil))),
        ),
    );
    let env1_d = pair_digest(
        atom_digest(seq![4u8]),
        pair_digest(quoted_digest(tree_digest(a1)), pair_digest(env2_d, nil_d)),
    );
    assert(tree_digest(env1) == env1_d);
    let t = curried(p, args);
    lemma_digest_pair(one, p);
    lemma_digest_pair(env1, nil);
    lemma_digest_pair(quote(p), TreeV::Pair(Box::new(env1), Box::new(nil)));
    lemma_digest_pair(
        two,
        TreeV::Pair(
            Box::new(quote(p)),
            Box::new(TreeV::Pair(Box::new(env1), Box::new(nil))),
        ),
    );
    assert(tree_digest(t) == curried2_digest(
        tree_digest(p),
        tree_digest(a1),
        tree_digest(a2),
    ));
}

/// The structure's digest agrees with hashing the structure tree.
pub proof fn lemma_struct_digest(launcher_id: Seq<u8>)
    ensures
        tree_digest(singleton_struct_tree(launcher_id)) == struct_digest(launcher_id),
{
    let mh = TreeV::Atom(singleton_top_hash());
    let lid = TreeV::Atom(launcher_id);
    let lph = TreeV::Atom(singleton_launcher_hash());
    lemma_digest_pair(lid, lph);
    lemma_digest_pair(mh, TreeV::Pair(Box::new(lid), Box::new(lph)));
}

// ---------------------------------------------------------------------------
// The layer
// ---------------------------------------------------------------------------

/// Mathematical model of an identity layer.
#[verifier::ext_equal]
pub struct SingletonLayerV<IV> {
    pub launcher_id: Seq<u8>,
    pub inner_puzzle: IV,
}

/// The identity layer: a stable identity anchored to a one-time launch
/// coin, wrapped around an arbitrary inner layer.
#[derive(Debug)]
pub struct SingletonLayer<IP> {
    pub launcher_id: Vec<u8>,
    pub inner_puzzle: IP,
}

impl<IP: View> View for SingletonLayer<IP> {
    type V = SingletonLayerV<IP::V>;

    open spec fn view(&self) -> SingletonLayerV<IP::V> {
        SingletonLayerV { launcher_id: self.launcher_id@, inner_puzzle: self.inner_puzzle@ }
    }
}

impl<IP> SingletonLayer<IP> {
    pub fn new(launcher_id: Vec<u8>, inner_puzzle: IP) -> (r: SingletonLayer<IP>)
        ensures
            r.launcher_id@ == launcher_id@,
            r.inner_puzzle == inner_puzzle,
    {
        SingletonLayer { launcher_id, inner_puzzle }
    }
}

/// Mathematical model of an identity layer's solution.
#[verifier::ext_equal]
pub struct SingletonLayerSolutionV<IV> {
    pub lineage_proof: ProofV,
    pub amount: u64,
    pub inner_solution: IV,
}

/// The identity layer's solution: the proof of lineage, the coin's amount,
/// and the inner layer's own solution.
#[derive(Debug)]
pub struct SingletonLayerSolution<I> {
    pub lineage_proof: Proof,
    pub amount: u64,
    pub inner_solution: I,
}

impl<I: View> View for SingletonLayerSolution<I> {
    type V = SingletonLayerSolutionV<I::V>;

    open spec fn view(&self) -> SingletonLayerSolutionV<I::V> {
        SingletonLayerSolutionV {
            lineage_proof: self.lineage_proof@,
            amount: self.amount,
            inner_solution: self.inner_solution@,
        }
    }
}

/// Recognizes the identity-layer template in a tree and validates its
/// committed constants, yielding the launcher id and the embedded inner
/// puzzle tree.
pub open spec fn parse_singleton_args(t: TreeV) -> Recognition<(Seq<u8>, TreeV)> {
    match uncurry_top(t) {
        None => Recognition::Absent,
        Some((prog, env)) => if tree_digest(prog) != tree_digest(
            template_of(singleton_top_hash()),
        ) {
            Recognition::Absent
        } else {
            match parse_curry_args(env) {
                None => Recognition::Invalid(DriverError::FromClvm),
                Some(args) => if args.len() != 2 {
                    Recognition::Invalid(DriverError::FromClvm)
                } else {
                    match parse_struct(args[0]) {
                        None => Recognition::Invalid(DriverError::FromClvm),
                        Some((m, lid, lph)) => if m != singleton_top_hash() || lph
                            != singleton_launcher_hash() {
                            Recognition::Invalid(DriverError::InvalidSingletonStruct)
                        } else {
                            Recognition::Found((lid, args[1]))
                        },
                    }
                },
            }
        },
    }
}

/// The shared executable path of both recognition entry points.
fn recognize_singleton(puzzle: &ClvmTree) -> (r: Result<Option<(Vec<u8>, ClvmTree)>, DriverError>)
    ensures
        (match parse_singleton_args(puzzle@) {
            Recognition::Absent => r matches Ok(o) && o is None,
            Recognition::Invalid(e) => r matches Err(x) && x == e,
            Recognition::Found(v) => r matches Ok(o) && o matches Some(p) && p.0@ == v.0 && p.1@
                == v.1 && v.0.len() == 32,
        }),
{
    let parsed = Puzzle::parse(puzzle);
    let c = match parsed {
        Puzzle::Curried(c) => c,
        Puzzle::Raw => {
            return Ok(None);
        }
    };
    let th = singleton_top_layer_hash();
    if !bytes_eq(&c.mod_hash, &th) {
        return Ok(None);
    }
    let (sarg, inner) = match decode_two_curry_args(&c.args) {
        Some(p) => p,
        None => {
            return Err(DriverError::FromClvm);
        }
    };
    let (m, lid, lph) = match decode_struct(&sarg) {
        Some(s) => s,
        None => {
            return Err(DriverError::FromClvm);
        }
    };
    let lh = singleton_launcher_puzzle_hash();
    if !bytes_eq(&m, &th) || !bytes_eq(&lph, &lh) {
        return Err(DriverError::InvalidSingletonStruct);
    }
    Ok(Some((lid, inner)))
}

impl<IP: PuzzleLayer> PuzzleLayer for SingletonLayer<IP> {
    type Solution = SingletonLayerSolution<IP::Solution>;

    open spec fn inv(v: SingletonLayerV<IP::V>) -> bool {
        v.launcher_id.len() == 32 && IP::inv(v.inner_puzzle)
    }

    open spec fn sol_inv(
        v: SingletonLayerV<IP::V>,
        s: SingletonLayerSolutionV<<IP::Solution as View>::V>,
    ) -> bool {
        proof_wf(s.lineage_proof) && IP::sol_inv(v.inner_puzzle, s.inner_solution)
    }

    open spec fn build_puzzle(v: SingletonLayerV<IP::V>) -> Result<TreeV, DriverError> {
        match IP::build_puzzle(v.inner_puzzle) {
            Err(e) => Err(e),
            Ok(inner) => Ok(
                curried(
                    template_of(singleton_top_hash()),
                    seq![singleton_struct_tree(v.launcher_id), inner],
                ),
            ),
        }
    }

    open spec fn build_solution(
        v: SingletonLayerV<IP::V>,
        s: SingletonLayerSolutionV<<IP::Solution as View>::V>,
    ) -> Result<TreeV, DriverError> {
        match IP::build_solution(v.inner_puzzle, s.inner_solution) {
            Err(e) => Err(e),
            Ok(inner) => Ok(singleton_solution_tree(s.lineage_proof, s.amount, inner)),
        }
    }

    open spec fn parse_puzzle(t: TreeV) -> Recognition<SingletonLayerV<IP::V>> {
        match parse_singleton_args(t) {
            Recognition::Absent => Recognition::Absent,
            Recognition::Invalid(e) => Recognition::Invalid(e),
            Recognition::Found((lid, inner_tree)) => match IP::parse_puzzle(inner_tree) {
                Recognition::Absent => Recognition::Absent,
                Recognition::Invalid(e) => Recognition::Invalid(e),
                Recognition::Found(iv) => Recognition::Found(
                    SingletonLayerV { launcher_id: lid, inner_puzzle: iv },
                ),
            },
        }
    }

    open spec fn parse_spend(puzzle: TreeV, solution: TreeV) -> Recognition<
        SingletonLayerV<IP::V>,
    > {
        match parse_singleton_args(puzzle) {
            Recognition::Absent => Recognition::Absent,
            Recognition::Invalid(e) => Recognition::Invalid(e),
            Recognition::Found((lid, inner_tree)) => match parse_solution(solution) {
                None => Recognition::Invalid(DriverError::FromClvm),
                Some((pf, amount, inner_sol)) => match IP::parse_spend(inner_tree, inner_sol) {
                    Recognition::Absent => Recognition::Absent,
                    Recognition::Invalid(e) => Recognition::Invalid(e),
                    Recognition::Found(iv) => Recognition::Found(
                        SingletonLayerV { launcher_id: lid, inner_puzzle: iv },
                    ),
                },
            },
        }
    }

    open spec fn hash_repr(v: SingletonLayerV<IP::V>) -> Seq<u8> {
        curried2_digest(
            tree_digest(template_of(singleton_top_hash())),
            struct_digest(v.launcher_id),
            IP::hash_repr(v.inner_puzzle),
        )
    }

    fn construct_puzzle(&self) -> (r: Result<ClvmTree, DriverError>) {
        let inner = match self.inner_puzzle.construct_puzzle() {
            Ok(t) => t,
            Err(e) => {
                return Err(e);
            }
        };
        let template = singleton_top_layer_program();
        let sstruct = build_struct(&self.launcher_id);
        let ghost args = seq![singleton_struct_tree(self.launcher_id@), inner@];
        let r = curry2(template, sstruct, inner);
        proof {
            assert(seq![sstruct@, inner@] =~= args);
        }
        Ok(r)
    }

    fn construct_solution(&self, solution: SingletonLayerSolution<IP::Solution>) -> (r: Result<
        ClvmTree,
        DriverError,
    >) {
        let SingletonLayerSolution { lineage_proof, amount, inner_solution } = solution;
        let inner = match self.inner_puzzle.construct_solution(inner_solution) {
            Ok(t) => t,
            Err(e) => {
                return Err(e);
            }
        };
        Ok(build_solution_tree(&lineage_proof, amount, inner))
    }

    fn from_puzzle(puzzle: &ClvmTree) -> (r: Result<Option<Self>, DriverError>) {
        let (lid, inner_tree) = match recognize_singleton(puzzle) {
            Ok(Some(p)) => p,
            Ok(None) => {
                return Ok(None);
            }
            Err(e) => {
                return Err(e);
            }
        };
        match IP::from_puzzle(&inner_tree) {
            Ok(Some(inner)) => Ok(
                Some(SingletonLayer { launcher_id: lid, inner_puzzle: inner }),
            ),
            Ok(None) => Ok(None),
            Err(e) => Err(e),
        }
    }

    fn from_parent_spend(puzzle: &ClvmTree, solution: &ClvmTree) -> (r: Result<
        Option<Self>,
        DriverError,
    >) {
        let (lid, inner_tree) = match recognize_singleton(puzzle) {
            Ok(Some(p)) => p,
            Ok(None) => {
                return Ok(None);
            }
            Err(e) => {
                return Err(e);
            }
        };
        let (_proof, _amount, inner_sol) = match decode_solution(solution) {
            Some(s) => s,
            None => {
                return Err(DriverError::FromClvm);
            }
        };
        match IP::from_parent_spend(&inner_tree, &inner_sol) {
            Ok(Some(inner)) => Ok(
                Some(SingletonLayer { launcher_id: lid, inner_puzzle: inner }),
            ),
            Ok(None) => Ok(None),
            Err(e) => Err(e),
        }
    }

    fn tree_hash(&self) -> (r: Vec<u8>) {
        let th = singleton_top_layer_hash();
        let lh = singleton_launcher_puzzle_hash();
        let inner_h = self.inner_puzzle.tree_hash();
        let empty: Vec<u8> = Vec::new();
        let one = single_byte_vec(1);
        let two = single_byte_vec(2);
        let four = single_byte_vec(4);
        let d_nil = hash_atom(&empty);
        let d_one = hash_atom(&one);
        let d_two = hash_atom(&two);
        let d_four = hash_atom(&four);
        let d_struct = {
            let a = hash_atom(&th);
            let b = hash_atom(&self.launcher_id);
            let c = hash_atom(&lh);
            let bc = hash_pair(&b, &c);
            hash_pair(&a, &bc)
        };
        let q_inner = hash_pair(&d_one, &inner_h);
        let one_nil = hash_pair(&d_one, &d_nil);
        let env2_body = hash_pair(&q_inner, &one_nil);
        let env2 = hash_pair(&d_four, &env2_body);
        let q_struct = hash_pair(&d_one, &d_struct);
        let env2_nil = hash_pair(&env2, &d_nil);
        let env1_body = hash_pair(&q_struct, &env2_nil);
        let env1 = hash_pair(&d_four, &env1_body);
        let q_tpl = hash_pair(&d_one, &th);
        let env1_nil = hash_pair(&env1, &d_nil);
        let top_body = hash_pair(&q_tpl, &env1_nil);
        let r = hash_pair(&d_two, &top_body);
        proof {
            assert(empty@ =~= Seq::<u8>::empty());
        }
        r
    }

    proof fn lemma_puzzle_roundtrip(v: SingletonLayerV<IP::V>) {
        let inner_t = IP::build_puzzle(v.inner_puzzle).unwrap();
        let tpl = template_of(singleton_top_hash());
        let st = singleton_struct_tree(v.launcher_id);
        let args = seq![st, inner_t];
        let t = Self::build_puzzle(v).unwrap();
        assert(t == curried(tpl, args));
        crate::puzzle::lemma_uncurry_curried(tpl, args);
        crate::puzzle::lemma_parse_curry_env(args);
        assert(args[0] == st && args[1] == inner_t);
        assert(parse_struct(st) == Some(
            (singleton_top_hash(), v.launcher_id, singleton_launcher_hash()),
        ));
        IP::lemma_puzzle_roundtrip(v.inner_puzzle);
        assert(parse_singleton_args(t) == Recognition::<(Seq<u8>, TreeV)>::Found(
            (v.launcher_id, inner_t),
        ));
        assert(SingletonLayerV { launcher_id: v.launcher_id, inner_puzzle: v.inner_puzzle }
            =~= v);
    }

    proof fn lemma_spend_roundtrip(
        v: SingletonLayerV<IP::V>,
        s: SingletonLayerSolutionV<<IP::Solution as View>::V>,
    ) {
        let inner_t = IP::build_puzzle(v.inner_puzzle).unwrap();
        let inner_sol = IP::build_solution(v.inner_puzzle, s.inner_solution).unwrap();
        let tpl = template_of(singleton_top_hash());
        let st = singleton_struct_tree(v.launcher_id);
        let args = seq![st, inner_t];
        let t = Self::build_puzzle(v).unwrap();
        assert(t == curried(tpl, args));
        crate::puzzle::lemma_uncurry_curried(tpl, args);
        crate::puzzle::lemma_parse_curry_env(args);
        assert(args[0] == st && args[1] == inner_t);
        assert(parse_struct(st) == Some(
            (singleton_top_hash(), v.launcher_id, singleton_launcher_hash()),
        ));
        lemma_solution_roundtrip(s.lineage_proof, s.amount, inner_sol);
        IP::lemma_spend_roundtrip(v.inner_puzzle, s.inner_solution);
        assert(parse_singleton_args(t) == Recognition::<(Seq<u8>, TreeV)>::Found(
            (v.launcher_id, inner_t),
        ));
        assert(SingletonLayerV { launcher_id: v.launcher_id, inner_puzzle: v.inner_puzzle }
            =~= v);
    }

    proof fn lemma_hash_consistent(v: SingletonLayerV<IP::V>) {
        let inner_t = IP::build_puzzle(v.inner_puzzle).unwrap();
        IP::lemma_hash_consistent(v.inner_puzzle);
        lemma_curried2_digest(
            template_of(singleton_top_hash()),
            singleton_struct_tree(v.launcher_id),
            inner_t,
        );
        lemma_struct_digest(v.launcher_id);
    }
}

/// A puzzle curried from any template other than the identity-layer
/// template is not recognized: the outcome is absent, never an error.
pub proof fn lemma_foreign_template_absent<IP: PuzzleLayer>(program: TreeV, args: Seq<TreeV>)
    requires
        tree_digest(program) != tree_digest(template_of(singleton_top_hash())),
    ensures
        <SingletonLayer<IP> as PuzzleLayer>::parse_puzzle(curried(program, args))
            is Absent,
{
    crate::puzzle::lemma_uncurry_curried(program, args);
}

/// An identity-layer puzzle whose embedded protocol constants were altered
/// is rejected with the structural-violation error, never treated as
/// absent and never accepted.
pub proof fn lemma_tampered_struct_invalid<IP: PuzzleLayer>(
    mod_hash: Seq<u8>,
    launcher_id: Seq<u8>,
    launcher_puzzle_hash: Seq<u8>,
    inner: TreeV,
)
    requires
        mod_hash.len() == 32,
        launcher_id.len() == 32,
        launcher_puzzle_hash.len() == 32,
        mod_hash != singleton_top_hash() || launcher_puzzle_hash != singleton_launcher_hash(),
    ensures
        <SingletonLayer<IP> as PuzzleLayer>::parse_puzzle(
            curried(
                template_of(singleton_top_hash()),
                seq![
                    pairv(
                        TreeV::Atom(mod_hash),
                        pairv(TreeV::Atom(launcher_id), TreeV::Atom(launcher_puzzle_hash)),
                    ),
                    inner,
                ],
            ),
        ) == Recognition::<SingletonLayerV<IP::V>>::Invalid(DriverError::InvalidSingletonStruct),
{
    let st = pairv(
        TreeV::Atom(mod_hash),
        pairv(TreeV::Atom(launcher_id), TreeV::Atom(launcher_puzzle_hash)),
    );
    let args = seq![st, inner];
    crate::puzzle::lemma_uncurry_curried(template_of(singleton_top_hash()), args);
    crate::puzzle::lemma_parse_curry_env(args);
    assert(args[0] == st && args[1] == inner);
    assert(parse_struct(st) == Some((mod_hash, launcher_id, launcher_puzzle_hash)));
}

// ---------------------------------------------------------------------------
// Lineage proofs for the next spend
// ---------------------------------------------------------------------------

/// What recovering a lineage proof from a parent's raw puzzle tree yields:
/// the parent coin's parent id, the digest of the embedded inner puzzle,
/// and the parent coin's amount.
pub open spec fn parse_lineage_from_spend(coin: CoinV, t: TreeV) -> Recognition<LineageProofV> {
    match parse_singleton_args(t) {
        Recognition::Absent => Recognition::Absent,
        Recognition::Invalid(e) => Recognition::Invalid(e),
        Recognition::Found((lid, inner_tree)) => Recognition::Found(
            LineageProofV {
                parent_parent_coin_id: coin.parent_coin_info,
                parent_inner_puzzle_hash: tree_digest(inner_tree),
                parent_amount: coin.amount,
            },
        ),
    }
}

impl<IP: PuzzleLayer> SingletonLayer<IP> {
    /// The inner layer's puzzle commitment.
    pub fn inner_puzzle_hash(&self) -> (r: Vec<u8>)
        requires
            IP::inv(self@.inner_puzzle),
        ensures
            r@ == IP::hash_repr(self@.inner_puzzle),
            r@.len() == 32,
    {
        self.inner_puzzle.tree_hash()
    }

    /// The proof this coin's layer hands to its child's spend, computed
    /// from locally known values alone: this coin's own parent id and
    /// amount, and the inner layer's commitment.
    pub fn lineage_proof_for_child(&self, my_parent_name: Vec<u8>, my_parent_amount: u64) -> (r:
        LineageProof)
        requires
            IP::inv(self@.inner_puzzle),
        ensures
            r@ == (LineageProofV {
                parent_parent_coin_id: my_parent_name@,
                parent_inner_puzzle_hash: IP::hash_repr(self@.inner_puzzle),
                parent_amount: my_parent_amount,
            }),
    {
        let hash = self.inner_puzzle_hash();
        LineageProof {
            parent_parent_coin_id: my_parent_name,
            parent_inner_puzzle_hash: hash,
            parent_amount: my_parent_amount,
        }
    }

    /// Recovers the same proof from the parent coin and its raw puzzle
    /// tree, when no typed layer is at hand: recognize the identity-layer
    /// template and hash its embedded inner puzzle.
    pub fn lineage_proof_from_parent_spend(parent_coin: &Coin, parent_puzzle: &ClvmTree) -> (r:
        Result<Option<LineageProof>, DriverError>)
        ensures
            (match parse_lineage_from_spend(parent_coin@, parent_puzzle@) {
                Recognition::Absent => r matches Ok(o) && o is None,
                Recognition::Invalid(e) => r matches Err(x) && x == e,
                Recognition::Found(p) => r matches Ok(o) && o matches Some(lp) && lp@ == p,
            }),
    {
        let (_lid, inner_tree) = match recognize_singleton(parent_puzzle) {
            Ok(Some(p)) => p,
            Ok(None) => {
                return Ok(None);
            }
            Err(e) => {
                return Err(e);
            }
        };
        let hash = crate::digest::tree_hash(&inner_tree);
        Ok(
            Some(
                LineageProof {
                    parent_parent_coin_id: copy_bytes(&parent_coin.parent_coin_info),
                    parent_inner_puzzle_hash: hash,
                    parent_amount: parent_coin.amount,
                },
            ),
        )
    }
}

/// The two ways of producing a lineage proof agree: the proof computed
/// from a live layer's own fields equals the proof recovered from that
/// layer's broadcast puzzle tree and coin.
pub proof fn lemma_lineage_proof_equivalence<IP: PuzzleLayer>(
    v: SingletonLayerV<IP::V>,
    coin: CoinV,
)
    requires
        <SingletonLayer<IP> as PuzzleLayer>::inv(v),
        <SingletonLayer<IP> as PuzzleLayer>::build_puzzle(v) is Ok,
    ensures
        parse_lineage_from_spend(
            coin,
            <SingletonLayer<IP> as PuzzleLayer>::build_puzzle(v).unwrap(),
        ) == Recognition::Found(
            LineageProofV {
                parent_parent_coin_id: coin.parent_coin_info,
                parent_inner_puzzle_hash: IP::hash_repr(v.inner_puzzle),
                parent_amount: coin.amount,
            },
        ),
{
    let inner_t = IP::build_puzzle(v.inner_puzzle).unwrap();
    let tpl = template_of(singleton_top_hash());
    let st = singleton_struct_tree(v.launcher_id);
    let args = seq![st, inner_t];
    let t = <SingletonLayer<IP> as PuzzleLayer>::build_puzzle(v).unwrap();
    assert(t == curried(tpl, args));
    crate::puzzle::lemma_uncurry_curried(tpl, args);
    crate::puzzle::lemma_parse_curry_env(args);
    assert(args[0] == st && args[1] == inner_t);
    assert(parse_struct(st) == Some(
        (singleton_top_hash(), v.launcher_id, singleton_launcher_hash()),
    ));
    IP::lemma_hash_consistent(v.inner_puzzle);
    assert(parse_singleton_args(t) == Recognition::<(Seq<u8>, TreeV)>::Found(
        (v.launcher_id, inner_t),
    ));
}

// ---------------------------------------------------------------------------
// The spend assembler
// ---------------------------------------------------------------------------

impl<IP: PuzzleLayer> OuterPuzzleLayer for SingletonLayer<IP> {
    type Solution = SingletonLayerSolution<IP::Solution>;

    open spec fn solvable(v: SingletonLayerV<IP::V>) -> bool {
        <SingletonLayer<IP> as PuzzleLayer>::inv(v)
    }

    open spec fn build_spend(
        v: SingletonLayerV<IP::V>,
        coin: CoinV,
        s: SingletonLayerSolutionV<<IP::Solution as View>::V>,
    ) -> Result<CoinSpendV, DriverError> {
        match <SingletonLayer<IP> as PuzzleLayer>::build_puzzle(v) {
            Err(e) => Err(e),
            Ok(pt) => match <SingletonLayer<IP> as PuzzleLayer>::build_solution(v, s) {
                Err(e) => Err(e),
                Ok(st) => if serializable(pt) && serializable(st) {
                    Ok(CoinSpendV { coin, puzzle_reveal: serial(pt), solution: serial(st) })
                } else {
                    Err(DriverError::ToClvm)
                },
            },
        }
    }

    fn solve(&self, coin: Coin, solution: SingletonLayerSolution<IP::Solution>) -> (r: Result<
        CoinSpend,
        DriverError,
    >) {
        let pt = match self.construct_puzzle() {
            Ok(t) => t,
            Err(e) => {
                return Err(e);
            }
        };
        let st = match self.construct_solution(solution) {
            Ok(t) => t,
            Err(e) => {
                return Err(e);
            }
        };
        let puzzle_reveal = match crate::encoding::serialize(&pt) {
            Ok(b) => b,
            Err(e) => {
                return Err(e);
            }
        };
        let solution_reveal = match crate::encoding::serialize(&st) {
            Ok(b) => b,
            Err(e) => {
                return Err(e);
            }
        };
        Ok(CoinSpend::new(coin, puzzle_reveal, solution_reveal))
    }
}

/// Assembling a spend record and then parsing its serialized puzzle and
/// solution reveals recovers the very layer stack that was spent.
pub proof fn lemma_spend_record_roundtrip<IP: PuzzleLayer>(
    v: SingletonLayerV<IP::V>,
    coin: CoinV,
    s: SingletonLayerSolutionV<<IP::Solution as View>::V>,
)
    requires
        <SingletonLayer<IP> as PuzzleLayer>::inv(v),
        <SingletonLayer<IP> as PuzzleLayer>::sol_inv(v, s),
        <SingletonLayer<IP> as OuterPuzzleLayer>::build_spend(v, coin, s) is Ok,
    ensures
        ({
            let sv = <SingletonLayer<IP> as OuterPuzzleLayer>::build_spend(v, coin, s).unwrap();
            &&& sv.coin == coin
            &&& parse_node(sv.puzzle_reveal) matches Some(pp) && pp.1 == sv.puzzle_reveal.len()
            &&& parse_node(sv.solution) matches Some(sp) && sp.1 == sv.solution.len()
            &&& <SingletonLayer<IP> as PuzzleLayer>::parse_spend(
                parse_node(sv.puzzle_reveal).unwrap().0,
                parse_node(sv.solution).unwrap().0,
            ) == Recognition::Found(v)
        }),
{
    let pt = <SingletonLayer<IP> as PuzzleLayer>::build_puzzle(v).unwrap();
    let st = <SingletonLayer<IP> as PuzzleLayer>::build_solution(v, s).unwrap();
    crate::encoding::lemma_serial_roundtrip(pt);
    crate::encoding::lemma_serial_roundtrip(st);
    <SingletonLayer<IP> as PuzzleLayer>::lemma_spend_roundtrip(v, s);
}

} // verus!
