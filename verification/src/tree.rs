//! The expression-tree value type: an atom of bytes, or a pair of subtrees.

use vstd::prelude::*;

verus! {

/// Mathematical model of an expression tree.
#[verifier::ext_equal]
pub enum TreeV {
    Atom(Seq<u8>),
    Pair(Box<TreeV>, Box<TreeV>),
}

/// An expression tree: the executable counterpart of [`TreeV`].
#[derive(Debug)]
pub enum ClvmTree {
    Atom(Vec<u8>),
    Pair(Box<ClvmTree>, Box<ClvmTree>),
}

impl ClvmTree {
    /// The mathematical tree this value stands for.
    pub open spec fn model(&self) -> TreeV
        decreases self,
    {
        match self {
            ClvmTree::Atom(bytes) => TreeV::Atom(bytes@),
            ClvmTree::Pair(first, rest) => TreeV::Pair(
                Box::new(first.model()),
                Box::new(rest.model()),
            ),
        }
    }
}

impl View for ClvmTree {
    type V = TreeV;

    open spec fn view(&self) -> TreeV {
        self.model()
    }
}

impl ClvmTree {
    /// An atom holding no bytes: the nil value.
    pub fn nil() -> (r: ClvmTree)
        ensures
            r@ == TreeV::Atom(Seq::<u8>::empty()),
    {
        let r = ClvmTree::Atom(Vec::new());
        proof {
            assert(r@->Atom_0 =~= Seq::<u8>::empty());
        }
        r
    }

    /// An atom holding a single byte.
    pub fn atom1(b: u8) -> (r: ClvmTree)
        ensures
            r@ == TreeV::Atom(seq![b]),
    {
        let mut v: Vec<u8> = Vec::new();
        v.push(b);
        let r = ClvmTree::Atom(v);
        proof {
            assert(r@->Atom_0 =~= seq![b]);
        }
        r
    }

    /// A pair of two subtrees.
    pub fn pair(first: ClvmTree, rest: ClvmTree) -> (r: ClvmTree)
        ensures
            r@ == TreeV::Pair(Box::new(first@), Box::new(rest@)),
    {
        ClvmTree::Pair(Box::new(first), Box::new(rest))
    }
}

/// Compares two byte vectors for equality of their contents.
pub fn bytes_eq(a: &Vec<u8>, b: &Vec<u8>) -> (r: bool)
    ensures
        r == (a@ == b@),
{
    if a.len() != b.len() {
        proof {
            assert(a@ != b@) by {
                assert(a@.len() != b@.len());
            }
        }
        return false;
    }
    let mut i: usize = 0;
    while i < a.len()
        invariant
            i <= a.len(),
            a@.len() == b@.len(),
            forall|j: int| 0 <= j < i ==> a@[j] == b@[j],
        decreases a.len() - i,
    {
        if a[i] != b[i] {
            return false;
        }
        i += 1;
    }
    proof {
        assert(a@ =~= b@);
    }
    true
}

/// A pair value.
pub open spec fn pairv(first: TreeV, rest: TreeV) -> TreeV {
    TreeV::Pair(Box::new(first), Box::new(rest))
}

/// The empty atom.
pub open spec fn nilv() -> TreeV {
    TreeV::Atom(Seq::empty())
}

/// A proper list of two elements.
pub open spec fn list2v(a: TreeV, b: TreeV) -> TreeV {
    pairv(a, pairv(b, nilv()))
}

/// A proper list of three elements.
pub open spec fn list3v(a: TreeV, b: TreeV, c: TreeV) -> TreeV {
    pairv(a, pairv(b, pairv(c, nilv())))
}

/// Tests whether a tree is the atom holding exactly the one given byte.
pub fn is_atom_byte(t: &ClvmTree, b: u8) -> (r: bool)
    ensures
        r == (t@ == TreeV::Atom(seq![b])),
{
    match t {
        ClvmTree::Atom(bytes) => {
            if bytes.len() == 1 {
                let e = bytes[0] == b;
                proof {
                    if e {
                        assert(bytes@ =~= seq![b]);
                    } else {
                        assert(bytes@[0] != seq![b][0]);
                    }
                }
                e
            } else {
                proof {
                    assert(bytes@.len() != seq![b].len());
                }
                false
            }
        }
        ClvmTree::Pair(_, _) => false,
    }
}

/// Tests whether a tree is the empty atom.
pub fn is_nil(t: &ClvmTree) -> (r: bool)
    ensures
        r == (t@ == TreeV::Atom(Seq::<u8>::empty())),
{
    match t {
        ClvmTree::Atom(bytes) => {
            let e = bytes.len() == 0;
            proof {
                if e {
                    assert(bytes@ =~= Seq::<u8>::empty());
                } else {
                    assert(bytes@.len() != 0);
                }
            }
            e
        }
        ClvmTree::Pair(_, _) => false,
    }
}

/// A vector holding one byte.
pub fn single_byte_vec(b: u8) -> (r: Vec<u8>)
    ensures
        r@ == seq![b],
{
    let mut v: Vec<u8> = Vec::new();
    v.push(b);
    proof {
        assert(v@ =~= seq![b]);
    }
    v
}

/// Copies a byte vector.
pub fn copy_bytes(src: &Vec<u8>) -> (r: Vec<u8>)
    ensures
        r@ == src@,
{
    let mut r: Vec<u8> = Vec::new();
    let mut i: usize = 0;
    while i < src.len()
        invariant
            i <= src@.len(),
            r@ == src@.take(i as int),
        decreases src.len() - i,
    {
        r.push(src[i]);
        proof {
            assert(r@ =~= src@.take(i as int + 1));
        }
        i += 1;
    }
    proof {
        assert(r@ =~= src@);
    }
    r
}

/// Copies a tree.
pub fn clone_tree(t: &ClvmTree) -> (r: ClvmTree)
    ensures
        r@ == t@,
    decreases t,
{
    match t {
        ClvmTree::Atom(bytes) => ClvmTree::Atom(copy_bytes(bytes)),
        ClvmTree::Pair(first, rest) => ClvmTree::Pair(
            Box::new(clone_tree(first)),
            Box::new(clone_tree(rest)),
        ),
    }
}

/// Compares two trees for structural equality.
pub fn tree_eq(a: &ClvmTree, b: &ClvmTree) -> (r: bool)
    ensures
        r == (a@ == b@),
    decreases a,
{
    match (a, b) {
        (ClvmTree::Atom(x), ClvmTree::Atom(y)) => bytes_eq(x, y),
        (ClvmTree::Pair(af, ar), ClvmTree::Pair(bf, br)) => {
            tree_eq(af, bf) && tree_eq(ar, br)
        }
        (ClvmTree::Atom(_), ClvmTree::Pair(_, _)) => false,
        (ClvmTree::Pair(_, _), ClvmTree::Atom(_)) => false,
    }
}

} // verus!
