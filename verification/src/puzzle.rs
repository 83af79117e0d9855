//! Currying: partial application of a template program with fixed argument
//! values, and its inverse, recognizing a curried program's template and
//! arguments in a bare tree.

use vstd::prelude::*;

use crate::digest::{tree_digest, tree_hash};
use crate::tree::{clone_tree, is_atom_byte, is_nil, ClvmTree, TreeV};

verus! {

/// The quotation of a tree: a pair of the quote operator atom and the tree.
pub open spec fn quote(t: TreeV) -> TreeV {
    TreeV::Pair(Box::new(TreeV::Atom(seq![1u8])), Box::new(t))
}

/// The environment chain of a curried program: each argument is quoted and
/// consed on, and the chain ends in the atom `1`.
pub open spec fn curry_env(args: Seq<TreeV>) -> TreeV
    decreases args.len(),
{
    if args.len() == 0 {
        TreeV::Atom(seq![1u8])
    } else {
        TreeV::Pair(
            Box::new(TreeV::Atom(seq![4u8])),
            Box::new(
                TreeV::Pair(
                    Box::new(quote(args.first())),
                    Box::new(
                        TreeV::Pair(
                            Box::new(curry_env(args.drop_first())),
                            Box::new(TreeV::Atom(Seq::empty())),
                        ),
                    ),
                ),
            ),
        )
    }
}

/// A program curried with fixed arguments: the apply operator, the quoted
/// template, and the environment chain.
pub open spec fn curried(program: TreeV, args: Seq<TreeV>) -> TreeV {
    TreeV::Pair(
        Box::new(TreeV::Atom(seq![2u8])),
        Box::new(
            TreeV::Pair(
                Box::new(quote(program)),
                Box::new(
                    TreeV::Pair(Box::new(curry_env(args)), Box::new(TreeV::Atom(Seq::empty()))),
                ),
            ),
        ),
    )
}

/// Recognizes the top shape of a curried program, returning the template
/// and the raw environment tree. The environment chain itself is not
/// validated here.
pub open spec fn uncurry_top(t: TreeV) -> Option<(TreeV, TreeV)> {
    match t {
        TreeV::Pair(op, body) => if *op == TreeV::Atom(seq![2u8]) {
            match *body {
                TreeV::Pair(qp, body2) => match *qp {
                    TreeV::Pair(q, program) => if *q == TreeV::Atom(seq![1u8]) {
                        match *body2 {
                            TreeV::Pair(env, nil) => if *nil == TreeV::Atom(Seq::<u8>::empty()) {
                                Some((*program, *env))
                            } else {
                                None
                            },
                            TreeV::Atom(_) => None,
                        }
                    } else {
                        None
                    },
                    TreeV::Atom(_) => None,
                },
                TreeV::Atom(_) => None,
            }
        } else {
            None
        },
        TreeV::Atom(_) => None,
    }
}

/// Walks an environment chain, returning the curried argument values.
pub open spec fn parse_curry_args(env: TreeV) -> Option<Seq<TreeV>>
    decreases env,
{
    if env == TreeV::Atom(seq![1u8]) {
        Some(Seq::empty())
    } else {
        match env {
            TreeV::Pair(op, body) => if *op == TreeV::Atom(seq![4u8]) {
                match *body {
                    TreeV::Pair(qa, body2) => match *qa {
                        TreeV::Pair(q, arg) => if *q == TreeV::Atom(seq![1u8]) {
                            match *body2 {
                                TreeV::Pair(rest, nil) => if *nil == TreeV::Atom(
                                    Seq::<u8>::empty(),
                                ) {
                                    match parse_curry_args(*rest) {
                                        None => None,
                                        Some(tail) => Some(seq![*arg] + tail),
                                    }
                                } else {
                                    None
                                },
                                TreeV::Atom(_) => None,
                            }
                        } else {
                            None
                        },
                        TreeV::Atom(_) => None,
                    },
                    TreeV::Atom(_) => None,
                }
            } else {
                None
            },
            TreeV::Atom(_) => None,
        }
    }
}

/// Recognizing a curried program built from a template and arguments gives
/// back the template and the exact environment chain.
pub proof fn lemma_uncurry_curried(program: TreeV, args: Seq<TreeV>)
    ensures
        uncurry_top(curried(program, args)) == Some((program, curry_env(args))),
{
}

/// Walking the environment chain built from arguments gives the arguments
/// back.
pub proof fn lemma_parse_curry_env(args: Seq<TreeV>)
    ensures
        parse_curry_args(curry_env(args)) == Some(args),
    decreases args.len(),
{
    if args.len() == 0 {
        assert(parse_curry_args(curry_env(args)) == Some(Seq::<TreeV>::empty()));
        assert(args =~= Seq::<TreeV>::empty());
    } else {
        lemma_parse_curry_env(args.drop_first());
        assert(curry_env(args) != TreeV::Atom(seq![1u8]));
        assert(seq![args.first()] + args.drop_first() =~= args);
    }
}

/// A recognized curried program: the template's commitment, the template
/// itself, and the raw environment tree holding the curried arguments.
#[derive(Debug)]
pub struct CurriedPuzzle {
    pub mod_hash: Vec<u8>,
    pub program: ClvmTree,
    pub args: ClvmTree,
}

/// The outcome of probing a bare tree: a recognized curried program, or a
/// tree of any other shape.
#[derive(Debug)]
pub enum Puzzle {
    Curried(CurriedPuzzle),
    Raw,
}

impl Puzzle {
    /// Probes a tree for the curried-program shape, computing the
    /// template's commitment when it matches.
    pub fn parse(t: &ClvmTree) -> (r: Puzzle)
        ensures
            (match uncurry_top(t@) {
                Some(pe) => r matches Puzzle::Curried(c) && c.program@ == pe.0 && c.args@ == pe.1
                    && c.mod_hash@ == tree_digest(pe.0) && c.mod_hash@.len() == 32,
                None => r is Raw,
            }),
    {
        match t {
            ClvmTree::Pair(op, body) => {
                if !is_atom_byte(op, 2) {
                    return Puzzle::Raw;
                }
                match &**body {
                    ClvmTree::Pair(qp, body2) => {
                        match &**qp {
                            ClvmTree::Pair(q, program) => {
                                proof {
                                    assert(t@ == TreeV::Pair(Box::new(op@), Box::new(body@)));
                                    assert(body@ == TreeV::Pair(Box::new(qp@), Box::new(body2@)));
                                    assert(qp@ == TreeV::Pair(Box::new(q@), Box::new(program@)));
                                }
                                if !is_atom_byte(q, 1) {
                                    return Puzzle::Raw;
                                }
                                match &**body2 {
                                    ClvmTree::Pair(env, nil) => {
                                        proof {
                                            assert(body2@ == TreeV::Pair(
                                                Box::new(env@),
                                                Box::new(nil@),
                                            ));
                                        }
                                        if !is_nil(nil) {
                                            return Puzzle::Raw;
                                        }
                                        let mod_hash = tree_hash(program);
                                        Puzzle::Curried(
                                            CurriedPuzzle {
                                                mod_hash,
                                                program: clone_tree(program),
                                                args: clone_tree(env),
                                            },
                                        )
                                    }
                                    ClvmTree::Atom(_) => Puzzle::Raw,
                                }
                            }
                            ClvmTree::Atom(_) => Puzzle::Raw,
                        }
                    }
                    ClvmTree::Atom(_) => Puzzle::Raw,
                }
            }
            ClvmTree::Atom(_) => Puzzle::Raw,
        }
    }
}

/// Walks an environment chain that must hold exactly two curried arguments,
/// returning them. Any other chain, malformed or of another length, yields
/// nothing.
pub fn decode_two_curry_args(env: &ClvmTree) -> (r: Option<(ClvmTree, ClvmTree)>)
    ensures
        (match parse_curry_args(env@) {
            Some(l) => if l.len() == 2 {
                r matches Some(p) && p.0@ == l[0] && p.1@ == l[1]
            } else {
                r is None
            },
            None => r is None,
        }),
{
    let (a1, rest1) = match decode_curry_link(env) {
        Some(p) => p,
        None => {
            return None;
        }
    };
    let (a2, rest2) = match decode_curry_link(rest1) {
        Some(p) => p,
        None => {
            return None;
        }
    };
    if !is_atom_byte(rest2, 1) {
        return None;
    }
    proof {
        assert(parse_curry_args(rest2@) == Some(Seq::<TreeV>::empty()));
        assert(parse_curry_args(rest1@) == Some(seq![a2@] + Seq::<TreeV>::empty()));
        assert(parse_curry_args(env@) == Some(seq![a1@] + (seq![a2@] + Seq::<TreeV>::empty())));
        let l = (seq![a1@] + (seq![a2@] + Seq::<TreeV>::empty()));
        assert(l.len() == 2 && l[0] == a1@ && l[1] == a2@);
    }
    Some((clone_tree(a1), clone_tree(a2)))
}

/// Takes one link off an environment chain: the quoted argument and the
/// remaining chain. The terminal atom or a malformed link yields nothing.
fn decode_curry_link(env: &ClvmTree) -> (r: Option<(&ClvmTree, &ClvmTree)>)
    ensures
        (match r {
            Some(p) => env@ != TreeV::Atom(seq![1u8]) && (match parse_curry_args(env@) {
                Some(l) => l.len() >= 1 && (parse_curry_args(p.1@) matches Some(tail) && l
                    == seq![p.0@] + tail),
                None => parse_curry_args(p.1@) is None,
            }),
            None => (match parse_curry_args(env@) {
                Some(l) => l.len() == 0,
                None => true,
            }),
        }),
{
    if is_atom_byte(env, 1) {
        return None;
    }
    let (op, body) = match env {
        ClvmTree::Pair(op, body) => (op, body),
        ClvmTree::Atom(_) => {
            return None;
        }
    };
    proof {
        assert(env@ == TreeV::Pair(Box::new(op@), Box::new(body@)));
    }
    if !is_atom_byte(op, 4) {
        return None;
    }
    let (qa, body2) = match &**body {
        ClvmTree::Pair(qa, body2) => (qa, body2),
        ClvmTree::Atom(_) => {
            return None;
        }
    };
    proof {
        assert(body@ == TreeV::Pair(Box::new(qa@), Box::new(body2@)));
    }
    let (q, arg) = match &**qa {
        ClvmTree::Pair(q, arg) => (q, arg),
        ClvmTree::Atom(_) => {
            return None;
        }
    };
    proof {
        assert(qa@ == TreeV::Pair(Box::new(q@), Box::new(arg@)));
    }
    if !is_atom_byte(q, 1) {
        return None;
    }
    let (rest, nil) = match &**body2 {
        ClvmTree::Pair(rest, nil) => (rest, nil),
        ClvmTree::Atom(_) => {
            return None;
        }
    };
    proof {
        assert(body2@ == TreeV::Pair(Box::new(rest@), Box::new(nil@)));
    }
    if !is_nil(nil) {
        return None;
    }
    Some((arg, rest))
}

/// Builds the quotation of a tree.
pub fn quote_tree(t: ClvmTree) -> (r: ClvmTree)
    ensures
        r@ == quote(t@),
{
    let q = ClvmTree::atom1(1);
    ClvmTree::pair(q, t)
}

/// Curries a template program with two argument values.
pub fn curry2(program: ClvmTree, arg1: ClvmTree, arg2: ClvmTree) -> (r: ClvmTree)
    ensures
        r@ == curried(program@, seq![arg1@, arg2@]),
{
    let ghost args = seq![arg1@, arg2@];
    let tail = ClvmTree::atom1(1);
    let ghost tail_args = Seq::<TreeV>::empty();
    proof {
        assert(curry_env(tail_args) == tail@);
    }
    let env2 = ClvmTree::pair(
        ClvmTree::atom1(4),
        ClvmTree::pair(quote_tree(arg2), ClvmTree::pair(tail, ClvmTree::nil())),
    );
    proof {
        let a2 = seq![args[1]];
        assert(a2.first() == args[1]);
        assert(a2.drop_first() =~= Seq::<TreeV>::empty());
        assert(env2@ == curry_env(a2));
    }
    let env = ClvmTree::pair(
        ClvmTree::atom1(4),
        ClvmTree::pair(quote_tree(arg1), ClvmTree::pair(env2, ClvmTree::nil())),
    );
    proof {
        assert(args.first() == args[0]);
        assert(args.drop_first() =~= seq![args[1]]);
        assert(env@ == curry_env(args));
    }
    let r = ClvmTree::pair(
        ClvmTree::atom1(2),
        ClvmTree::pair(quote_tree(program), ClvmTree::pair(env, ClvmTree::nil())),
    );
    r
}

} // verus!
