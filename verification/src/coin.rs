//! Coins and broadcastable spend records.

use vstd::prelude::*;

use crate::digest::{push_all, sha256, sha256_bytes};
use crate::encoding::{encode_uint, uint_bytes};

verus! {

/// Mathematical model of a coin.
#[verifier::ext_equal]
pub struct CoinV {
    pub parent_coin_info: Seq<u8>,
    pub puzzle_hash: Seq<u8>,
    pub amount: u64,
}

/// An immutable, once-spendable value record: parent coin id, puzzle
/// commitment, and amount.
#[derive(Debug)]
pub struct Coin {
    pub parent_coin_info: Vec<u8>,
    pub puzzle_hash: Vec<u8>,
    pub amount: u64,
}

impl View for Coin {
    type V = CoinV;

    open spec fn view(&self) -> CoinV {
        CoinV {
            parent_coin_info: self.parent_coin_info@,
            puzzle_hash: self.puzzle_hash@,
            amount: self.amount,
        }
    }
}

/// A coin's two hash fields are 32 bytes each.
pub open spec fn coin_wf(c: CoinV) -> bool {
    c.parent_coin_info.len() == 32 && c.puzzle_hash.len() == 32
}

/// A coin's identifier: the digest of its parent id, its puzzle commitment,
/// and its amount in minimal signed big-endian bytes.
pub open spec fn coin_id_spec(c: CoinV) -> Seq<u8> {
    sha256(c.parent_coin_info + c.puzzle_hash + uint_bytes(c.amount))
}

impl Coin {
    pub fn new(parent_coin_info: Vec<u8>, puzzle_hash: Vec<u8>, amount: u64) -> (r: Coin)
        ensures
            r@ == (CoinV { parent_coin_info: parent_coin_info@, puzzle_hash: puzzle_hash@, amount }),
    {
        Coin { parent_coin_info, puzzle_hash, amount }
    }

    /// Computes this coin's identifier.
    pub fn coin_id(&self) -> (r: Vec<u8>)
        ensures
            r@ == coin_id_spec(self@),
            r@.len() == 32,
    {
        let mut buf: Vec<u8> = Vec::new();
        push_all(&mut buf, &self.parent_coin_info);
        push_all(&mut buf, &self.puzzle_hash);
        let amount = encode_uint(self.amount);
        push_all(&mut buf, &amount);
        proof {
            assert(buf@ =~= self@.parent_coin_info + self@.puzzle_hash + uint_bytes(self.amount));
        }
        sha256_bytes(&buf)
    }
}

/// Mathematical model of a spend record.
#[verifier::ext_equal]
pub struct CoinSpendV {
    pub coin: CoinV,
    pub puzzle_reveal: Seq<u8>,
    pub solution: Seq<u8>,
}

/// The atomic broadcastable unit: a coin together with its serialized puzzle
/// reveal and solution.
#[derive(Debug)]
pub struct CoinSpend {
    pub coin: Coin,
    pub puzzle_reveal: Vec<u8>,
    pub solution: Vec<u8>,
}

impl View for CoinSpend {
    type V = CoinSpendV;

    open spec fn view(&self) -> CoinSpendV {
        CoinSpendV { coin: self.coin@, puzzle_reveal: self.puzzle_reveal@, solution: self.solution@ }
    }
}

impl CoinSpend {
    pub fn new(coin: Coin, puzzle_reveal: Vec<u8>, solution: Vec<u8>) -> (r: CoinSpend)
        ensures
            r@ == (CoinSpendV {
                coin: coin@,
                puzzle_reveal: puzzle_reveal@,
                solution: solution@,
            }),
    {
        CoinSpend { coin, puzzle_reveal, solution }
    }
}

} // verus!
