//! Blocks of the blockchain: a timestamped, hash-linked, Merkle-committed
//! container of transactions. Header equality is defined only over the
//! timestamp, the previous hash and the Merkle root; the nonce and the
//! difficulty are deliberately excluded, so two headers that commit to the
//! same content at the same time are equal whatever work was done on them.

use vstd::prelude::*;
use vstd::string::StringExecFns;

use crate::canon::{append_field, dec_str, i64_to_dec, int_str, str_field, u64_to_dec};
use crate::hash::hash_of;
use crate::merkle::{hashes_of, merkle_of_hashes, merkle_root, tx_hashes};
use crate::transaction::{tx_fmt, Transaction, Transactional};

verus! {

/// A header of a block in the blockchain.
#[derive(Debug, Clone)]
pub struct BlockHeader {
    /// The creation timestamp of the block, in seconds since the epoch.
    pub timestamp: i64,
    /// The nonce of the block, varied during the proof-of-work search.
    pub nonce: u32,
    /// The hash of the previous block.
    pub pre_hash: String,
    /// The Merkle root summarizing all transactions in the block.
    pub merkle: String,
    /// The difficulty the block was mined under.
    pub difficulty: u32,
}

/// The canonical text form of a header, the input of its content hash.
pub open spec fn header_canon(h: BlockHeader) -> Seq<char> {
    "header{"@ + int_str(h.timestamp as int) + ";"@ + dec_str(h.nonce as nat) + ";"@ + str_field(
        h.pre_hash@,
    ) + ";"@ + str_field(h.merkle@) + ";"@ + dec_str(h.difficulty as nat) + "}"@
}

/// The content hash of a header.
pub open spec fn header_hash(h: BlockHeader) -> Seq<char> {
    hash_of(header_canon(h))
}

/// Header equality: timestamp, previous hash and Merkle root; the nonce and
/// the difficulty are excluded.
pub open spec fn header_eq(a: BlockHeader, b: BlockHeader) -> bool {
    &&& a.timestamp == b.timestamp
    &&& a.pre_hash@ == b.pre_hash@
    &&& a.merkle@ == b.merkle@
}

impl PartialEq for BlockHeader {
    fn eq(&self, other: &Self) -> (r: bool) {
        self.timestamp == other.timestamp && self.pre_hash == other.pre_hash && self.merkle
            == other.merkle
    }
}

impl vstd::std_specs::cmp::PartialEqSpecImpl for BlockHeader {
    open spec fn obeys_eq_spec() -> bool {
        true
    }

    open spec fn eq_spec(&self, other: &Self) -> bool {
        header_eq(*self, *other)
    }
}

impl Eq for BlockHeader {}

/// The display rendering of a header.
pub open spec fn header_fmt(h: BlockHeader) -> Seq<char> {
    "        BlockHeader: [\n            Timestamp:     "@ + int_str(h.timestamp as int)
        + "\n            Nonce:         "@ + dec_str(h.nonce as nat)
        + "\n            Previous Hash: "@ + h.pre_hash@ + "\n            Merkle:        "@
        + h.merkle@ + "\n            Difficulty:    "@ + dec_str(h.difficulty as nat)
        + "\n        ]\n"@
}

impl BlockHeader {
    /// Renders the canonical text form of a header.
    pub fn canon(&self) -> (r: String)
        ensures
            r@ == header_canon(*self),
    {
        let mut s = String::from_str("header{");
        let t = i64_to_dec(self.timestamp);
        s.append(t.as_str());
        s.append(";");
        let n = u64_to_dec(self.nonce as u64);
        s.append(n.as_str());
        s.append(";");
        append_field(&mut s, self.pre_hash.as_str());
        s.append(";");
        append_field(&mut s, self.merkle.as_str());
        s.append(";");
        let d = u64_to_dec(self.difficulty as u64);
        s.append(d.as_str());
        s.append("}");
        proof {
            assert(s@ =~= header_canon(*self));
        }
        s
    }

    /// Used to format the header of a block.
    pub fn fmt(&self) -> (r: String)
        ensures
            r@ == header_fmt(*self),
    {
        let mut s = String::from_str("        BlockHeader: [\n            Timestamp:     ");
        let t = i64_to_dec(self.timestamp);
        s.append(t.as_str());
        s.append("\n            Nonce:         ");
        let n = u64_to_dec(self.nonce as u64);
        s.append(n.as_str());
        s.append("\n            Previous Hash: ");
        s.append(self.pre_hash.as_str());
        s.append("\n            Merkle:        ");
        s.append(self.merkle.as_str());
        s.append("\n            Difficulty:    ");
        let d = u64_to_dec(self.difficulty as u64);
        s.append(d.as_str());
        s.append("\n        ]\n");
        proof {
            assert(s@ =~= header_fmt(*self));
        }
        s
    }
}

/// A block of the blockchain.
#[derive(Debug, Clone)]
pub struct Block<T> {
    /// The header information of the current block.
    pub header: BlockHeader,
    /// The number of transactions in the current block.
    pub count: u32,
    /// The transactions in the current block.
    pub transactions: Vec<Transaction<T>>,
}

impl<T> PartialEq for Block<T> {
    /// Block equality delegates entirely to header equality.
    fn eq(&self, other: &Self) -> (r: bool) {
        self.header == other.header
    }
}

impl<T> vstd::std_specs::cmp::PartialEqSpecImpl for Block<T> {
    open spec fn obeys_eq_spec() -> bool {
        true
    }

    open spec fn eq_spec(&self, other: &Self) -> bool {
        header_eq(self.header, other.header)
    }
}

impl<T> Eq for Block<T> {}

/// The display rendering of an ordered transaction list.
pub open spec fn txs_fmt<T: Transactional>(txs: Seq<Transaction<T>>) -> Seq<char>
    decreases txs.len(),
{
    if txs.len() == 0 {
        Seq::empty()
    } else {
        txs_fmt(txs.drop_last()) + tx_fmt(txs.last())
    }
}

/// The display rendering of a block.
pub open spec fn block_fmt<T: Transactional>(b: Block<T>) -> Seq<char> {
    "    Block: [\n"@ + header_fmt(b.header) + "        Number of Transactions: "@ + dec_str(
        b.count as nat,
    ) + "\n        Transactions: [\n"@ + txs_fmt(b.transactions@) + "        ]\n    ]\n"@
}

impl<T: Transactional> Block<T> {
    /// Builds a block: the header links to the previous hash, the reward
    /// transaction for the miner is minted first, the caller's pending
    /// transactions follow in order (and are taken from the caller), and the
    /// Merkle root commits to the final list. No proof-of-work is done here;
    /// that is the caller's responsibility, applied to the header afterwards.
    pub fn new(
        hash: String,
        difficulty: u32,
        miner_address: String,
        reward: u32,
        transactions: &mut Vec<Transaction<T>>,
    ) -> (r: Block<T>)
        requires
            old(transactions)@.len() + 1 <= u32::MAX,
        ensures
            r.header.nonce == 0,
            r.header.pre_hash@ == hash@,
            r.header.difficulty == difficulty,
            r.count as int == old(transactions)@.len() + 1,
            r.transactions@.len() == old(transactions)@.len() + 1,
            T::is_genesis(r.transactions@[0], miner_address@, reward),
            r.transactions@.skip(1) == old(transactions)@,
            r.header.merkle@ == merkle_root(tx_hashes(r.transactions@)),
            final(transactions)@.len() == 0,
    {
        let header = BlockHeader {
            timestamp: now_seconds(),
            nonce: 0,
            pre_hash: hash,
            merkle: String::new(),
            difficulty,
        };
        let reward_trans = T::genesis(miner_address, reward);
        let mut block = Block { header, count: 0, transactions: Vec::new() };
        block.transactions.push(reward_trans);
        block.transactions.append(transactions);
        block.count = block.transactions.len() as u32;
        let hs = hashes_of(&block.transactions);
        let m = merkle_of_hashes(hs);
        block.header.merkle = m;
        proof {
            assert(block.transactions@.skip(1) =~= old(transactions)@);
        }
        block
    }

    /// Used to format a block of the blockchain.
    pub fn fmt(&self) -> (r: String)
        ensures
            r@ == block_fmt(*self),
    {
        let mut s = String::from_str("    Block: [\n");
        let h = self.header.fmt();
        s.append(h.as_str());
        s.append("        Number of Transactions: ");
        let c = u64_to_dec(self.count as u64);
        s.append(c.as_str());
        s.append("\n        Transactions: [\n");
        let mut i: usize = 0;
        while i < self.transactions.len()
            invariant
                i <= self.transactions@.len(),
                s@ == "    Block: [\n"@ + header_fmt(self.header) + "        Number of Transactions: "@
                    + dec_str(self.count as nat) + "\n        Transactions: [\n"@ + txs_fmt(
                    self.transactions@.take(i as int),
                ),
            decreases self.transactions@.len() - i,
        {
            let t = self.transactions[i].fmt();
            s.append(t.as_str());
            proof {
                assert(self.transactions@.take(i + 1 as int).drop_last() =~= self.transactions@.take(
                    i as int,
                ));
            }
            i = i + 1;
        }
        s.append("        ]\n    ]\n");
        proof {
            assert(self.transactions@.take(self.transactions@.len() as int)
                =~= self.transactions@);
            assert(s@ =~= block_fmt(*self));
        }
        s
    }
}

/// Relies on time::OffsetDateTime::now_utc (through unix_timestamp): the
/// current wall-clock time in whole seconds since the epoch. Nothing is
/// assumed of the value returned.
#[verifier::external_body]
pub(crate) fn now_seconds() -> i64 {
    time::OffsetDateTime::now_utc().unix_timestamp()
}

} // verus!
