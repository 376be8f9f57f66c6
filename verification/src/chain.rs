//! The ledger: an append-only sequence of mined blocks, the
//! pending-transaction pool, the proof-of-work search, and the
//! difficulty/reward schedule.

use vstd::prelude::*;
use vstd::string::{StrSliceExecFns, StringExecFns};

use crate::block::{header_hash, header_eq, block_fmt, Block, BlockHeader};
use crate::canon::dec_str;
use crate::hash::hash;
use crate::merkle::{merkle_root, tx_hashes};
use crate::transaction::{tx_fmt, Transaction, Transactional};

verus! {

/// The data structure maintaining the chain: the mined blocks, the pending
/// pool, and the mining parameters.
#[derive(Debug, Clone)]
pub struct Chain<T> {
    /// The mined blocks, oldest first.
    pub chain: Vec<Block<T>>,
    /// The transactions submitted but not yet mined into a block.
    pub curr_trans: Vec<Transaction<T>>,
    /// The difficulty to mine a new block.
    pub difficulty: u32,
    /// The address credited with the mining reward.
    pub miner_addr: String,
    /// The reward minted into each new block's first transaction.
    pub reward: u32,
}

/// The proof-of-work acceptance test on a hash string. The rule parses the
/// first `difficulty` characters as an unsigned number and accepts exactly
/// the value zero; a prefix holding a hexadecimal letter never parses, so on
/// a hexadecimal digest acceptance holds exactly when every character of the
/// prefix is the digit zero, and the empty prefix of difficulty zero is
/// accepted vacuously.
pub open spec fn pow_accepts(h: Seq<char>, difficulty: u32) -> bool {
    &&& difficulty <= h.len()
    &&& forall|i: int| 0 <= i < difficulty ==> h[i] == '0'
}

/// The same header with another nonce.
pub open spec fn with_nonce(h: BlockHeader, nonce: u32) -> BlockHeader {
    BlockHeader {
        timestamp: h.timestamp,
        nonce,
        pre_hash: h.pre_hash,
        merkle: h.merkle,
        difficulty: h.difficulty,
    }
}

/// The sentinel previous-hash of a genesis block: 64 ASCII zeros.
pub open spec fn zero_hash_spec() -> Seq<char> {
    Seq::new(64, |i: int| '0')
}

/// The hash a new block links to: the hash of the last block's header, or
/// the all-zeros sentinel when no block exists yet.
pub open spec fn last_hash_spec<T>(c: Chain<T>) -> Seq<char> {
    if c.chain@.len() == 0 {
        zero_hash_spec()
    } else {
        header_hash(c.chain@.last().header)
    }
}

/// A counter stepped by one, held at its maximum instead of overflowing.
pub open spec fn step_up(x: u32) -> u32 {
    if x < u32::MAX {
        (x + 1) as u32
    } else {
        x
    }
}

/// The display rendering of a block sequence.
pub open spec fn blocks_fmt<T: Transactional>(bs: Seq<Block<T>>) -> Seq<char>
    decreases bs.len(),
{
    if bs.len() == 0 {
        Seq::empty()
    } else {
        blocks_fmt(bs.drop_last()) + block_fmt(bs.last())
    }
}

/// The display rendering of a transaction sequence.
pub open spec fn pool_fmt<T: Transactional>(txs: Seq<Transaction<T>>) -> Seq<char>
    decreases txs.len(),
{
    if txs.len() == 0 {
        Seq::empty()
    } else {
        pool_fmt(txs.drop_last()) + tx_fmt(txs.last())
    }
}

/// The display rendering of a chain.
pub open spec fn chain_fmt<T: Transactional>(c: Chain<T>) -> Seq<char> {
    "Chain [\n"@ + blocks_fmt(c.chain@) + "    Current Transactions: [\n"@ + pool_fmt(
        c.curr_trans@,
    ) + "    ]\n    Difficulty:    "@ + dec_str(c.difficulty as nat) + "\n    Miner address: "@
        + c.miner_addr@ + "\n]\n"@
}

/// Chain equality over the full block sequence, blocks compared by header.
pub open spec fn chain_eq_spec<T>(a: Chain<T>, b: Chain<T>) -> bool {
    &&& a.chain@.len() == b.chain@.len()
    &&& forall|i: int|
        0 <= i < a.chain@.len() ==> header_eq(#[trigger] a.chain@[i].header, b.chain@[i].header)
}

impl<T: Transactional> Chain<T> {
    /// Well-formedness: every block's count matches its transaction list,
    /// every block opens with at least its reward transaction, and the
    /// pending pool leaves room for the reward transaction in a block's
    /// 32-bit count.
    pub open spec fn wf(self) -> bool {
        &&& forall|i: int|
            0 <= i < self.chain@.len() ==> (#[trigger] self.chain@[i]).count as int
                == self.chain@[i].transactions@.len()
        &&& forall|i: int|
            0 <= i < self.chain@.len() ==> (#[trigger] self.chain@[i]).transactions@.len() >= 1
        &&& self.curr_trans@.len() + 1 <= u32::MAX
    }

    /// The state change of successfully mining one block over a pool: the
    /// new block is appended and holds the reward transaction followed by
    /// the pool in order; its header links to the previous last hash,
    /// commits to the Merkle root of its transactions, and passes the
    /// proof-of-work test; the pool is emptied; and every hundredth block
    /// steps the difficulty and the reward.
    pub open spec fn mined_step(pre: Chain<T>, post: Chain<T>, pool: Seq<Transaction<T>>) -> bool {
        let b = post.chain@.last();
        &&& post.chain@.len() == pre.chain@.len() + 1
        &&& post.chain@.take(pre.chain@.len() as int) == pre.chain@
        &&& b.transactions@.len() == pool.len() + 1
        &&& T::is_genesis(b.transactions@[0], pre.miner_addr@, pre.reward)
        &&& b.transactions@.skip(1) == pool
        &&& b.count as int == b.transactions@.len()
        &&& b.header.difficulty == pre.difficulty
        &&& b.header.pre_hash@ == last_hash_spec(pre)
        &&& b.header.merkle@ == merkle_root(tx_hashes(b.transactions@))
        &&& pow_accepts(header_hash(b.header), pre.difficulty)
        &&& post.curr_trans@.len() == 0
        &&& post.miner_addr@ == pre.miner_addr@
        &&& if post.chain@.len() % 100 == 0 {
            post.difficulty == step_up(pre.difficulty) && post.reward == step_up(pre.reward)
        } else {
            post.difficulty == pre.difficulty && post.reward == pre.reward
        }
    }

    /// Creates a chain for a miner and immediately mines its genesis block.
    /// The reward starts at 100. With difficulty 0 the genesis block is
    /// always mined; with a higher difficulty the (bounded) nonce search
    /// could in principle exhaust itself, and the chain is then left empty.
    pub fn new(miner_addr: String, difficulty: u32) -> (r: Chain<T>)
        ensures
            r.wf(),
            r.miner_addr@ == miner_addr@,
            r.difficulty == difficulty,
            r.reward == 100,
            r.curr_trans@.len() == 0,
            r.chain@.len() <= 1,
            difficulty == 0 ==> r.chain@.len() == 1,
            r.chain@.len() == 1 ==> ({
                let b = r.chain@[0];
                &&& b.transactions@.len() == 1
                &&& T::is_genesis(b.transactions@[0], miner_addr@, 100)
                &&& b.count == 1
                &&& b.header.difficulty == difficulty
                &&& b.header.pre_hash@ == zero_hash_spec()
                &&& b.header.merkle@ == merkle_root(tx_hashes(b.transactions@))
                &&& pow_accepts(header_hash(b.header), difficulty)
            }),
    {
        let mut chain = Chain {
            chain: Vec::new(),
            curr_trans: Vec::new(),
            difficulty,
            miner_addr,
            reward: 100,
        };
        let _mined = chain.add_new_block();
        chain
    }

    /// Appends the given transactions to the pending pool, taking them from
    /// the caller; when the pool then holds more than 20 transactions, a new
    /// block is mined from it. Reports success unconditionally, as the
    /// ledger's operations are defined to.
    pub fn add_transaction(&mut self, transactions: &mut Vec<Transaction<T>>) -> (r: bool)
        requires
            old(self).wf(),
            old(self).curr_trans@.len() + old(transactions)@.len() + 1 <= u32::MAX,
        ensures
            r == true,
            final(self).wf(),
            final(transactions)@.len() == 0,
            final(self).miner_addr@ == old(self).miner_addr@,
            ({
                let combined = old(self).curr_trans@ + old(transactions)@;
                if combined.len() <= 20 {
                    &&& final(self).curr_trans@ == combined
                    &&& final(self).chain@ == old(self).chain@
                    &&& final(self).difficulty == old(self).difficulty
                    &&& final(self).reward == old(self).reward
                } else {
                    ||| Self::mined_step(*old(self), *final(self), combined)
                    ||| {
                        &&& final(self).curr_trans@ == combined
                        &&& final(self).chain@ == old(self).chain@
                        &&& final(self).difficulty == old(self).difficulty
                        &&& final(self).reward == old(self).reward
                    }
                }
            }),
            old(self).difficulty == 0 && old(self).curr_trans@.len() + old(transactions)@.len()
                > 20 ==> Self::mined_step(
                *old(self),
                *final(self),
                old(self).curr_trans@ + old(transactions)@,
            ),
    {
        self.curr_trans.append(transactions);
        if self.curr_trans.len() > 20 {
            let ghost pre = *self;
            let mined = self.add_new_block();
            proof {
                if mined {
                    assert(last_hash_spec(pre) == last_hash_spec(*old(self)));
                }
            }
        }
        true
    }

    /// The hash a new block will link to: the hash of the most recent
    /// block's header, or 64 ASCII zeros when no block exists yet.
    pub fn last_hash(&self) -> (r: String)
        ensures
            r@ == last_hash_spec(*self),
    {
        if self.chain.len() == 0 {
            let mut s = String::new();
            let mut i: usize = 0;
            while i < 64
                invariant
                    i <= 64,
                    s@ == Seq::new(i as nat, |j: int| '0'),
                decreases 64 - i,
            {
                s.append("0");
                proof {
                    reveal_strlit("0");
                    assert(s@ =~= Seq::new((i + 1) as nat, |j: int| '0'));
                }
                i = i + 1;
            }
            s
        } else {
            let c = self.chain[self.chain.len() - 1].header.canon();
            hash(c.as_str())
        }
    }

    /// Sets the difficulty; always succeeds.
    pub fn update_difficulty(&mut self, difficulty: u32) -> (r: bool)
        ensures
            r == true,
            final(self).difficulty == difficulty,
            final(self).chain == old(self).chain,
            final(self).curr_trans == old(self).curr_trans,
            final(self).miner_addr == old(self).miner_addr,
            final(self).reward == old(self).reward,
    {
        self.difficulty = difficulty;
        true
    }

    /// Sets the reward; always succeeds.
    pub fn update_reward(&mut self, reward: u32) -> (r: bool)
        ensures
            r == true,
            final(self).reward == reward,
            final(self).chain == old(self).chain,
            final(self).curr_trans == old(self).curr_trans,
            final(self).miner_addr == old(self).miner_addr,
            final(self).difficulty == old(self).difficulty,
    {
        self.reward = reward;
        true
    }

    /// Mines a block from the whole pending pool and appends it. Returns
    /// whether a nonce satisfying the difficulty was found before the 32-bit
    /// search space ran out; on failure the chain is left as it was, the
    /// pending transactions back in the pool. With difficulty 0 mining
    /// always succeeds.
    pub fn add_new_block(&mut self) -> (r: bool)
        requires
            old(self).wf(),
        ensures
            final(self).wf(),
            final(self).miner_addr@ == old(self).miner_addr@,
            r ==> Self::mined_step(*old(self), *final(self), old(self).curr_trans@),
            !r ==> {
                &&& final(self).chain@ == old(self).chain@
                &&& final(self).curr_trans@ == old(self).curr_trans@
                &&& final(self).difficulty == old(self).difficulty
                &&& final(self).reward == old(self).reward
            },
            old(self).difficulty == 0 ==> r,
    {
        let pre_hash = self.last_hash();
        let mut block = Block::<T>::new(
            pre_hash,
            self.difficulty,
            self.miner_addr.clone(),
            self.reward,
            &mut self.curr_trans,
        );
        let mined = Self::proof_of_work(&mut block.header);
        if !mined {
            let rest = block.transactions.split_off(1);
            self.curr_trans = rest;
            proof {
                assert(self.curr_trans@ =~= old(self).curr_trans@);
            }
            return false;
        }
        self.chain.push(block);
        if self.chain.len() % 100 == 0 {
            if self.difficulty < u32::MAX {
                self.difficulty = self.difficulty + 1;
            }
            if self.reward < u32::MAX {
                self.reward = self.reward + 1;
            }
        }
        proof {
            assert(final(self).chain@.take(old(self).chain@.len() as int) =~= old(self).chain@);
        }
        true
    }

    /// Decides well-formedness at run time, so that a chain received from a
    /// peer can be checked before it is handed to the node's state machine.
    pub fn is_well_formed(&self) -> (r: bool)
        ensures
            r == self.wf(),
    {
        if self.curr_trans.len() > (u32::MAX - 1) as usize {
            return false;
        }
        let mut i: usize = 0;
        while i < self.chain.len()
            invariant
                i <= self.chain@.len(),
                forall|j: int|
                    0 <= j < i ==> (#[trigger] self.chain@[j]).count as int
                        == self.chain@[j].transactions@.len()
                        && self.chain@[j].transactions@.len() >= 1,
            decreases self.chain@.len() - i,
        {
            let b = &self.chain[i];
            if b.transactions.len() == 0 {
                return false;
            }
            if b.count as usize != b.transactions.len() {
                return false;
            }
            i = i + 1;
        }
        true
    }

    /// The number of transactions waiting in the pending pool.
    pub fn get_no_curr_trans(&self) -> (r: usize)
        ensures
            r == self.curr_trans@.len(),
    {
        self.curr_trans.len()
    }

    /// Searches for a nonce, counting upward from the header's current one,
    /// whose header hash passes the difficulty's acceptance test. The header
    /// is mutated in place; every other field is left untouched. Returns
    /// whether a nonce was found before the 32-bit space ran out; the nonce
    /// found is the first acceptable one at or above the starting nonce.
    /// With difficulty 0 the very first hash is accepted.
    pub fn proof_of_work(header: &mut BlockHeader) -> (mined: bool)
        ensures
            final(header).timestamp == old(header).timestamp,
            final(header).pre_hash == old(header).pre_hash,
            final(header).merkle == old(header).merkle,
            final(header).difficulty == old(header).difficulty,
            final(header).nonce >= old(header).nonce,
            mined ==> pow_accepts(header_hash(*final(header)), final(header).difficulty),
            mined ==> forall|n: u32|
                old(header).nonce <= n < final(header).nonce ==> !pow_accepts(
                    header_hash(with_nonce(*old(header), n)),
                    old(header).difficulty,
                ),
            !mined ==> forall|n: u32|
                n >= old(header).nonce ==> !pow_accepts(
                    header_hash(with_nonce(*old(header), n)),
                    old(header).difficulty,
                ),
            old(header).difficulty == 0 ==> mined && final(header).nonce == old(header).nonce,
    {
        loop
            invariant
                header.timestamp == old(header).timestamp,
                header.pre_hash == old(header).pre_hash,
                header.merkle == old(header).merkle,
                header.difficulty == old(header).difficulty,
                header.nonce >= old(header).nonce,
                forall|n: u32|
                    old(header).nonce <= n < header.nonce ==> !pow_accepts(
                        header_hash(with_nonce(*old(header), n)),
                        old(header).difficulty,
                    ),
            decreases u32::MAX - header.nonce,
        {
            let c = header.canon();
            let h = hash(c.as_str());
            let d_us = header.difficulty as usize;
            let hl = h.as_str().unicode_len();
            let mut ok: bool;
            if d_us <= hl {
                ok = true;
                let mut j: usize = 0;
                while j < d_us && ok
                    invariant
                        j <= d_us,
                        d_us <= h@.len(),
                        ok ==> forall|k: int| 0 <= k < j ==> h@[k] == '0',
                        !ok ==> !pow_accepts(h@, header.difficulty),
                        d_us == header.difficulty as usize,
                    decreases d_us - j + (if ok {
                        1int
                    } else {
                        0int
                    }),
                {
                    let ch = h.as_str().get_char(j);
                    if ch != '0' {
                        ok = false;
                    } else {
                        j = j + 1;
                    }
                }
            } else {
                ok = false;
            }
            proof {
                assert(ok == pow_accepts(h@, header.difficulty));
                assert(h@ == header_hash(*header));
                assert(*header == with_nonce(*old(header), header.nonce));
            }
            if ok {
                proof {
                    if old(header).difficulty == 0 && header.nonce > old(header).nonce {
                        assert(pow_accepts(
                            header_hash(with_nonce(*old(header), old(header).nonce)),
                            0u32,
                        ));
                        assert(false);
                    }
                }
                return true;
            }
            if header.nonce == u32::MAX {
                return false;
            }
            header.nonce = header.nonce + 1;
        }
    }

    /// Renders the whole chain for display.
    pub fn fmt(&self) -> (r: String)
        ensures
            r@ == chain_fmt(*self),
    {
        let mut s = String::from_str("Chain [\n");
        let mut i: usize = 0;
        while i < self.chain.len()
            invariant
                i <= self.chain@.len(),
                s@ == "Chain [\n"@ + blocks_fmt(self.chain@.take(i as int)),
            decreases self.chain@.len() - i,
        {
            let b = self.chain[i].fmt();
            s.append(b.as_str());
            proof {
                assert(self.chain@.take(i + 1 as int).drop_last() =~= self.chain@.take(i as int));
            }
            i = i + 1;
        }
        proof {
            assert(self.chain@.take(self.chain@.len() as int) =~= self.chain@);
        }
        s.append("    Current Transactions: [\n");
        let mut k: usize = 0;
        while k < self.curr_trans.len()
            invariant
                k <= self.curr_trans@.len(),
                s@ == "Chain [\n"@ + blocks_fmt(self.chain@) + "    Current Transactions: [\n"@
                    + pool_fmt(self.curr_trans@.take(k as int)),
            decreases self.curr_trans@.len() - k,
        {
            let t = self.curr_trans[k].fmt();
            s.append(t.as_str());
            proof {
                assert(self.curr_trans@.take(k + 1 as int).drop_last() =~= self.curr_trans@.take(
                    k as int,
                ));
            }
            k = k + 1;
        }
        proof {
            assert(self.curr_trans@.take(self.curr_trans@.len() as int) =~= self.curr_trans@);
        }
        s.append("    ]\n    Difficulty:    ");
        let d = crate::canon::u64_to_dec(self.difficulty as u64);
        s.append(d.as_str());
        s.append("\n    Miner address: ");
        s.append(self.miner_addr.as_str());
        s.append("\n]\n");
        proof {
            assert(s@ =~= chain_fmt(*self));
        }
        s
    }
}

/// Two chains with identical block sequences are equal. Chains are compared
/// over the full block sequence; comparing only the first block would let
/// divergent histories with a common genesis pass as equal.
pub proof fn lemma_identical_blocks_equal<T>(a: Chain<T>, b: Chain<T>)
    requires
        a.chain@ == b.chain@,
    ensures
        chain_eq_spec(a, b),
{
}

impl<T> PartialEq for Chain<T> {
    /// Chain equality compares the full block sequence, block by block.
    /// A shallower rule that compares only the first block of each chain is
    /// insufficient for fork detection — it calls two chains equal as soon
    /// as they share a genesis block — so the full-sequence comparison is
    /// used, deliberately.
    fn eq(&self, other: &Self) -> (r: bool) {
        if self.chain.len() != other.chain.len() {
            return false;
        }
        let mut i: usize = 0;
        while i < self.chain.len()
            invariant
                self.chain@.len() == other.chain@.len(),
                i <= self.chain@.len(),
                forall|j: int|
                    0 <= j < i ==> header_eq(
                        #[trigger] self.chain@[j].header,
                        other.chain@[j].header,
                    ),
            decreases self.chain@.len() - i,
        {
            if !(self.chain[i] == other.chain[i]) {
                return false;
            }
            i = i + 1;
        }
        true
    }
}

impl<T> vstd::std_specs::cmp::PartialEqSpecImpl for Chain<T> {
    open spec fn obeys_eq_spec() -> bool {
        true
    }

    open spec fn eq_spec(&self, other: &Self) -> bool {
        chain_eq_spec(*self, *other)
    }
}

impl<T> Eq for Chain<T> {}

} // verus!
