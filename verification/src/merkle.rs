//! The Merkle commitment over an ordered transaction list: hash every
//! transaction in order, duplicate the last hash when the list is odd, then
//! repeatedly hash the concatenation of the two frontmost hashes onto the
//! back until a single root remains.

use vstd::prelude::*;
use vstd::string::StringExecFns;

use crate::hash::{hash, hash_of};
use crate::transaction::{tx_canon, Transaction, Transactional};

verus! {

/// The reduction of a non-empty list of hashes to its root: while more than
/// one hash remains, the two frontmost are concatenated, hashed, and pushed
/// to the back.
pub open spec fn merkle_pass(hs: Seq<Seq<char>>) -> Seq<char>
    decreases hs.len(),
{
    if hs.len() <= 1 {
        if hs.len() == 1 {
            hs[0]
        } else {
            Seq::empty()
        }
    } else {
        merkle_pass(hs.subrange(2, hs.len() as int).push(hash_of(hs[0] + hs[1])))
    }
}

/// The Merkle root of an ordered list of hashes: the last hash is duplicated
/// when the list is odd, then the list is reduced to a single hash.
pub open spec fn merkle_root(hs: Seq<Seq<char>>) -> Seq<char> {
    if hs.len() % 2 == 1 {
        merkle_pass(hs.push(hs.last()))
    } else {
        merkle_pass(hs)
    }
}

/// The content hashes of a transaction list, in order.
pub open spec fn tx_hashes<T: Transactional>(txs: Seq<Transaction<T>>) -> Seq<Seq<char>> {
    txs.map_values(|t: Transaction<T>| hash_of(tx_canon(t)))
}

/// The views of a list of owned strings.
pub open spec fn string_views(v: Seq<String>) -> Seq<Seq<char>> {
    v.map_values(|s: String| s@)
}

/// The root of a one-element list is the hash of that element's hash
/// concatenated with itself (the odd-length duplication rule).
pub proof fn lemma_merkle_single(h: Seq<char>)
    ensures
        merkle_root(seq![h]) == hash_of(h + h),
{
    let two = seq![h, h];
    let one = seq![hash_of(h + h)];
    assert(seq![h].push(h) =~= two);
    assert(two.subrange(2, 2).push(hash_of(two[0] + two[1])) =~= one);
    assert(merkle_pass(one) == hash_of(h + h));
    assert(merkle_pass(two) == merkle_pass(one));
    assert(merkle_root(seq![h]) == merkle_pass(two));
}

/// Reduces a non-empty list of hash strings to the Merkle root.
pub fn merkle_of_hashes(hashes: Vec<String>) -> (r: String)
    requires
        hashes@.len() > 0,
    ensures
        r@ == merkle_root(string_views(hashes@)),
{
    let ghost target = merkle_root(string_views(hashes@));
    let mut work = hashes;
    if work.len() % 2 == 1 {
        let last = work[work.len() - 1].clone();
        work.push(last);
        proof {
            assert(string_views(work@) =~= string_views(hashes@).push(string_views(hashes@).last()));
        }
    }
    while work.len() > 1
        invariant
            work@.len() >= 1,
            merkle_pass(string_views(work@)) == target,
        decreases work@.len(),
    {
        let ghost pre = string_views(work@);
        let h1 = work.remove(0);
        let h2 = work.remove(0);
        let cat = h1.concat(h2.as_str());
        let nh = hash(cat.as_str());
        work.push(nh);
        proof {
            assert(string_views(work@) =~= pre.subrange(2, pre.len() as int).push(
                hash_of(pre[0] + pre[1]),
            ));
        }
    }
    let r = work.remove(0);
    r
}

/// Computes the Merkle root of a non-empty transaction list. Callers
/// guarantee at least the reward transaction is present; there is no root of
/// an empty list.
pub fn get_merkle<T: Transactional>(curr_trans: Vec<Transaction<T>>) -> (r: String)
    requires
        curr_trans@.len() > 0,
    ensures
        r@ == merkle_root(tx_hashes(curr_trans@)),
{
    let hashes = hashes_of(&curr_trans);
    merkle_of_hashes(hashes)
}

/// Computes the content hash of every transaction of a list, in order.
pub fn hashes_of<T: Transactional>(txs: &Vec<Transaction<T>>) -> (r: Vec<String>)
    ensures
        string_views(r@) == tx_hashes(txs@),
        r@.len() == txs@.len(),
{
    let mut hashes: Vec<String> = Vec::new();
    let mut i: usize = 0;
    while i < txs.len()
        invariant
            i <= txs@.len(),
            hashes@.len() == i,
            string_views(hashes@) =~= tx_hashes(txs@.take(i as int)),
        decreases txs@.len() - i,
    {
        let ghost pre = hashes@;
        let c = txs[i].canon();
        let h = hash(c.as_str());
        hashes.push(h);
        proof {
            let next = txs@.take(i + 1 as int);
            assert forall|j: int| 0 <= j < next.len() implies string_views(hashes@)[j]
                == tx_hashes(next)[j] by {
                assert(next[j] == txs@[j]);
                if j < i {
                    assert(string_views(pre)[j] == tx_hashes(txs@.take(i as int))[j]);
                    assert(txs@.take(i as int)[j] == txs@[j]);
                    assert(hashes@[j] == pre[j]);
                } else {
                    assert(hashes@[j] == h);
                }
            }
            assert(string_views(hashes@) =~= tx_hashes(next));
        }
        i = i + 1;
    }
    proof {
        assert(txs@.take(txs@.len() as int) =~= txs@);
        assert(string_views(hashes@) =~= tx_hashes(txs@));
    }
    hashes
}

} // verus!
