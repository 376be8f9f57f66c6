//! The per-process peer state machine: the peer table, the accepted chain
//! with its agreement count, the alternate-chain cache, and the decisions
//! taken on each inbound message. The node itself performs no I/O: the
//! surrounding process holds this state behind a lock, feeds it decoded
//! messages, and performs the effect each handler returns (sending a pong,
//! opening connections, broadcasting the chain).

use vstd::prelude::*;

use crate::chain::{chain_eq_spec, step_up, Chain};
use crate::messages::Messages;
use crate::transaction::{Transaction, Transactional};

verus! {

/// Whether a peer with this id is registered in a peer table.
pub open spec fn has_peer(peers: Seq<(u128, String)>, id: u128) -> bool {
    exists|i: int| 0 <= i < peers.len() && peers[i].0 == id
}

/// What the surrounding process must do after a message was handled.
pub enum NodeEffect {
    /// Nothing to send.
    Quiet,
    /// Reply to the sending peer with a Pong carrying this node's chain.
    ReplyPong,
    /// Send a Pong carrying this node's chain to every known peer.
    BroadcastPong,
    /// Open connections to these addresses.
    Connect(Vec<String>),
}

/// Per-node mutable state: identity, bound address, peer table, the
/// accepted chain paired with the count of peers observed agreeing on it,
/// and the alternate-chain cache arbitrating divergent chains.
#[derive(Debug, Clone)]
pub struct NodeInner<T> {
    /// This node's process-unique identity.
    pub id: u128,
    /// The address this node is reachable at.
    pub addr: String,
    /// The peer table: the id and address of every known peer.
    pub peers: Vec<(u128, String)>,
    /// The accepted chain and its agreement count; None until a first chain
    /// is adopted.
    pub chain: Option<(u32, Chain<T>)>,
    /// The alternate-chain cache: vote counts over competing chains.
    pub alt_chains: Vec<(u32, Chain<T>)>,
}

/// The index of the first cached entry whose chain equals the incoming one,
/// or -1 when none does.
pub open spec fn find_alt<T>(alts: Seq<(u32, Chain<T>)>, c: Chain<T>) -> int
    decreases alts.len(),
{
    if alts.len() == 0 {
        -1
    } else if chain_eq_spec(alts[0].1, c) {
        0
    } else {
        let r = find_alt(alts.drop_first(), c);
        if r == -1 {
            -1
        } else {
            r + 1
        }
    }
}

/// `find_alt` yields -1 exactly when no cached chain matches, and otherwise
/// the first matching index.
pub proof fn lemma_find_alt<T>(alts: Seq<(u32, Chain<T>)>, c: Chain<T>)
    ensures
        find_alt(alts, c) == -1 ==> forall|j: int|
            0 <= j < alts.len() ==> !chain_eq_spec(#[trigger] alts[j].1, c),
        find_alt(alts, c) != -1 ==> {
            &&& 0 <= find_alt(alts, c) < alts.len()
            &&& chain_eq_spec(alts[find_alt(alts, c)].1, c)
            &&& forall|j: int|
                0 <= j < find_alt(alts, c) ==> !chain_eq_spec(#[trigger] alts[j].1, c)
        },
    decreases alts.len(),
{
    if alts.len() > 0 && !chain_eq_spec(alts[0].1, c) {
        let rest = alts.drop_first();
        lemma_find_alt(rest, c);
        let r = find_alt(rest, c);
        if r == -1 {
            assert forall|j: int| 0 <= j < alts.len() implies !chain_eq_spec(
                #[trigger] alts[j].1,
                c,
            ) by {
                if j > 0 {
                    assert(rest[j - 1] == alts[j]);
                    assert(!chain_eq_spec(rest[j - 1].1, c));
                }
            }
        } else {
            let f = r + 1;
            assert(find_alt(alts, c) == f);
            assert(rest[r] == alts[f]);
            assert(chain_eq_spec(alts[f].1, c));
            assert forall|j: int| 0 <= j < f implies !chain_eq_spec(#[trigger] alts[j].1, c) by {
                if j > 0 {
                    assert(rest[j - 1] == alts[j]);
                    assert(!chain_eq_spec(rest[j - 1].1, c));
                }
            }
        }
    }
}

/// The state change of registering a peer and deciding whether to answer a
/// ping: a known peer is a no-op; an unknown one is registered, and the ping
/// is answered exactly when this node already has a chain to offer (before
/// one exists the handshake is deferred rather than failed).
pub open spec fn ping_step<T>(
    pre: NodeInner<T>,
    post: NodeInner<T>,
    id: u128,
    addr: String,
    reply: bool,
) -> bool {
    &&& post.id == pre.id
    &&& post.addr == pre.addr
    &&& post.chain == pre.chain
    &&& post.alt_chains == pre.alt_chains
    &&& if has_peer(pre.peers@, id) {
        post.peers@ == pre.peers@ && !reply
    } else {
        post.peers@ == pre.peers@.push((id, addr)) && reply == pre.chain is Some
    }
}

/// The fork-resolution step on the chain fields: an incoming chain that
/// disagrees with the accepted one is voted on. An empty cache records it
/// with one vote; a cached equal chain has its vote count stepped, and is
/// promoted to be the accepted chain exactly when the stepped count exceeds
/// the accepted chain's agreement count, the previously accepted chain then
/// moving to the front of the cache; an unmatched chain is appended with one
/// vote.
pub open spec fn consensus_step<T>(pre: NodeInner<T>, post: NodeInner<T>, c: Chain<T>) -> bool {
    let alts = pre.alt_chains@;
    if alts.len() == 0 || find_alt(alts, c) == -1 {
        post.chain == pre.chain && post.alt_chains@ == alts.push((1u32, c))
    } else {
        let i = find_alt(alts, c);
        let nc = step_up(alts[i].0);
        match pre.chain {
            Some((count, mine)) => {
                if nc > count {
                    post.chain == Some((nc, alts[i].1)) && post.alt_chains@ == seq![(count, mine)]
                        + alts.remove(i)
                } else {
                    post.chain == pre.chain && post.alt_chains@ == alts.update(i, (nc, alts[i].1))
                }
            },
            None => false,
        }
    }
}

/// The chain part of handling a pong: with no chain yet the received one is
/// adopted with agreement count 1; a received chain equal to the accepted
/// one steps the agreement count; a divergent one goes to fork resolution.
pub open spec fn pong_chain_step<T>(pre: NodeInner<T>, post: NodeInner<T>, c: Chain<T>) -> bool {
    match pre.chain {
        None => post.chain == Some((1u32, c)) && post.alt_chains == pre.alt_chains,
        Some((count, mine)) => {
            if chain_eq_spec(mine, c) {
                post.chain == Some((step_up(count), mine)) && post.alt_chains == pre.alt_chains
            } else {
                consensus_step(pre, post, c)
            }
        },
    }
}

/// The whole state change of handling a pong: the chain part, and the
/// sender registered in the peer table when unknown.
pub open spec fn pong_step<T>(
    pre: NodeInner<T>,
    post: NodeInner<T>,
    id: u128,
    addr: String,
    c: Chain<T>,
) -> bool {
    &&& post.id == pre.id
    &&& post.addr == pre.addr
    &&& pong_chain_step(pre, post, c)
    &&& if has_peer(pre.peers@, id) {
        post.peers@ == pre.peers@
    } else {
        post.peers@ == pre.peers@.push((id, addr))
    }
}

/// The state change of a chain on one incoming transaction: it joins the
/// pending pool, and a pool that then holds more than 20 transactions is
/// mined into a block (which can leave the pool unchanged only if the
/// bounded nonce search exhausted itself).
pub open spec fn add_one_tx<T: Transactional>(
    pre: Chain<T>,
    post: Chain<T>,
    m: Transaction<T>,
) -> bool {
    let combined = pre.curr_trans@.push(m);
    if combined.len() <= 20 {
        chain_pool_only(pre, post, combined)
    } else {
        Chain::mined_step(pre, post, combined) || chain_pool_only(pre, post, combined)
    }
}

/// A chain whose blocks and parameters are unchanged and whose pool now
/// holds the given transactions.
pub open spec fn chain_pool_only<T>(pre: Chain<T>, post: Chain<T>, pool: Seq<Transaction<T>>) -> bool {
    &&& post.curr_trans@ == pool
    &&& post.chain@ == pre.chain@
    &&& post.difficulty == pre.difficulty
    &&& post.reward == pre.reward
    &&& post.miner_addr@ == pre.miner_addr@
}

/// The state change of handling a broadcast transaction: with no chain it
/// is dropped; with a chain whose pool can still grow it is integrated, and
/// the updated chain is broadcast exactly when the pool was just flushed
/// into a block; a pool at the 32-bit capacity guard leaves the state
/// unchanged.
pub open spec fn tx_step<T: Transactional>(
    pre: NodeInner<T>,
    post: NodeInner<T>,
    m: Transaction<T>,
    broadcast: bool,
) -> bool {
    &&& post.id == pre.id
    &&& post.addr == pre.addr
    &&& post.peers == pre.peers
    &&& post.alt_chains == pre.alt_chains
    &&& match pre.chain {
        None => post.chain == pre.chain && !broadcast,
        Some((count, ch)) => {
            if ch.curr_trans@.len() + 2 <= u32::MAX {
                match post.chain {
                    Some((pc, pch)) => {
                        &&& pc == count
                        &&& broadcast == (pch.curr_trans@.len() == 0)
                        &&& add_one_tx(ch, pch, m)
                    },
                    None => false,
                }
            } else {
                post.chain == pre.chain && !broadcast
            }
        },
    }
}

/// The addresses in a gossiped peer list whose ids are not yet in the peer
/// table, in order: the connections a node opens on gossip.
pub open spec fn gossip_targets(
    peers: Seq<(u128, String)>,
    entries: Seq<(u128, String)>,
) -> Seq<String>
    decreases entries.len(),
{
    if entries.len() == 0 {
        Seq::empty()
    } else {
        let rest = gossip_targets(peers, entries.drop_last());
        if has_peer(peers, entries.last().0) {
            rest
        } else {
            rest.push(entries.last().1)
        }
    }
}

/// The cache entries that survive pruning: those with more than 50 votes.
pub open spec fn retained_alts<T>(alts: Seq<(u32, Chain<T>)>) -> Seq<(u32, Chain<T>)>
    decreases alts.len(),
{
    if alts.len() == 0 {
        Seq::empty()
    } else {
        let rest = retained_alts(alts.drop_last());
        if alts.last().0 > 50 {
            rest.push(alts.last())
        } else {
            rest
        }
    }
}

impl<T: Transactional> NodeInner<T> {
    /// Well-formedness: the accepted chain and every cached chain are
    /// well-formed ledgers, and no peer is registered twice.
    pub open spec fn wf(self) -> bool {
        &&& match self.chain {
            Some((count, ch)) => ch.wf(),
            None => true,
        }
        &&& forall|i: int| 0 <= i < self.alt_chains@.len() ==> (#[trigger] self.alt_chains@[i]).1.wf()
        &&& forall|i: int, j: int|
            0 <= i < j < self.peers@.len() ==> (#[trigger] self.peers@[i]).0
                != (#[trigger] self.peers@[j]).0
    }

    /// Creates a node with the given identity and address, no peers, no
    /// chain yet, and an empty alternate-chain cache.
    pub fn new(id: u128, addr: String) -> (r: NodeInner<T>)
        ensures
            r.id == id,
            r.addr == addr,
            r.peers@.len() == 0,
            r.chain is None,
            r.alt_chains@.len() == 0,
            r.wf(),
    {
        NodeInner { id, addr, peers: Vec::new(), chain: None, alt_chains: Vec::new() }
    }

    /// Whether a peer with this id is registered.
    pub fn knows_peer(&self, id: u128) -> (r: bool)
        ensures
            r == has_peer(self.peers@, id),
    {
        let mut i: usize = 0;
        while i < self.peers.len()
            invariant
                i <= self.peers@.len(),
                forall|j: int| 0 <= j < i ==> (#[trigger] self.peers@[j]).0 != id,
            decreases self.peers@.len() - i,
        {
            if self.peers[i].0 == id {
                return true;
            }
            i = i + 1;
        }
        false
    }

    /// Handles a handshake request: registers the unknown sender and says
    /// whether to answer with a Pong. With no chain yet the handshake is
    /// deferred (registered, not answered) instead of failing.
    pub fn handle_ping(&mut self, m: (u128, String)) -> (reply: bool)
        requires
            old(self).wf(),
        ensures
            final(self).wf(),
            ping_step(*old(self), *final(self), m.0, m.1, reply),
    {
        let (id, addr) = m;
        if self.knows_peer(id) {
            false
        } else {
            self.peers.push((id, addr));
            self.chain.is_some()
        }
    }

    /// Handles a handshake response or chain announcement: adopts, agrees
    /// with, or votes on the received chain, then registers the sender if
    /// unknown.
    pub fn handle_pong(&mut self, m: (u128, String, Chain<T>)) -> (r: bool)
        requires
            old(self).wf(),
            m.2.wf(),
        ensures
            final(self).wf(),
            pong_step(*old(self), *final(self), m.0, m.1, m.2),
            r == true,
    {
        let (id, addr, chain) = m;
        let same = match &self.chain {
            None => false,
            Some(p) => p.1 == chain,
        };
        if self.chain.is_none() {
            self.chain = Some((1, chain));
        } else if same {
            let cur = self.chain.take();
            match cur {
                Some((count, mine)) => {
                    let ncnt = if count < u32::MAX {
                        count + 1
                    } else {
                        count
                    };
                    self.chain = Some((ncnt, mine));
                },
                None => {},
            }
        } else {
            self.majority_consensus(chain);
        }
        if !self.knows_peer(id) {
            self.peers.push((id, addr));
        }
        true
    }

    /// Fork resolution over the alternate-chain cache: a majority-wins
    /// heuristic over independently observed chain snapshots.
    pub fn majority_consensus(&mut self, chain: Chain<T>)
        requires
            old(self).wf(),
            old(self).chain is Some,
            chain.wf(),
        ensures
            final(self).wf(),
            consensus_step(*old(self), *final(self), chain),
            final(self).peers == old(self).peers,
            final(self).id == old(self).id,
            final(self).addr == old(self).addr,
            final(self).chain is Some,
    {
        proof {
            lemma_find_alt(self.alt_chains@, chain);
        }
        if self.alt_chains.len() == 0 {
            self.alt_chains.push((1, chain));
            return ;
        }
        let found = self.find_match(&chain);
        match found {
            None => {
                self.alt_chains.push((1, chain));
            },
            Some(i) => {
                let ghost alts0 = self.alt_chains@;
                let (cnt, cached) = self.alt_chains.remove(i);
                let ncnt = if cnt < u32::MAX {
                    cnt + 1
                } else {
                    cnt
                };
                let cur_count = match &self.chain {
                    Some(p) => p.0,
                    None => 0,
                };
                if ncnt > cur_count {
                    let prev = self.chain.take();
                    self.chain = Some((ncnt, cached));
                    match prev {
                        Some(p) => {
                            self.alt_chains.insert(0, p);
                            proof {
                                assert(self.alt_chains@ =~= seq![p] + alts0.remove(i as int));
                            }
                        },
                        None => {},
                    }
                } else {
                    self.alt_chains.insert(i, (ncnt, cached));
                    proof {
                        assert(self.alt_chains@ =~= alts0.update(i as int, (ncnt, alts0[i as int].1)));
                    }
                }
            },
        }
    }

    /// The index of the first cached entry whose chain equals the given one.
    fn find_match(&self, chain: &Chain<T>) -> (r: Option<usize>)
        ensures
            match r {
                Some(i) => i as int == find_alt(self.alt_chains@, *chain),
                None => find_alt(self.alt_chains@, *chain) == -1,
            },
    {
        proof {
            lemma_find_alt(self.alt_chains@, *chain);
        }
        let mut i: usize = 0;
        while i < self.alt_chains.len()
            invariant
                i <= self.alt_chains@.len(),
                forall|j: int|
                    0 <= j < i ==> !chain_eq_spec(#[trigger] self.alt_chains@[j].1, *chain),
            decreases self.alt_chains@.len() - i,
        {
            if self.alt_chains[i].1 == *chain {
                proof {
                    lemma_find_alt(self.alt_chains@, *chain);
                }
                return Some(i);
            }
            i = i + 1;
        }
        None
    }

    /// Handles a gossiped peer list: returns the addresses of the entries
    /// not yet in the peer table, for the surrounding process to connect to.
    pub fn handle_gossip(&self, m: Vec<(u128, String)>) -> (r: Vec<String>)
        ensures
            r@ == gossip_targets(self.peers@, m@),
    {
        let ghost entries = m@;
        let mut rem = m;
        let mut out: Vec<String> = Vec::new();
        let ghost done: Seq<(u128, String)> = Seq::empty();
        let mut processed: Ghost<Seq<(u128, String)>> = Ghost(done);
        while rem.len() > 0
            invariant
                entries == processed@ + rem@,
                out@ == gossip_targets(self.peers@, processed@),
            decreases rem@.len(),
        {
            let (id, addr) = rem.remove(0);
            let known = self.knows_peer(id);
            proof {
                assert((processed@.push((id, addr))).drop_last() =~= processed@);
            }
            if !known {
                out.push(addr);
            }
            proof {
                processed@ = processed@.push((id, addr));
                assert(entries =~= processed@ + rem@);
            }
        }
        proof {
            assert(processed@ =~= entries);
        }
        out
    }

    /// Handles a broadcast transaction: integrates it into the pool of the
    /// accepted chain, and says whether the resulting chain must be
    /// broadcast because the pool was just flushed into a new block.
    pub fn integrate_transaction(&mut self, m: Transaction<T>) -> (broadcast: bool)
        requires
            old(self).wf(),
        ensures
            final(self).wf(),
            tx_step(*old(self), *final(self), m, broadcast),
    {
        let cur = self.chain.take();
        match cur {
            None => false,
            Some((count, mut ch)) => {
                if ch.get_no_curr_trans() <= (u32::MAX - 2) as usize {
                    let mut one: Vec<Transaction<T>> = Vec::new();
                    one.push(m);
                    proof {
                        assert(ch.curr_trans@ + one@ =~= ch.curr_trans@.push(m));
                    }
                    let _ok = ch.add_transaction(&mut one);
                    let flushed = ch.get_no_curr_trans() == 0;
                    self.chain = Some((count, ch));
                    flushed
                } else {
                    self.chain = Some((count, ch));
                    false
                }
            },
        }
    }

    /// Discards every cached alternate chain whose vote count is at or
    /// below 50. The surrounding process calls this from a periodic timer.
    pub fn prune_alt_chains(&mut self)
        requires
            old(self).wf(),
        ensures
            final(self).wf(),
            final(self).alt_chains@ == retained_alts(old(self).alt_chains@),
            final(self).chain == old(self).chain,
            final(self).peers == old(self).peers,
            final(self).id == old(self).id,
            final(self).addr == old(self).addr,
    {
        let ghost alts0 = self.alt_chains@;
        let mut kept: Vec<(u32, Chain<T>)> = Vec::new();
        let ghost done: Seq<(u32, Chain<T>)> = Seq::empty();
        let mut processed: Ghost<Seq<(u32, Chain<T>)>> = Ghost(done);
        while self.alt_chains.len() > 0
            invariant
                alts0 == processed@ + self.alt_chains@,
                kept@ == retained_alts(processed@),
                forall|i: int| 0 <= i < kept@.len() ==> (#[trigger] kept@[i]).1.wf(),
                forall|i: int|
                    0 <= i < self.alt_chains@.len() ==> (#[trigger] self.alt_chains@[i]).1.wf(),
                self.chain == old(self).chain,
                self.peers == old(self).peers,
                self.id == old(self).id,
                self.addr == old(self).addr,
            decreases self.alt_chains@.len(),
        {
            let e = self.alt_chains.remove(0);
            proof {
                assert((processed@.push(e)).drop_last() =~= processed@);
            }
            if e.0 > 50 {
                kept.push(e);
            }
            proof {
                processed@ = processed@.push(e);
                assert(alts0 =~= processed@ + self.alt_chains@);
            }
        }
        proof {
            assert(processed@ =~= alts0);
        }
        self.alt_chains = kept;
    }

    /// A copy of the peer table, for the periodic gossip broadcast.
    pub fn peer_snapshot(&self) -> (r: Vec<(u128, String)>)
        ensures
            r@ == self.peers@,
    {
        let mut out: Vec<(u128, String)> = Vec::new();
        let mut i: usize = 0;
        while i < self.peers.len()
            invariant
                i <= self.peers@.len(),
                out@ == self.peers@.take(i as int),
            decreases self.peers@.len() - i,
        {
            let p = &self.peers[i];
            out.push((p.0, p.1.clone()));
            proof {
                assert(out@ =~= self.peers@.take(i + 1 as int));
            }
            i = i + 1;
        }
        proof {
            assert(self.peers@.take(self.peers@.len() as int) =~= self.peers@);
        }
        out
    }

    /// Dispatches one inbound message to its handler and returns the effect
    /// the surrounding process must perform.
    pub fn process(&mut self, msg: Messages<T>) -> (effect: NodeEffect)
        requires
            old(self).wf(),
            msg matches Messages::Pong(m) ==> m.2.wf(),
        ensures
            final(self).wf(),
            match msg {
                Messages::Ping(m) => {
                    &&& ping_step(*old(self), *final(self), m.0, m.1, effect is ReplyPong)
                    &&& (effect is ReplyPong || effect is Quiet)
                },
                Messages::Pong(m) => {
                    &&& pong_step(*old(self), *final(self), m.0, m.1, m.2)
                    &&& effect is Quiet
                },
                Messages::PeerList(m) => {
                    &&& *final(self) == *old(self)
                    &&& match effect {
                        NodeEffect::Connect(v) => v@ == gossip_targets(old(self).peers@, m@),
                        _ => false,
                    }
                },
                Messages::Transaction(m) => tx_step(
                    *old(self),
                    *final(self),
                    m,
                    effect is BroadcastPong,
                ),
            },
    {
        match msg {
            Messages::Ping(m) => {
                if self.handle_ping(m) {
                    NodeEffect::ReplyPong
                } else {
                    NodeEffect::Quiet
                }
            },
            Messages::Pong(m) => {
                let _ = self.handle_pong(m);
                NodeEffect::Quiet
            },
            Messages::PeerList(m) => NodeEffect::Connect(self.handle_gossip(m)),
            Messages::Transaction(m) => {
                if self.integrate_transaction(m) {
                    NodeEffect::BroadcastPong
                } else {
                    NodeEffect::Quiet
                }
            },
        }
    }
}

} // verus!
