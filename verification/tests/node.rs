use blockchain::chain::Chain;
use blockchain::codec::MessagesCodec;
use blockchain::messages::Messages;
use blockchain::node::{NodeEffect, NodeInner};
use blockchain::transaction::{CryptoPayload, Transactional};

fn chain_for(miner: &str) -> Chain<CryptoPayload> {
    Chain::new(String::from(miner), 0)
}

#[test]
fn ping_registers_and_replies_when_a_chain_exists() {
    let mut node: NodeInner<CryptoPayload> = NodeInner::new(2, String::from("127.0.0.1:4002"));
    node.chain = Some((1, chain_for("m2")));
    let reply = node.handle_ping((1, String::from("127.0.0.1:4001")));
    assert!(reply);
    assert!(node.knows_peer(1));
    // A known peer is a no-op.
    let again = node.handle_ping((1, String::from("127.0.0.1:4001")));
    assert!(!again);
    assert_eq!(node.peers.len(), 1);
}

#[test]
fn ping_before_a_chain_exists_defers_the_handshake() {
    let mut node: NodeInner<CryptoPayload> = NodeInner::new(2, String::from("127.0.0.1:4002"));
    let reply = node.handle_ping((1, String::from("127.0.0.1:4001")));
    assert!(!reply);
    assert!(node.knows_peer(1));
}

#[test]
fn ping_pong_handshake_adopts_and_then_agrees() {
    // Node 1 pings node 2; node 2 registers node 1 and replies with its
    // chain; node 1 adopts it with agreement count 1, and an identical
    // pong raises the count to 2.
    let mut node1: NodeInner<CryptoPayload> = NodeInner::new(1, String::from("127.0.0.1:4001"));
    let mut node2: NodeInner<CryptoPayload> = NodeInner::new(2, String::from("127.0.0.1:4002"));
    let chain2 = chain_for("m2");
    node2.chain = Some((1, chain2.clone()));

    let effect = node2.process(Messages::Ping((1, String::from("127.0.0.1:4001"))));
    assert!(matches!(effect, NodeEffect::ReplyPong));
    assert!(node2.knows_peer(1));

    node1.handle_pong((2, String::from("127.0.0.1:4002"), chain2.clone()));
    assert!(node1.knows_peer(2));
    let (count, ref adopted) = *node1.chain.as_ref().unwrap();
    assert_eq!(count, 1);
    assert!(adopted.eq(&chain2));

    node1.handle_pong((2, String::from("127.0.0.1:4002"), chain2.clone()));
    assert_eq!(node1.chain.as_ref().unwrap().0, 2);
}

#[test]
fn fork_resolution_promotes_a_majority_chain() {
    let mut node: NodeInner<CryptoPayload> = NodeInner::new(1, String::from("127.0.0.1:4001"));
    let chain_a = chain_for("miner-a");
    let chain_b = chain_for("miner-b");
    assert!(!chain_a.eq(&chain_b));
    node.chain = Some((2, chain_a.clone()));

    // First divergent pong: B enters the cache with one vote.
    node.handle_pong((2, String::from("127.0.0.1:4002"), chain_b.clone()));
    assert!(node.chain.as_ref().unwrap().1.eq(&chain_a));
    assert_eq!(node.alt_chains.len(), 1);
    assert_eq!(node.alt_chains[0].0, 1);

    // Second: B's vote count steps to 2, which does not exceed A's
    // agreement count of 2, so A stays accepted.
    node.handle_pong((2, String::from("127.0.0.1:4002"), chain_b.clone()));
    assert!(node.chain.as_ref().unwrap().1.eq(&chain_a));
    assert_eq!(node.alt_chains[0].0, 2);

    // Third: B's vote count (3) exceeds A's (2); B is promoted and A is
    // pushed to the front of the cache.
    node.handle_pong((2, String::from("127.0.0.1:4002"), chain_b.clone()));
    let (count, ref accepted) = *node.chain.as_ref().unwrap();
    assert_eq!(count, 3);
    assert!(accepted.eq(&chain_b));
    assert_eq!(node.alt_chains.len(), 1);
    assert_eq!(node.alt_chains[0].0, 2);
    assert!(node.alt_chains[0].1.eq(&chain_a));
}

#[test]
fn unmatched_chains_join_the_cache_with_one_vote() {
    let mut node: NodeInner<CryptoPayload> = NodeInner::new(1, String::from("127.0.0.1:4001"));
    node.chain = Some((1, chain_for("miner-a")));
    node.majority_consensus(chain_for("miner-b"));
    node.majority_consensus(chain_for("miner-c"));
    assert_eq!(node.alt_chains.len(), 2);
    assert_eq!(node.alt_chains[0].0, 1);
    assert_eq!(node.alt_chains[1].0, 1);
}

#[test]
fn gossip_connects_only_to_unknown_peers() {
    let mut node: NodeInner<CryptoPayload> = NodeInner::new(1, String::from("127.0.0.1:4001"));
    node.handle_ping((2, String::from("127.0.0.1:4002")));
    let effect = node.process(Messages::PeerList(vec![
        (2, String::from("127.0.0.1:4002")),
        (3, String::from("127.0.0.1:4003")),
    ]));
    match effect {
        NodeEffect::Connect(addrs) => assert_eq!(addrs, vec![String::from("127.0.0.1:4003")]),
        _ => panic!("gossip must ask for connections"),
    }
}

#[test]
fn a_flushing_transaction_is_broadcast() {
    let mut node: NodeInner<CryptoPayload> = NodeInner::new(1, String::from("127.0.0.1:4001"));
    let tx = CryptoPayload::new(
        String::from("alice"),
        CryptoPayload { receiver: String::from("bob"), amount: 1 },
    );
    // Without a chain the transaction is dropped.
    assert!(!node.integrate_transaction(tx.clone()));

    let mut chain = chain_for("m1");
    for i in 0..20u32 {
        let mut batch = vec![CryptoPayload::new(
            format!("s{}", i),
            CryptoPayload { receiver: String::from("m1"), amount: i },
        )];
        chain.add_transaction(&mut batch);
    }
    assert_eq!(chain.get_no_curr_trans(), 20);
    node.chain = Some((1, chain));

    // The 21st transaction tips the pool over the threshold: a block is
    // mined and the updated chain must be broadcast.
    let effect = node.process(Messages::Transaction(tx));
    assert!(matches!(effect, NodeEffect::BroadcastPong));
    let accepted = &node.chain.as_ref().unwrap().1;
    assert_eq!(accepted.chain.len(), 2);
    assert_eq!(accepted.get_no_curr_trans(), 0);
}

#[test]
fn pruning_discards_low_vote_chains() {
    let mut node: NodeInner<CryptoPayload> = NodeInner::new(1, String::from("127.0.0.1:4001"));
    node.alt_chains.push((50, chain_for("a")));
    node.alt_chains.push((51, chain_for("b")));
    node.alt_chains.push((1, chain_for("c")));
    node.prune_alt_chains();
    assert_eq!(node.alt_chains.len(), 1);
    assert_eq!(node.alt_chains[0].0, 51);
}

#[test]
fn peer_snapshot_copies_the_table() {
    let mut node: NodeInner<CryptoPayload> = NodeInner::new(1, String::from("127.0.0.1:4001"));
    node.handle_ping((2, String::from("127.0.0.1:4002")));
    node.handle_ping((3, String::from("127.0.0.1:4003")));
    let snapshot = node.peer_snapshot();
    assert_eq!(snapshot, vec![
        (2, String::from("127.0.0.1:4002")),
        (3, String::from("127.0.0.1:4003")),
    ]);
}

#[test]
fn codec_frames_are_newline_delimited() {
    let mut codec: MessagesCodec<CryptoPayload> = MessagesCodec::new();
    assert_eq!(codec.next_index, 0);

    let mut buf: Vec<u8> = Vec::new();
    // No newline yet: the decoder waits for more bytes.
    buf.extend_from_slice(b"partial");
    assert_eq!(codec.decode(&mut buf), None);
    assert_eq!(buf, b"partial");

    buf.clear();
    let msg = b"{\"kind\":\"ping\"}".to_vec();
    codec.encode(&msg, &mut buf);
    buf.extend_from_slice(b"tail");
    let line = codec.decode(&mut buf).expect("a full frame is buffered");
    assert_eq!(line, msg);
    assert_eq!(buf, b"tail");
}
