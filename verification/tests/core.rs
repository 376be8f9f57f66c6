use blockchain::block::BlockHeader;
use blockchain::chain::Chain;
use blockchain::hash::{hash, hex_to_string};
use blockchain::merkle::get_merkle;
use blockchain::transaction::{CodePayload, CryptoPayload, Transactional, VotePayload};

#[test]
fn hex_rendering_is_not_padded() {
    let bytes: [u8; 4] = [0, 15, 16, 255];
    assert_eq!(hex_to_string(&bytes), "0f10ff");
    assert_eq!(hex_to_string(&[]), "");
}

#[test]
fn hash_known_value() {
    // SHA3-512 of "abc", each digest byte rendered without zero padding.
    let expected = "b75185b1a57168a5693cd924b6b96e8f621827444f7d884f5d240d2712e10e116e9192af3c91a7ec57647e393405734b4cf48d5a56592f8274eec53f0";
    assert_eq!(hash("abc"), expected);
}

#[test]
fn hash_is_deterministic_and_separating() {
    let a1 = hash("abc");
    let a2 = hash("abc");
    let b = hash("abd");
    assert_eq!(a1, a2);
    assert_ne!(a1, b);
    assert!(a1.len() >= 64 && a1.len() <= 128);
}

#[test]
fn merkle_is_deterministic_and_order_sensitive() {
    let t1 = CryptoPayload::new(
        String::from("alice"),
        CryptoPayload { receiver: String::from("bob"), amount: 1 },
    );
    let t2 = CryptoPayload::new(
        String::from("bob"),
        CryptoPayload { receiver: String::from("carol"), amount: 2 },
    );
    let r1 = get_merkle(vec![t1.clone(), t2.clone()]);
    let r2 = get_merkle(vec![t1.clone(), t2.clone()]);
    let r3 = get_merkle(vec![t2, t1]);
    assert_eq!(r1, r2);
    assert_ne!(r1, r3);
}

#[test]
fn merkle_single_doubles_the_hash() {
    let t = CryptoPayload::new(
        String::from("alice"),
        CryptoPayload { receiver: String::from("bob"), amount: 1 },
    );
    let h = hash(&t.canon());
    let doubled = format!("{}{}", h, h);
    assert_eq!(get_merkle(vec![t]), hash(&doubled));
}

#[test]
fn new_chain_mints_genesis_block() {
    let chain: Chain<CryptoPayload> = Chain::new(String::from("addr"), 0);
    assert_eq!(chain.chain.len(), 1);
    let genesis = &chain.chain[0];
    assert_eq!(genesis.transactions.len(), 1);
    assert_eq!(genesis.transactions[0].sender, "Root");
    assert_eq!(genesis.transactions[0].payload.receiver, "addr");
    assert_eq!(genesis.transactions[0].payload.amount, 100);
    assert_eq!(genesis.header.pre_hash, "0".repeat(64));
    assert_eq!(chain.reward, 100);
    assert_eq!(chain.get_no_curr_trans(), 0);
}

#[test]
fn twenty_one_transactions_trigger_one_block() {
    let mut chain: Chain<CryptoPayload> = Chain::new(String::from("addr"), 0);
    let mut batch = Vec::new();
    for i in 0..21u32 {
        batch.push(CryptoPayload::new(
            format!("sender{}", i),
            CryptoPayload { receiver: String::from("addr"), amount: i },
        ));
    }
    assert!(chain.add_transaction(&mut batch));
    assert!(batch.is_empty());
    assert_eq!(chain.chain.len(), 2);
    assert_eq!(chain.chain[1].transactions.len(), 22);
    assert_eq!(chain.chain[1].count, 22);
    assert_eq!(chain.get_no_curr_trans(), 0);
}

#[test]
fn below_threshold_transactions_stay_pending() {
    let mut chain: Chain<CryptoPayload> = Chain::new(String::from("addr"), 0);
    let mut batch = vec![CryptoPayload::new(
        String::from("alice"),
        CryptoPayload { receiver: String::from("bob"), amount: 3 },
    )];
    assert!(chain.add_transaction(&mut batch));
    assert_eq!(chain.chain.len(), 1);
    assert_eq!(chain.get_no_curr_trans(), 1);
}

#[test]
fn proof_of_work_halts_immediately_at_difficulty_zero() {
    let chain: Chain<CryptoPayload> = Chain::new(String::from("addr"), 0);
    let mut header = chain.chain[0].header.clone();
    let nonce_before = header.nonce;
    assert!(Chain::<CryptoPayload>::proof_of_work(&mut header));
    assert_eq!(header.nonce, nonce_before);
}

#[test]
fn proof_of_work_finds_a_low_difficulty_nonce() {
    let chain: Chain<CryptoPayload> = Chain::new(String::from("addr"), 1);
    assert_eq!(chain.chain.len(), 1);
    let header = &chain.chain[0].header;
    let h = hash(&header.canon());
    assert!(h.starts_with('0'));
}

#[test]
fn update_difficulty_and_reward() {
    let mut chain: Chain<CryptoPayload> = Chain::new(String::from("addr"), 0);
    assert!(chain.update_difficulty(5));
    assert_eq!(chain.difficulty, 5);
    assert!(chain.update_reward(7));
    assert_eq!(chain.reward, 7);
}

#[test]
fn identical_block_sequences_compare_equal() {
    // Chains are compared over the full block sequence; a first-block-only
    // comparison would call two chains equal as soon as they share a
    // genesis block, however much their histories diverge afterwards.
    let chain: Chain<CryptoPayload> = Chain::new(String::from("addr"), 0);
    let copy = chain.clone();
    assert!(chain.eq(&copy));

    let mut longer = chain.clone();
    let mut batch = Vec::new();
    for i in 0..21u32 {
        batch.push(CryptoPayload::new(
            format!("s{}", i),
            CryptoPayload { receiver: String::from("addr"), amount: i },
        ));
    }
    longer.add_transaction(&mut batch);
    assert_eq!(longer.chain.len(), 2);
    // Same genesis block, diverged history: unequal under full-sequence
    // comparison even though a first-block-only rule would accept it.
    assert!(chain.chain[0].eq(&longer.chain[0]));
    assert!(!chain.eq(&longer));
}

#[test]
fn last_hash_of_empty_ledger_is_the_zero_sentinel() {
    let chain: Chain<CryptoPayload> = Chain::new(String::from("addr"), 0);
    let mut empty = chain.clone();
    empty.chain.clear();
    assert_eq!(empty.last_hash(), "0".repeat(64));
    assert_eq!(chain.last_hash(), hash(&chain.chain[0].header.canon()));
}

#[test]
fn chain_fmt_mentions_miner_and_difficulty() {
    let chain: Chain<CryptoPayload> = Chain::new(String::from("addr"), 0);
    let rendered = chain.fmt();
    assert!(rendered.starts_with("Chain [\n"));
    assert!(rendered.contains("    Miner address: addr\n"));
    assert!(rendered.contains("    Difficulty:    0\n"));
    assert!(rendered.ends_with("]\n"));
}

#[test]
fn well_formedness_check_accepts_mined_chains() {
    let chain: Chain<CryptoPayload> = Chain::new(String::from("addr"), 0);
    assert!(chain.is_well_formed());
    let mut broken = chain.clone();
    broken.chain[0].count = 5;
    assert!(!broken.is_well_formed());
}

#[test]
fn canonical_forms_are_exact() {
    let header = BlockHeader {
        timestamp: 0,
        pre_hash: String::from("00x"),
        nonce: 24,
        merkle: String::from("x"),
        difficulty: 2,
    };
    assert_eq!(header.canon(), "header{0;24;3:00x;1:x;2}");

    let tx = CryptoPayload::new(
        String::from("alice"),
        CryptoPayload { receiver: String::from("bob"), amount: 7 },
    );
    assert_eq!(tx.canon(), "tx{5:alice;crypto{3:bob;7}}");
}

#[test]
fn genesis_transactions_of_every_payload_kind() {
    let c = CryptoPayload::genesis(String::from("miner"), 42);
    assert_eq!(c.sender, "Root");
    assert_eq!(c.payload.receiver, "miner");
    assert_eq!(c.payload.amount, 42);

    let v = VotePayload::genesis(String::from("miner"), 42);
    assert_eq!(v.sender, "Root");
    assert_eq!(v.payload.vote, "Root");

    let k = CodePayload::genesis(String::from("miner"), 42);
    assert_eq!(k.sender, "Root");
    assert_eq!(k.payload.file_name, "Readme.md");
    assert_eq!(k.payload.contents, "");
    assert_eq!(k.payload.commit_message, "Initialize Repository");
    assert_eq!(k.payload.canon(), "code{9:Readme.md;0:;21:Initialize Repository}");
}

#[test]
fn transaction_fmt_shows_sender_and_payload() {
    let tx = CryptoPayload::new(
        String::from("alice"),
        CryptoPayload { receiver: String::from("bob"), amount: 7 },
    );
    let rendered = tx.fmt();
    assert!(rendered.contains("Sender:   alice"));
    assert!(rendered.contains("crypto{3:bob;7}"));
}
