use blockchain::block::{Block, BlockHeader};
use blockchain::transaction::{CryptoPayload, Transactional};

#[test]
fn block_header_eq() {
    let block_header_1 = BlockHeader {
        timestamp: 0,
        pre_hash: String::from("00xxxxxxxxxxxxxxxxxx"),
        nonce: 24,
        merkle: String::from("xxxxxxxxxxxxxxxxxxxx"),
        difficulty: 2,
    };

    let block_header_2 = BlockHeader {
        timestamp: 1,
        pre_hash: String::from("00yyyyyyyyyyyyyyyyyy"),
        nonce: 42,
        merkle: String::from("yyyyyyyyyyyyyyyyyyyy"),
        difficulty: 2,
    };

    assert_eq!(block_header_1.eq(&block_header_2), false);
    assert_eq!(block_header_1.eq(&block_header_1), true);
}

#[test]
fn block_eq() {
    let block_header_1 = BlockHeader {
        timestamp: 0,
        pre_hash: String::from("00xxxxxxxxxxxxxxxxxx"),
        nonce: 24,
        merkle: String::from("xxxxxxxxxxxxxxxxxxxx"),
        difficulty: 2,
    };

    let block_header_2 = BlockHeader {
        timestamp: 1,
        pre_hash: String::from("00yyyyyyyyyyyyyyyyyy"),
        nonce: 42,
        merkle: String::from("yyyyyyyyyyyyyyyyyyyy"),
        difficulty: 2,
    };

    let block_1: Block<CryptoPayload> = Block { header: block_header_1, count: 0, transactions: vec![] };

    let block_2: Block<CryptoPayload> = Block { header: block_header_2, count: 0, transactions: vec![] };

    assert_eq!(block_1.eq(&block_2), false);
    assert_eq!(block_1.eq(&block_1), true);
}

#[test]
fn new_block() {
    let hash = String::from("00xxxxxxxxxxxxxxxxxx");
    let difficulty = 2;
    let miner_addr = String::from("Schwurbel");
    let reward = 42;

    let crypto_payload = CryptoPayload { receiver: String::from("Peter"), amount: 42 };
    let mut transaction = vec![CryptoPayload::new(miner_addr.clone(), crypto_payload)];

    let block: Block<CryptoPayload> = Block::new(hash, difficulty, miner_addr, reward, &mut transaction);

    assert_eq!(block.count, 2);
    assert_eq!(block.transactions.len(), 2);
}

#[test]
fn new_block_reward_comes_first() {
    let mut pending = vec![CryptoPayload::new(
        String::from("alice"),
        CryptoPayload { receiver: String::from("bob"), amount: 7 },
    )];
    let block: Block<CryptoPayload> = Block::new(
        String::from("00xxxxxxxxxxxxxxxxxx"),
        1,
        String::from("miner"),
        42,
        &mut pending,
    );
    assert!(pending.is_empty());
    assert_eq!(block.transactions[0].sender, "Root");
    assert_eq!(block.transactions[0].payload.receiver, "miner");
    assert_eq!(block.transactions[0].payload.amount, 42);
    assert_eq!(block.transactions[1].sender, "alice");
    assert_eq!(block.header.nonce, 0);
    assert_eq!(block.header.pre_hash, "00xxxxxxxxxxxxxxxxxx");
    assert_eq!(block.header.difficulty, 1);
}

#[test]
fn header_fmt_exact() {
    let header = BlockHeader {
        timestamp: -3,
        pre_hash: String::from("00x"),
        nonce: 24,
        merkle: String::from("x"),
        difficulty: 2,
    };
    let expected = "        BlockHeader: [\n            Timestamp:     -3\n            Nonce:         24\n            Previous Hash: 00x\n            Merkle:        x\n            Difficulty:    2\n        ]\n";
    assert_eq!(header.fmt(), expected);
}
