use blockchain::ledger::{new_blockchain, Block, Blockchain, Transaction, GENESIS_PREVIOUS_HASH, GENESIS_PROOF};
use blockchain::pow::{digest_meets_target, puzzle_digest, write_u64_be};
use blockchain::clock::Timestamp;
use blockchain::coordinator::Coordinator;
use sha2::Digest;
use std::hash::BuildHasher;

fn tx(sender: &str, recipient: &str, amount: i64) -> Transaction {
    Transaction { sender: sender.to_owned(), recipient: recipient.to_owned(), amount: amount }
}

fn mine_by_search(bc: &mut Blockchain) {
    let proof = Blockchain::proof_of_work(bc.last_block().proof).unwrap();
    bc.new_block(proof, None);
}

#[test]
fn it_works() {
    let mut bc = new_blockchain();
    assert_eq!(bc.chain().len(), 1);

    // new block
    bc.new_transaction(Transaction {
        sender: "me".to_owned(),
        recipient: "you".to_owned(),
        amount: 5,
    });
    bc.new_transaction(Transaction {
        sender: "you".to_owned(),
        recipient: "me".to_owned(),
        amount: 2,
    });
    assert_eq!(bc.current_transactions().len(), 2);

    let proof = Blockchain::proof_of_work(bc.last_block().proof).unwrap();
    bc.new_block(proof, None);
    assert_eq!(bc.chain().len(), 2);
}

#[test]
fn genesis_block_is_seeded() {
    let bc = new_blockchain();
    assert_eq!(bc.chain().len(), 1);
    let g = &bc.chain()[0];
    assert_eq!(g.index, 1);
    assert!(g.transactions.is_empty());
    assert_eq!(g.proof, 100);
    assert_eq!(g.previous_hash, 1);
    assert_eq!(GENESIS_PROOF, 100);
    assert_eq!(GENESIS_PREVIOUS_HASH, 1);
    assert!(bc.current_transactions().is_empty());
}

#[test]
fn submitted_transactions_are_sealed_in_order() {
    let mut bc = new_blockchain();
    assert_eq!(bc.new_transaction(tx("a", "b", 1)), 2);
    assert_eq!(bc.new_transaction(tx("b", "c", -3)), 2);
    assert_eq!(bc.new_transaction(tx("c", "a", 7)), 2);
    assert!(bc.mine());
    assert!(bc.current_transactions().is_empty());
    let last = bc.last_block();
    assert_eq!(last.index, 2);
    let got: Vec<(String, String, i64)> = last
        .transactions
        .iter()
        .map(|t| (t.sender.clone(), t.recipient.clone(), t.amount))
        .collect();
    assert_eq!(
        got,
        vec![
            ("a".to_owned(), "b".to_owned(), 1),
            ("b".to_owned(), "c".to_owned(), -3),
            ("c".to_owned(), "a".to_owned(), 7),
        ]
    );
    assert_eq!(bc.new_transaction(tx("x", "y", 0)), 3);
}

#[test]
fn blocks_link_to_their_predecessor() {
    let mut bc = new_blockchain();
    bc.new_transaction(tx("me", "you", 1));
    assert!(bc.mine());
    assert!(bc.mine());
    mine_by_search(&mut bc);
    let chain = bc.chain();
    assert_eq!(chain.len(), 4);
    for i in 1..chain.len() {
        assert_eq!(chain[i].previous_hash, Blockchain::hash(&chain[i - 1]));
        assert_eq!(chain[i].index, i + 1);
    }
}

#[test]
fn proof_of_work_finds_least_valid_proof() {
    for last in [0u64, 1, 100, 35293, u64::MAX] {
        let p = Blockchain::proof_of_work(last).unwrap();
        assert!(Blockchain::valid_proof(last, p));
        let d = puzzle_digest(last, p);
        assert_eq!(&d[..2], b"00");
        for q in p.saturating_sub(50)..p {
            assert!(!Blockchain::valid_proof(last, q));
        }
    }
}

#[test]
fn valid_proof_is_deterministic() {
    let p = Blockchain::proof_of_work(100).unwrap();
    assert_eq!(Blockchain::valid_proof(100, p), Blockchain::valid_proof(100, p));
    assert!(Blockchain::valid_proof(100, p));
    assert_eq!(Blockchain::valid_proof(100, 0), Blockchain::valid_proof(100, 0));
}

#[test]
fn mining_an_empty_pool_still_seals_a_block() {
    let mut bc = new_blockchain();
    let before = Blockchain::hash(bc.last_block());
    assert!(bc.mine());
    assert_eq!(bc.chain().len(), 2);
    let last = bc.last_block();
    assert!(last.transactions.is_empty());
    assert_eq!(last.previous_hash, before);
    assert!(Blockchain::valid_proof(100, last.proof));
}

#[test]
fn two_transactions_then_mine() {
    let mut bc = new_blockchain();
    bc.new_transaction(tx("me", "you", 5));
    bc.new_transaction(tx("you", "me", 2));
    assert_eq!(bc.current_transactions().len(), 2);
    assert!(bc.mine());
    assert_eq!(bc.chain().len(), 2);
    let b = &bc.chain()[1];
    assert_eq!(b.transactions.len(), 2);
    assert_eq!(b.transactions[0].sender, "me");
    assert_eq!(b.transactions[0].recipient, "you");
    assert_eq!(b.transactions[0].amount, 5);
    assert_eq!(b.transactions[1].sender, "you");
    assert_eq!(b.transactions[1].recipient, "me");
    assert_eq!(b.transactions[1].amount, 2);
    assert!(bc.current_transactions().is_empty());
}

#[test]
fn big_endian_encoding() {
    let mut out = vec![9u8];
    write_u64_be(&mut out, 0x0102030405060708);
    assert_eq!(out, vec![9, 1, 2, 3, 4, 5, 6, 7, 8]);
}

#[test]
fn puzzle_digest_is_sha256_of_both_proofs() {
    let d = puzzle_digest(100, 0x0102);
    let mut input = vec![0u8, 0, 0, 0, 0, 0, 0, 100];
    input.extend_from_slice(&[0, 0, 0, 0, 0, 0, 1, 2]);
    let expected = sha2::Sha256::digest(&input).to_vec();
    assert_eq!(d.len(), 32);
    assert_eq!(d, expected);
    assert_ne!(d, input);
}

#[test]
fn target_is_two_ascii_zeros() {
    assert!(digest_meets_target(b"00abc"));
    assert!(digest_meets_target(b"00"));
    assert!(!digest_meets_target(&[0u8, 0]));
    assert!(!digest_meets_target(b"0"));
    assert!(!digest_meets_target(b""));
    assert!(!digest_meets_target(b"01"));
}

#[test]
fn fingerprint_is_std_default_hash() {
    let b = Block {
        index: 3,
        timestamp: Timestamp { seconds: 1_500_000_000, nanos: 7 },
        transactions: vec![tx("me", "you", 5)],
        proof: 42,
        previous_hash: 9,
    };
    let expected = std::hash::BuildHasherDefault::<std::collections::hash_map::DefaultHasher>::default()
        .hash_one(&b);
    assert_eq!(Blockchain::hash(&b), expected);
    assert_eq!(Blockchain::hash(&b), Blockchain::hash(&b));
    let c = Block { proof: 43, ..b };
    assert_ne!(Blockchain::hash(&c), expected);
}

#[test]
fn coordinator_mines_and_links() {
    let c = Coordinator::new();
    assert_eq!(c.last_proof(), 100);
    let (index, pool) = c.submit_transaction(tx("me", "you", 5));
    assert_eq!(index, 2);
    assert_eq!(pool.len(), 1);
    let (index, pool) = c.submit_transaction(tx("you", "me", 2));
    assert_eq!(index, 2);
    assert_eq!(pool.len(), 2);
    assert_eq!(pool[1].sender, "you");
    let b = c.mine().expect("mining seals a block");
    assert_eq!(b.index, 2);
    assert_eq!(b.transactions.len(), 2);
    assert!(Blockchain::valid_proof(100, b.proof));
    let sealed = c.seal(7).unwrap();
    assert_eq!(sealed.index, 3);
    assert_eq!(sealed.proof, 7);
    assert!(sealed.transactions.is_empty());
    let chain = c.inspect_chain();
    assert_eq!(chain.len(), 3);
    assert_eq!(chain[0].previous_hash, 1);
    for i in 1..chain.len() {
        assert_eq!(chain[i].previous_hash, Blockchain::hash(&chain[i - 1]));
    }
    assert_eq!(c.last_proof(), 7);
}

#[test]
fn duplicate_keeps_every_field() {
    let b = Block {
        index: 2,
        timestamp: Timestamp { seconds: 5, nanos: 6 },
        transactions: vec![tx("a", "b", 3), tx("c", "d", -4)],
        proof: 11,
        previous_hash: 12,
    };
    let d = b.duplicate();
    assert_eq!(Blockchain::hash(&d), Blockchain::hash(&b));
    assert_eq!(d.transactions[1].recipient, "d");
    assert_eq!(d.timestamp, b.timestamp);
}


#[test]
fn try_seal_links_and_returns_the_new_block() {
    let mut bc = new_blockchain();
    bc.new_transaction(tx("me", "you", 5));
    let genesis_hash = Blockchain::hash(bc.last_block());
    let b = bc.try_seal(42).expect("a short chain has room");
    assert_eq!(b.index, 2);
    assert_eq!(b.proof, 42);
    assert_eq!(b.previous_hash, genesis_hash);
    assert_eq!(b.transactions.len(), 1);
    assert_eq!(b.transactions[0].recipient, "you");
    assert_eq!(Blockchain::hash(&b), Blockchain::hash(bc.last_block()));
    assert_eq!(bc.chain().len(), 2);
    assert!(bc.current_transactions().is_empty());
}

#[test]
fn coordinator_chain_starts_at_genesis() {
    let c = Coordinator::new();
    let b = c.mine().expect("mining seals a block");
    assert_eq!(b.index, 2);
    assert!(b.transactions.is_empty());
    let chain = c.inspect_chain();
    assert_eq!(chain.len(), 2);
    assert_eq!(chain[0].index, 1);
    assert_eq!(chain[0].proof, 100);
    assert_eq!(chain[0].previous_hash, 1);
    assert!(chain[0].transactions.is_empty());
    assert_eq!(chain[1].previous_hash, Blockchain::hash(&chain[0]));
}
