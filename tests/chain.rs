use blockchain::block::{Block, TARGET_HEXS};
use blockchain::blockchain::{block_records, head_from_stored, walk_step, Blockchain};
use blockchain::error::BlockchainError;
use blockchain::hashing::{digest_meets_target, hex_encode};
use blockchain::transaction::{str_eq, TXInput, TXOutput, Transaction, SUBSIDY};
use blockchain::utxo::{balance_of, find_unspent_outputs, select_inputs};

/// A store path of its own for each run of each test.
fn fresh_path(name: &str) -> String {
    let nanos = std::time::SystemTime::now()
        .duration_since(std::time::UNIX_EPOCH)
        .unwrap()
        .as_nanos();
    format!("/tmp/blockchain_crate_tests/{}_{}", name, nanos)
}

/// Opens the chain at `path`; a store that was just closed may still be held
/// for a moment, so storage failures are retried for a while.
fn reopen(path: &str) -> Result<Blockchain, BlockchainError> {
    let start = std::time::Instant::now();
    loop {
        match Blockchain::new(path) {
            Err(BlockchainError::Storage) if start.elapsed() < std::time::Duration::from_secs(10) => {}
            r => return r,
        }
    }
}

fn coinbase(to: &str) -> Transaction {
    Transaction::new_coinbase(to.to_string(), "genesis".to_string()).unwrap()
}

fn spend_alice(cb: &Transaction) -> Transaction {
    let vin = vec![TXInput { txid: cb.id.clone(), vout: 0, script_sig: "Alice".to_string() }];
    let vout = vec![
        TXOutput { value: 4, script_pub_key: "Bob".to_string() },
        TXOutput { value: 6, script_pub_key: "Alice".to_string() },
    ];
    Transaction::new(vin, vout).unwrap()
}

/// Blocks head first: genesis crediting Alice, then a block moving 4 to Bob.
fn alice_bob_chain() -> (Vec<Block>, Transaction, Transaction) {
    let cb = coinbase("Alice");
    let genesis = Block::new_genesis_block_at(cb.clone(), 1).unwrap();
    let tx = spend_alice(&cb);
    let next = Block::successor_at(&genesis, vec![tx.clone()], 2).unwrap();
    (vec![next, genesis], cb, tx)
}

#[test]
fn test_add_block() {
    let path = fresh_path("add_block");
    {
        let mut bc = Blockchain::creat_blockchain(&path, "Alice".to_string()).unwrap();
        bc.add_block(vec![]).unwrap();
    }
    let b = reopen(&path).unwrap();
    let mut n = 0;
    let mut it = b.iter();
    while let Some(item) = it.next() {
        println!("item {:?}", item);
        n += 1;
    }
    assert_eq!(n, 2);
}

#[test]
fn hex_encode_exact() {
    assert_eq!(hex_encode(&[0x00, 0x0f, 0xa5, 0xff]), "000fa5ff");
    assert_eq!(hex_encode(&[]), "");
}

#[test]
fn digest_target_counts_nibbles() {
    assert!(digest_meets_target(&[0x00, 0x0f], 3));
    assert!(!digest_meets_target(&[0x00, 0x0f], 4));
    assert!(digest_meets_target(&[0x12], 0));
    assert!(!digest_meets_target(&[0x00], 3));
}

#[test]
fn string_equality() {
    assert!(str_eq("Alice", "Alice"));
    assert!(!str_eq("Alice", "Alicf"));
    assert!(!str_eq("Alice", "Ali"));
}

#[test]
fn coinbase_shape() {
    let cb = coinbase("Alice");
    assert!(cb.is_coinbase());
    assert_eq!(cb.vout.len(), 1);
    assert_eq!(cb.vout[0].value, SUBSIDY);
    assert_eq!(cb.vout[0].script_pub_key, "Alice");
    assert_eq!(cb.id.len(), 64);
    let other = coinbase("Bob");
    assert_ne!(cb.id, other.id);
    assert!(!spend_alice(&cb).is_coinbase());
}

#[test]
fn mining_is_deterministic_and_validates() {
    let cb = coinbase("Alice");
    let a = Block::new_at(vec![cb.clone()], "prev".to_string(), 3, 77).unwrap();
    let b = Block::new_at(vec![cb], "prev".to_string(), 3, 77).unwrap();
    assert_eq!(a.hash, b.hash);
    assert_eq!(a.nonce, b.nonce);
    assert_eq!(a.validate(), Ok(true));
    if a.nonce > 0 {
        let mut earlier = a.clone();
        earlier.nonce = 0;
        assert_eq!(earlier.validate(), Ok(false));
    }
}

#[test]
fn mined_hash_meets_target() {
    let b = Block::new_at(vec![coinbase("Carol")], String::new(), 0, 5).unwrap();
    assert!(b.hash.len() == 64);
    assert!(b.hash[..TARGET_HEXS].chars().all(|c| c == '0'));
}

#[test]
fn genesis_invariants() {
    let g = Block::new_genesis_block(coinbase("Alice")).unwrap();
    assert_eq!(g.height, 0);
    assert_eq!(g.prev_block_hash, "");
    assert_eq!(g.transactions.len(), 1);
}

#[test]
fn successor_links_to_head() {
    let g = Block::new_genesis_block_at(coinbase("Alice"), 10).unwrap();
    let s = Block::successor_at(&g, vec![], 11).unwrap();
    assert_eq!(s.height, 1);
    assert_eq!(s.prev_block_hash, g.hash);
    assert_eq!(s.validate(), Ok(true));
}

#[test]
fn successor_of_highest_block_fails() {
    let mut g = Block::new_genesis_block_at(coinbase("Alice"), 10).unwrap();
    g.height = usize::MAX;
    assert!(matches!(Block::successor_at(&g, vec![], 11), Err(BlockchainError::HeightOverflow)));
}

#[test]
fn traversal_yields_all_blocks() {
    let path = fresh_path("traversal");
    let mut bc = Blockchain::creat_blockchain(&path, "Alice".to_string()).unwrap();
    assert_eq!(bc.blocks().len(), 1);
    for _ in 0..3 {
        let old_head = bc.get_block(&bc.current_hash.clone()).unwrap().unwrap();
        bc.add_block(vec![]).unwrap();
        let head = bc.get_block(&bc.current_hash.clone()).unwrap().unwrap();
        assert_eq!(head.height, old_head.height + 1);
        assert_eq!(head.prev_block_hash, old_head.hash);
    }
    let blocks = bc.blocks();
    assert_eq!(blocks.len(), 4);
    assert_eq!(blocks[3].height, 0);
    assert_eq!(blocks[3].prev_block_hash, "");
    assert_eq!(blocks[0].hash, bc.current_hash);
}

#[test]
fn open_without_head_is_missing_head() {
    let r = Blockchain::new(&fresh_path("never_created"));
    assert!(matches!(r, Err(BlockchainError::MissingHead)));
}

#[test]
fn genesis_balance_conservation() {
    let g = Block::new_genesis_block_at(coinbase("Alice"), 1).unwrap();
    let blocks = vec![g];
    assert_eq!(balance_of(&blocks, "Alice"), 10);
    assert_eq!(balance_of(&blocks, "Bob"), 0);
}

#[test]
fn spent_output_not_unspent() {
    let (blocks, cb, tx) = alice_bob_chain();
    let alice = find_unspent_outputs(&blocks, "Alice");
    assert!(alice.iter().all(|u| !(u.txid == cb.id && u.index == 0)));
    assert_eq!(alice.len(), 1);
    assert_eq!(alice[0].txid, tx.id);
    assert_eq!(alice[0].index, 1);
}

#[test]
fn transfer_scenario_balances() {
    let (blocks, _, _) = alice_bob_chain();
    assert_eq!(balance_of(&blocks, "Alice"), 6);
    assert_eq!(balance_of(&blocks, "Bob"), 4);
}

#[test]
fn select_inputs_uses_own_outputs() {
    let (blocks, _, tx) = alice_bob_chain();
    let (acc, sel) = select_inputs(&blocks, "Alice", 5);
    assert!(acc >= 5);
    assert_eq!(acc, 6);
    assert!(sel.iter().all(|u| u.output.script_pub_key == "Alice"));
    assert_eq!(sel.len(), 1);
    assert_eq!(sel[0].txid, tx.id);
    let (short, all) = select_inputs(&blocks, "Alice", 100);
    assert_eq!(short, 6);
    assert_eq!(all.len(), 1);
    let (none, empty) = select_inputs(&blocks, "Alice", 0);
    assert_eq!(none, 0);
    assert!(empty.is_empty());
}

#[test]
fn chain_utxo_through_store() {
    let path = fresh_path("utxo");
    let mut bc = Blockchain::creat_blockchain(&path, "Alice".to_string()).unwrap();
    let genesis = bc.blocks().pop().unwrap();
    let cb = genesis.transactions[0].clone();
    bc.add_block(vec![spend_alice(&cb)]).unwrap();
    assert_eq!(bc.get_balance("Alice"), 6);
    assert_eq!(bc.get_balance("Bob"), 4);
    let utxo = bc.find_UTXO("Bob");
    assert_eq!(utxo.len(), 1);
    assert_eq!(utxo[0].value, 4);
    let (acc, sel) = bc.find_spendable_outputs("Alice", 5);
    assert_eq!(acc, 6);
    assert_eq!(sel.len(), 1);
}

#[test]
fn unopenable_store_is_storage_error() {
    let r = Blockchain::new("/dev/null/blocks");
    assert!(matches!(r, Err(BlockchainError::Storage)));
}

#[test]
fn non_text_head_is_encoding_error() {
    let path = fresh_path("bad_head");
    {
        let db = sled::open(&path).unwrap();
        db.insert("LAST", vec![0xffu8, 0xfe]).unwrap();
        db.flush().unwrap();
    }
    assert!(matches!(reopen(&path), Err(BlockchainError::Encoding)));
}

#[test]
fn corrupt_head_block_is_decode_corruption() {
    let path = fresh_path("corrupt_block");
    {
        let db = sled::open(&path).unwrap();
        db.insert("LAST", "abc".as_bytes()).unwrap();
        db.insert("abc", vec![1u8, 2, 3]).unwrap();
        db.flush().unwrap();
    }
    let mut bc = reopen(&path).unwrap();
    assert_eq!(bc.current_hash, "abc");
    assert!(matches!(bc.add_block(vec![]), Err(BlockchainError::DecodeCorruption)));
    assert_eq!(bc.current_hash, "abc");
    assert!(bc.blocks().is_empty());
}


#[test]
fn head_from_stored_cases() {
    assert!(matches!(head_from_stored(None), Err(BlockchainError::MissingHead)));
    assert!(matches!(head_from_stored(Some(vec![0xff, 0xfe])), Err(BlockchainError::Encoding)));
    assert_eq!(head_from_stored(Some(b"00ab".to_vec())).unwrap(), "00ab");
}

#[test]
fn walk_step_cases() {
    let g = Block::new_genesis_block_at(coinbase("Alice"), 1).unwrap();
    let s = Block::successor_at(&g, vec![], 2).unwrap();
    let (left, r) = walk_step(None, Some(s.clone()));
    assert_eq!(left, Some(1));
    assert_eq!(r.unwrap().hash, s.hash);
    let (left, r) = walk_step(Some(1), Some(g.clone()));
    assert_eq!(left, Some(0));
    assert_eq!(r.unwrap().hash, g.hash);
    let (left, r) = walk_step(Some(0), Some(g.clone()));
    assert_eq!(left, Some(0));
    assert!(r.is_none());
    let (left, r) = walk_step(Some(3), None);
    assert_eq!(left, Some(0));
    assert!(r.is_none());
}

#[test]
fn block_records_write_block_then_head() {
    let g = Block::new_genesis_block_at(coinbase("Alice"), 1).unwrap();
    let recs = block_records(&g);
    assert_eq!(recs.len(), 2);
    assert_eq!(recs[0].0, g.hash.as_bytes().to_vec());
    assert!(!recs[0].1.is_empty());
    assert_eq!(recs[1].0, b"LAST".to_vec());
    assert_eq!(recs[1].1, g.hash.as_bytes().to_vec());
}

#[test]
fn create_keeps_existing_chain() {
    let path = fresh_path("keep");
    let first = {
        let mut bc = Blockchain::creat_blockchain(&path, "Alice".to_string()).unwrap();
        bc.add_block(vec![]).unwrap();
        bc.current_hash.clone()
    };
    let start = std::time::Instant::now();
    let again = loop {
        match Blockchain::creat_blockchain(&path, "Bob".to_string()) {
            Err(BlockchainError::Storage) if start.elapsed() < std::time::Duration::from_secs(10) => {}
            r => break r.unwrap(),
        }
    };
    assert_eq!(again.current_hash, first);
    assert_eq!(again.blocks().len(), 2);
    assert_eq!(again.get_balance("Bob"), 0);
}

#[test]
fn genesis_coinbase_has_sentinel_input() {
    let path = fresh_path("genesis_input");
    let bc = Blockchain::creat_blockchain(&path, "Alice".to_string()).unwrap();
    let blocks = bc.blocks();
    assert_eq!(blocks.len(), 1);
    let cb = &blocks[0].transactions[0];
    assert!(cb.is_coinbase());
    assert_eq!(cb.vin[0].script_sig, "GENSIS_COINBASE_DATA");
    assert_eq!(cb.vout[0].value, 10);
}

#[test]
fn create_genesis_on_open_store() {
    let path = fresh_path("create_genesis");
    let db = sled::open(&path).unwrap();
    let bc = Blockchain::create_genesis(db, "Carol".to_string()).unwrap();
    let blocks = bc.blocks();
    assert_eq!(blocks.len(), 1);
    assert_eq!(blocks[0].hash, bc.current_hash);
    assert_eq!(blocks[0].height, 0);
    assert_eq!(bc.get_balance("Carol"), 10);
}
