use vstd::prelude::*;
use crate::error::BlockchainError;
use crate::hashing::{digest_meets_target, hash_text, hex_encode, meets_target, sha256};
use crate::transaction::{fields_of, Transaction, TxFields, TxFieldsView};

verus! {

/// The number of leading zero hexadecimal digits that a block's hash must have.
pub const TARGET_HEXS: usize = 4;

/// A mined block. Its hash is the digest of its mining payload and meets the
/// difficulty target; it is not changed after mining.
#[derive(Debug, Clone)]
pub struct Block {
    pub timestamp: u128,
    pub transactions: Vec<Transaction>,
    pub prev_block_hash: String,
    pub hash: String,
    pub height: usize,
    pub nonce: i32,
}

/// The canonical binary encoding of a mining payload:
/// previous hash, transactions, timestamp, difficulty and nonce.
pub uninterp spec fn payload_bytes(
    prev: Seq<char>,
    txs: Seq<TxFieldsView>,
    timestamp: u128,
    difficulty: usize,
    nonce: i32,
) -> Seq<u8>;

/// Relies on bincode::serialize: the encoding of the payload tuple depends on
/// its values alone. With bincode's default options there is no size limit, and
/// strings, vectors and integers always encode, so bytes always come back.
#[verifier::external_body]
fn serialize_payload(
    prev: &String,
    txs: &Vec<TxFields>,
    timestamp: u128,
    difficulty: usize,
    nonce: i32,
) -> (r: Option<Vec<u8>>)
    ensures
        r is Some,
        r matches Some(v) ==> v@ == payload_bytes(prev@, txs.deep_view(), timestamp, difficulty, nonce),
{
    bincode::serialize(&(prev, txs, timestamp, difficulty, nonce)).ok()
}

/// Relies on std::time::SystemTime: milliseconds since the Unix epoch, or 0
/// where the clock stands before it. Any value may come back.
#[verifier::external_body]
pub(crate) fn now_millis() -> (r: u128) {
    match std::time::SystemTime::now().duration_since(std::time::UNIX_EPOCH) {
        Ok(d) => d.as_millis(),
        Err(_) => 0,
    }
}

/// The transactions as plain values.
pub open spec fn txs_view(txs: Seq<Transaction>) -> Seq<TxFieldsView> {
    txs.map_values(|t: Transaction| fields_of(t))
}

/// The proof-of-work hash of a payload: hexadecimal SHA-256 of its encoding.
pub open spec fn pow_hash(
    prev: Seq<char>,
    txs: Seq<Transaction>,
    timestamp: u128,
    difficulty: usize,
    nonce: i32,
) -> Seq<char> {
    hash_text(payload_bytes(prev, txs_view(txs), timestamp, difficulty, nonce))
}

/// The result of mining: the first non-negative nonce whose hash meets the target.
pub open spec fn is_first_solution(
    prev: Seq<char>,
    txs: Seq<Transaction>,
    timestamp: u128,
    difficulty: usize,
    hash: Seq<char>,
    nonce: i32,
) -> bool {
    &&& nonce >= 0
    &&& hash == pow_hash(prev, txs, timestamp, difficulty, nonce)
    &&& meets_target(hash, difficulty as int)
    &&& forall|m: i32|
        0 <= m < nonce ==> !meets_target(#[trigger] pow_hash(prev, txs, timestamp, difficulty, m), difficulty as int)
}

/// No non-negative nonce meets the target.
pub open spec fn no_solution(prev: Seq<char>, txs: Seq<Transaction>, timestamp: u128, difficulty: usize) -> bool {
    forall|m: i32| 0 <= m ==> !meets_target(#[trigger] pow_hash(prev, txs, timestamp, difficulty, m), difficulty as int)
}

/// The sentinel that stands for the previous hash of the genesis block.
pub open spec fn genesis_prev() -> Seq<char> {
    Seq::empty()
}

/// Converts every transaction to plain values.
pub fn txs_fields(txs: &Vec<Transaction>) -> (r: Vec<TxFields>)
    ensures
        r.deep_view() == txs_view(txs@),
{
    let mut r: Vec<TxFields> = Vec::new();
    let mut i: usize = 0;
    while i < txs.len()
        invariant
            i <= txs@.len(),
            r.deep_view() =~~= txs_view(txs@.subrange(0, i as int)),
        decreases txs@.len() - i,
    {
        let ghost prev = r.deep_view();
        let f = txs[i].to_fields();
        r.push(f);
        proof {
            assert(r.deep_view() =~~= prev.push(fields_of(txs@[i as int])));
            assert(txs_view(txs@.subrange(0, i + 1)) =~~= txs_view(txs@.subrange(0, i as int)).push(
                fields_of(txs@[i as int]),
            ));
        }
        i = i + 1;
    }
    assert(txs@.subrange(0, i as int) =~= txs@);
    r
}

/// The transactions that plain fields describe.
pub fn txs_from_fields(fields: &Vec<TxFields>) -> (r: Vec<Transaction>)
    ensures
        txs_view(r@) == fields.deep_view(),
{
    let mut r: Vec<Transaction> = Vec::new();
    let mut i: usize = 0;
    while i < fields.len()
        invariant
            i <= fields@.len(),
            txs_view(r@) =~~= fields.deep_view().take(i as int),
        decreases fields@.len() - i,
    {
        let ghost prev = txs_view(r@);
        let tx = Transaction::from_fields(&fields[i]);
        r.push(tx);
        assert(txs_view(r@) =~~= prev.push(fields_of(tx)));
        assert(fields.deep_view().take(i + 1) =~~= fields.deep_view().take(i as int).push(fields.deep_view()[i as int]));
        i = i + 1;
    }
    assert(fields.deep_view().take(i as int) =~~= fields.deep_view());
    r
}

/// A block as plain values: timestamp, transactions, previous hash, hash,
/// height and nonce.
pub type BlockFields = (u128, Vec<TxFields>, String, String, usize, i32);

/// Searches nonces from 0 upwards for the first whose payload hash has at least
/// `difficulty` leading zero digits.
pub fn run_proof_of_work(
    prev: &String,
    txs: &Vec<Transaction>,
    timestamp: u128,
    difficulty: usize,
) -> (r: Result<(String, i32), BlockchainError>)
    ensures
        r matches Ok((h, n)) ==> is_first_solution(prev@, txs@, timestamp, difficulty, h@, n),
        r is Err ==> r == Err::<(String, i32), BlockchainError>(BlockchainError::MiningExhausted)
            && no_solution(prev@, txs@, timestamp, difficulty),
{
    let fields = txs_fields(txs);
    let mut nonce: i32 = 0;
    loop
        invariant
            0 <= nonce,
            fields.deep_view() == txs_view(txs@),
            forall|m: i32|
                0 <= m < nonce ==> !meets_target(#[trigger] pow_hash(prev@, txs@, timestamp, difficulty, m), difficulty as int),
        decreases i32::MAX - nonce,
    {
        let bytes = match serialize_payload(prev, &fields, timestamp, difficulty, nonce) {
            Some(b) => b,
            None => return Err(BlockchainError::Serialization),
        };
        let digest = sha256(bytes.as_slice());
        if digest_meets_target(digest.as_slice(), difficulty) {
            let h = hex_encode(digest.as_slice());
            return Ok((h, nonce));
        }
        if nonce == i32::MAX {
            return Err(BlockchainError::MiningExhausted);
        }
        nonce = nonce + 1;
    }
}

impl Block {
    /// The block's hash satisfies the proof-of-work invariant.
    pub open spec fn well_formed(&self) -> bool {
        &&& self.nonce >= 0
        &&& self.hash@ == pow_hash(self.prev_block_hash@, self.transactions@, self.timestamp, TARGET_HEXS, self.nonce)
        &&& meets_target(self.hash@, TARGET_HEXS as int)
    }

    /// A block mined with the given creation time.
    pub fn new_at(
        transactions: Vec<Transaction>,
        pre_block_hash: String,
        height: usize,
        timestamp: u128,
    ) -> (r: Result<Block, BlockchainError>)
        ensures
            r matches Ok(b) ==> {
                &&& b.transactions@ == transactions@
                &&& b.prev_block_hash@ == pre_block_hash@
                &&& b.height == height
                &&& b.timestamp == timestamp
                &&& is_first_solution(b.prev_block_hash@, b.transactions@, timestamp, TARGET_HEXS, b.hash@, b.nonce)
                &&& b.well_formed()
            },
            r is Err ==> r == Err::<Block, BlockchainError>(BlockchainError::MiningExhausted)
                && no_solution(pre_block_hash@, transactions@, timestamp, TARGET_HEXS),
    {
        match run_proof_of_work(&pre_block_hash, &transactions, timestamp, TARGET_HEXS) {
            Ok((hash, nonce)) => Ok(Block {
                timestamp,
                transactions,
                prev_block_hash: pre_block_hash,
                hash,
                height,
                nonce,
            }),
            Err(e) => Err(e),
        }
    }

    /// A block mined now, whatever time the clock gives.
    pub fn new(transactions: Vec<Transaction>, pre_block_hash: String, height: usize) -> (r: Result<
        Block,
        BlockchainError,
    >)
        ensures
            r matches Ok(b) ==> {
                &&& b.transactions@ == transactions@
                &&& b.prev_block_hash@ == pre_block_hash@
                &&& b.height == height
                &&& is_first_solution(b.prev_block_hash@, b.transactions@, b.timestamp, TARGET_HEXS, b.hash@, b.nonce)
                &&& b.well_formed()
            },
            r is Err ==> r == Err::<Block, BlockchainError>(BlockchainError::MiningExhausted)
                && exists|t: u128| no_solution(pre_block_hash@, transactions@, t, TARGET_HEXS),
    {
        let timestamp = now_millis();
        Block::new_at(transactions, pre_block_hash, height, timestamp)
    }

    /// The block that follows `head`: one higher, linked to its hash, mined with
    /// the given creation time. The highest possible height has no successor.
    pub fn successor_at(head: &Block, transactions: Vec<Transaction>, timestamp: u128) -> (r: Result<
        Block,
        BlockchainError,
    >)
        ensures
            r matches Ok(b) ==> {
                &&& b.height == head.height + 1
                &&& b.prev_block_hash@ == head.hash@
                &&& b.transactions@ == transactions@
                &&& b.timestamp == timestamp
                &&& b.well_formed()
            },
            r matches Ok(b) ==> is_first_solution(b.prev_block_hash@, b.transactions@, timestamp, TARGET_HEXS, b.hash@, b.nonce),
            head.height == usize::MAX ==> r == Err::<Block, BlockchainError>(BlockchainError::HeightOverflow),
            head.height < usize::MAX && r is Err ==> r == Err::<Block, BlockchainError>(BlockchainError::MiningExhausted)
                && no_solution(head.hash@, transactions@, timestamp, TARGET_HEXS),
    {
        if head.height == usize::MAX {
            return Err(BlockchainError::HeightOverflow);
        }
        Block::new_at(transactions, head.hash.clone(), head.height + 1, timestamp)
    }

    /// The first block of a chain, mined with the given creation time.
    pub fn new_genesis_block_at(coinbase: Transaction, timestamp: u128) -> (r: Result<Block, BlockchainError>)
        ensures
            r matches Ok(b) ==> {
                &&& b.height == 0
                &&& b.prev_block_hash@ == genesis_prev()
                &&& b.transactions@ == seq![coinbase]
                &&& b.timestamp == timestamp
                &&& is_first_solution(b.prev_block_hash@, b.transactions@, timestamp, TARGET_HEXS, b.hash@, b.nonce)
                &&& b.well_formed()
            },
            r is Err ==> r == Err::<Block, BlockchainError>(BlockchainError::MiningExhausted)
                && no_solution(genesis_prev(), seq![coinbase], timestamp, TARGET_HEXS),
    {
        let ghost cb = coinbase;
        let txs = vec![coinbase];
        assert(txs@ =~= seq![cb]);
        Block::new_at(txs, String::new(), 0, timestamp)
    }

    /// The first block of a chain, mined now.
    pub fn new_genesis_block(coinbase: Transaction) -> (r: Result<Block, BlockchainError>)
        ensures
            r matches Ok(b) ==> {
                &&& b.height == 0
                &&& b.prev_block_hash@ == genesis_prev()
                &&& b.transactions@ == seq![coinbase]
                &&& is_first_solution(b.prev_block_hash@, b.transactions@, b.timestamp, TARGET_HEXS, b.hash@, b.nonce)
                &&& b.well_formed()
            },
            r is Err ==> r == Err::<Block, BlockchainError>(BlockchainError::MiningExhausted)
                && exists|t: u128| no_solution(genesis_prev(), seq![coinbase], t, TARGET_HEXS),
    {
        let timestamp = now_millis();
        Block::new_genesis_block_at(coinbase, timestamp)
    }

    /// Recomputes the hash from the stored fields and nonce and checks the
    /// target; no search is made.
    pub fn validate(&self) -> (r: Result<bool, BlockchainError>)
        ensures
            r == Ok::<bool, BlockchainError>(meets_target(
                pow_hash(self.prev_block_hash@, self.transactions@, self.timestamp, TARGET_HEXS, self.nonce),
                TARGET_HEXS as int,
            )),
            self.well_formed() ==> r == Ok::<bool, BlockchainError>(true),
    {
        let fields = txs_fields(&self.transactions);
        match serialize_payload(&self.prev_block_hash, &fields, self.timestamp, TARGET_HEXS, self.nonce) {
            Some(bytes) => {
                let digest = sha256(bytes.as_slice());
                Ok(digest_meets_target(digest.as_slice(), TARGET_HEXS))
            },
            None => Err(BlockchainError::Serialization),
        }
    }

    /// The block as plain values, in the order in which it is stored.
    pub fn to_fields(&self) -> (r: BlockFields)
        ensures
            r.0 == self.timestamp,
            r.1.deep_view() == txs_view(self.transactions@),
            r.2@ == self.prev_block_hash@,
            r.3@ == self.hash@,
            r.4 == self.height,
            r.5 == self.nonce,
    {
        (
            self.timestamp,
            txs_fields(&self.transactions),
            self.prev_block_hash.clone(),
            self.hash.clone(),
            self.height,
            self.nonce,
        )
    }

    /// The block that plain fields describe.
    pub fn from_fields(f: &BlockFields) -> (r: Block)
        ensures
            r.timestamp == f.0,
            txs_view(r.transactions@) == f.1.deep_view(),
            r.prev_block_hash@ == f.2@,
            r.hash@ == f.3@,
            r.height == f.4,
            r.nonce == f.5,
    {
        Block {
            timestamp: f.0,
            transactions: txs_from_fields(&f.1),
            prev_block_hash: f.2.clone(),
            hash: f.3.clone(),
            height: f.4,
            nonce: f.5,
        }
    }

    pub fn get_hash(&self) -> (r: String)
        ensures
            r@ == self.hash@,
    {
        self.hash.clone()
    }

    pub fn get_prev_hash(&self) -> (r: String)
        ensures
            r@ == self.prev_block_hash@,
    {
        self.prev_block_hash.clone()
    }

    pub fn get_height(&self) -> (r: usize)
        ensures
            r == self.height,
    {
        self.height
    }

    pub fn get_transactions(&self) -> (r: &Vec<Transaction>)
        ensures
            r@ == self.transactions@,
    {
        &self.transactions
    }
}

/// Mining is deterministic: two well-formed blocks with the same previous
/// hash, transactions, timestamp and nonce have the same hash.
pub proof fn lemma_mining_deterministic(b1: Block, b2: Block)
    requires
        b1.well_formed(),
        b2.well_formed(),
        b1.prev_block_hash@ == b2.prev_block_hash@,
        b1.transactions@ == b2.transactions@,
        b1.timestamp == b2.timestamp,
        b1.nonce == b2.nonce,
    ensures
        b1.hash@ == b2.hash@,
{
}

/// Every well-formed block's hash has at least the target's number of leading
/// zero digits.
pub proof fn lemma_well_formed_meets_target(b: Block)
    requires
        b.well_formed(),
    ensures
        b.hash@.len() >= TARGET_HEXS,
        forall|i: int| 0 <= i < TARGET_HEXS ==> b.hash@[i] == '0',
{
}

} // verus!
