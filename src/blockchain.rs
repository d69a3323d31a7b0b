use vstd::prelude::*;
use crate::block::{genesis_prev, txs_view, Block, BlockFields};
use crate::error::BlockchainError;
use crate::transaction::{is_coinbase_spec, output_view, str_eq, Transaction, TXOutput, SUBSIDY};
use crate::utxo::{balance_of, find_unspent_outputs, prefix_value, select_inputs, unspent_of, utxo_view, UnspentOutput, UtxoView};

verus! {

#[verifier::external_type_specification]
#[verifier::external_body]
pub struct ExDb(sled::Db);

#[verifier::external_type_specification]
#[verifier::external_body]
pub struct ExSledError(sled::Error);

/// The key under which the store keeps the head block's hash.
pub const LAST_KEY: &'static str = "LAST";

/// The data that new chains credit in their genesis coinbase.
pub const GENESIS_COINBASE_DATA: &'static str = "GENSIS_COINBASE_DATA";

/// Relies on sled::open: opens or creates the store at `path`.
#[verifier::external_body]
fn open_db(path: &str) -> (r: Result<sled::Db, sled::Error>) {
    sled::open(path)
}

/// Relies on sled::Tree::get: the bytes stored under `key`, if any.
#[verifier::external_body]
fn db_get(db: &sled::Db, key: &[u8]) -> (r: Result<Option<Vec<u8>>, sled::Error>) {
    db.get(key).map(|v| v.map(|b| b.to_vec()))
}

/// Relies on sled::Tree::insert: stores `value` under `key`.
#[verifier::external_body]
fn db_insert(db: &sled::Db, key: &[u8], value: &[u8]) -> (r: Result<(), sled::Error>) {
    match db.insert(key, value) {
        Ok(_) => Ok(()),
        Err(e) => Err(e),
    }
}

/// Relies on sled::Tree::flush: writes what is buffered to durable storage.
#[verifier::external_body]
fn db_flush(db: &sled::Db) -> (r: Result<(), sled::Error>) {
    match db.flush() {
        Ok(_) => Ok(()),
        Err(e) => Err(e),
    }
}

/// The canonical binary encoding of a stored block.
pub uninterp spec fn block_bytes(f: (u128, Seq<crate::transaction::TxFieldsView>, Seq<char>, Seq<char>, usize, i32)) -> Seq<u8>;

/// Relies on bincode::serialize: the encoding depends on the fields alone. With
/// bincode's default options there is no size limit, and strings, vectors and
/// integers always encode, so bytes always come back.
#[verifier::external_body]
fn serialize_block(f: &BlockFields) -> (r: Option<Vec<u8>>)
    ensures
        r is Some,
        r matches Some(v) ==> v@ == block_bytes(f.deep_view()),
{
    bincode::serialize(f).ok()
}

/// Relies on bincode::deserialize: the fields that stored bytes encode, if any.
#[verifier::external_body]
fn deserialize_block(bytes: &[u8]) -> (r: Option<BlockFields>) {
    bincode::deserialize::<BlockFields>(bytes).ok()
}

/// Relies on String::from_utf8: the text whose UTF-8 encoding the bytes are,
/// and nothing where they are not valid UTF-8.
#[verifier::external_body]
fn utf8_string(bytes: Vec<u8>) -> (r: Option<String>)
    ensures
        r matches Some(s) ==> vstd::utf8::encode_utf8(s@) == bytes@,
        r is None <==> !vstd::utf8::valid_utf8(bytes@),
{
    String::from_utf8(bytes).ok()
}

/// A handle on a persisted chain: the store and a cached copy of the head hash.
/// Blocks form a list linked backwards by their previous hashes.
pub struct Blockchain {
    pub current_hash: String,
    pub db: sled::Db,
}

/// A cursor that walks the chain from a head towards genesis. It ends after
/// genesis, after as many blocks as the first block's height allows, or where
/// a block is missing or does not decode; it never reports an error.
pub struct BlockchainIter<'a> {
    pub current_hash: String,
    pub bc: &'a Blockchain,
    /// How many more blocks the walk may yield, once the first is known.
    pub left: Option<usize>,
}

/// `b` is a mined block that follows `head`.
pub open spec fn is_successor(head: Block, b: Block) -> bool {
    &&& b.well_formed()
    &&& b.height == head.height + 1
    &&& b.prev_block_hash@ == head.hash@
}

/// `bs` is a walk from the block whose hash is `head` towards genesis: each
/// block is the one its predecessor in the walk names as previous, and only
/// the last may be a genesis block.
pub open spec fn is_walk(bs: Seq<Block>, head: Seq<char>) -> bool {
    &&& bs.len() > 0 ==> bs[0].hash@ == head
    &&& forall|i: int|
        0 <= i < bs.len() - 1 ==> bs[i + 1].hash@ == (#[trigger] bs[i]).prev_block_hash@
            && bs[i].prev_block_hash@ != genesis_prev()
}

/// A walk from a head down to a block of height 0, along blocks each one
/// above the next, holds exactly the head's height plus one blocks.
pub proof fn lemma_walk_length(bs: Seq<Block>, head: Seq<char>)
    requires
        is_walk(bs, head),
        bs.len() > 0,
        bs.last().height == 0,
        forall|i: int| 0 <= i < bs.len() - 1 ==> (#[trigger] bs[i]).height == bs[i + 1].height + 1,
    ensures
        bs.len() == bs[0].height + 1,
{
    assert forall|k: int| 0 <= k < bs.len() implies (#[trigger] bs[k]).height + k == bs[0].height by {
        lemma_walk_heights(bs, k);
    }
    assert(bs[bs.len() - 1].height + (bs.len() - 1) == bs[0].height);
}

proof fn lemma_walk_heights(bs: Seq<Block>, k: int)
    requires
        0 <= k < bs.len(),
        forall|i: int| 0 <= i < bs.len() - 1 ==> (#[trigger] bs[i]).height == bs[i + 1].height + 1,
    ensures
        bs[k].height + k == bs[0].height,
    decreases k,
{
    if k > 0 {
        lemma_walk_heights(bs, k - 1);
        assert(bs[k - 1].height == bs[k].height + 1);
    }
}

/// The first block of a chain that credits `address`.
pub open spec fn is_genesis_for(g: Block, address: Seq<char>) -> bool {
    &&& g.height == 0
    &&& g.prev_block_hash@ == genesis_prev()
    &&& g.well_formed()
    &&& g.transactions@.len() == 1
    &&& g.transactions@[0].vout@.len() == 1
    &&& g.transactions@[0].vout@[0].script_pub_key@ == address
    &&& g.transactions@[0].vout@[0].value == SUBSIDY
    &&& is_coinbase_spec(g.transactions@[0])
    &&& g.transactions@[0].vin@[0].script_sig@ == GENESIS_COINBASE_DATA@
}

/// What the walk may still yield after `b` was found with `left` remaining:
/// nothing after genesis, else one less, or, for the first block, its height.
pub open spec fn next_left(left: Option<usize>, b: Block) -> Option<usize> {
    if b.prev_block_hash@ == genesis_prev() {
        Some(0usize)
    } else {
        match left {
            Some(n) => Some((n - 1) as usize),
            None => Some(b.height),
        }
    }
}

/// One step of a walk: given what may still be yielded and the block found
/// under the cursor's key, if any, what may be yielded next and what to yield.
/// A walk that has ended, or that found no block, yields nothing and stays ended.
pub fn walk_step(left: Option<usize>, found: Option<Block>) -> (r: (Option<usize>, Option<Block>))
    ensures
        left == Some(0usize) || found is None ==> r.0 == Some(0usize) && r.1 is None,
        left != Some(0usize) && found is Some ==> r.0 == next_left(left, found->0) && r.1 == found,
{
    if left == Some(0usize) {
        return (Some(0usize), None);
    }
    match found {
        None => (Some(0usize), None),
        Some(b) => {
            proof {
                if b.prev_block_hash@.len() == 0 {
                    assert(b.prev_block_hash@ =~= genesis_prev());
                }
            }
            let next: Option<usize> = if b.prev_block_hash.as_str().is_empty() {
                Some(0usize)
            } else {
                match left {
                    Some(n) => Some(n - 1),
                    None => Some(b.height),
                }
            };
            (next, Some(b))
        },
    }
}

/// The head hash that the bytes stored under the head key stand for: none
/// stored is a missing head, bytes that are not UTF-8 are an encoding error.
pub fn head_from_stored(stored: Option<Vec<u8>>) -> (r: Result<String, BlockchainError>)
    ensures
        stored is None ==> r == Err::<String, BlockchainError>(BlockchainError::MissingHead),
        stored is Some && !vstd::utf8::valid_utf8(stored->0@) ==> r == Err::<String, BlockchainError>(
            BlockchainError::Encoding,
        ),
        stored is Some && vstd::utf8::valid_utf8(stored->0@) ==> (r matches Ok(s)
            && vstd::utf8::encode_utf8(s@) == stored->0@),
{
    match stored {
        Some(bytes) => match utf8_string(bytes) {
            Some(s) => Ok(s),
            None => Err(BlockchainError::Encoding),
        },
        None => Err(BlockchainError::MissingHead),
    }
}

/// The key-value pairs that storing `block` as the new head writes, in order:
/// the block's encoding under its hash, then its hash under the head key.
pub fn block_records(block: &Block) -> (r: Vec<(Vec<u8>, Vec<u8>)>)
    ensures
        r@.len() == 2,
        r@[0].0@ == vstd::utf8::encode_utf8(block.hash@),
        r@[0].1@ == block_bytes(
            (block.timestamp, txs_view(block.transactions@), block.prev_block_hash@, block.hash@, block.height, block.nonce),
        ),
        r@[1].0@ == vstd::utf8::encode_utf8(LAST_KEY@),
        r@[1].1@ == vstd::utf8::encode_utf8(block.hash@),
{
    let f = block.to_fields();
    let value = match serialize_block(&f) {
        Some(v) => v,
        None => Vec::new(),
    };
    let key = vstd::slice::slice_to_vec(block.hash.as_str().as_bytes());
    let head_key = vstd::slice::slice_to_vec(LAST_KEY.as_bytes());
    let head_value = vstd::slice::slice_to_vec(block.hash.as_str().as_bytes());
    assert(f.deep_view() == (block.timestamp, txs_view(block.transactions@), block.prev_block_hash@, block.hash@, block.height, block.nonce));
    vec![(key, value), (head_key, head_value)]
}

fn storage<T>(r: Result<T, sled::Error>) -> (o: Result<T, BlockchainError>)
    ensures
        r matches Ok(v) ==> o == Ok::<T, BlockchainError>(v),
        r is Err ==> o == Err::<T, BlockchainError>(BlockchainError::Storage),
{
    match r {
        Ok(v) => Ok(v),
        Err(_) => Err(BlockchainError::Storage),
    }
}

/// Decodes stored bytes into a block.
fn decode_block(bytes: &[u8]) -> (r: Result<Block, BlockchainError>)
    ensures
        r matches Err(e) ==> e == BlockchainError::DecodeCorruption,
{
    match deserialize_block(bytes) {
        Some(f) => Ok(Block::from_fields(&f)),
        None => Err(BlockchainError::DecodeCorruption),
    }
}

impl Blockchain {
    /// Opens the chain stored at `path`, which must have been created.
    pub fn new(path: &str) -> (r: Result<Blockchain, BlockchainError>)
        ensures
            r matches Err(e) ==> e == BlockchainError::Storage || e == BlockchainError::MissingHead
                || e == BlockchainError::Encoding,
    {
        let db = storage(open_db(path))?;
        let last = Blockchain::read_head(&db)?;
        Ok(Blockchain { current_hash: last, db })
    }

    /// The head hash recorded in the store.
    fn read_head(db: &sled::Db) -> (r: Result<String, BlockchainError>)
        ensures
            r matches Err(e) ==> e == BlockchainError::Storage || e == BlockchainError::MissingHead
                || e == BlockchainError::Encoding,
    {
        let stored = storage(db_get(db, LAST_KEY.as_bytes()))?;
        head_from_stored(stored)
    }

    /// Writes the records of `block`, which make it the stored head.
    fn store_block(db: &sled::Db, block: &Block) -> (r: Result<(), BlockchainError>)
        ensures
            r matches Err(e) ==> e == BlockchainError::Storage,
    {
        let records = block_records(block);
        let mut i: usize = 0;
        while i < records.len()
            invariant
                i <= records@.len(),
            decreases records@.len() - i,
        {
            storage(db_insert(db, records[i].0.as_slice(), records[i].1.as_slice()))?;
            i = i + 1;
        }
        Ok(())
    }

    /// Opens the chain at `path`, or, where the store holds no head yet,
    /// creates one through `create_genesis`: a genesis block crediting
    /// `address` with the coinbase reward, stored as the head and flushed.
    pub fn creat_blockchain(path: &str, address: String) -> (r: Result<Blockchain, BlockchainError>)
        ensures
            r matches Err(e) ==> e == BlockchainError::Storage || e == BlockchainError::Encoding
                || e == BlockchainError::MiningExhausted,
    {
        let db = storage(open_db(path))?;
        let stored = storage(db_get(&db, LAST_KEY.as_bytes()))?;
        if stored.is_some() {
            let last = head_from_stored(stored)?;
            Ok(Blockchain { current_hash: last, db })
        } else {
            Blockchain::create_genesis(db, address)
        }
    }

    /// Mines a genesis block crediting `address`, stores it as the head of `db`
    /// and flushes; the creating branch of `creat_blockchain`.
    pub fn create_genesis(db: sled::Db, address: String) -> (r: Result<Blockchain, BlockchainError>)
        ensures
            r matches Ok(bc) ==> exists|g: Block| #[trigger] is_genesis_for(g, address@) && bc.current_hash@ == g.hash@,
            r matches Err(e) ==> e == BlockchainError::Storage || e == BlockchainError::MiningExhausted,
    {
        let ghost addr = address@;
        let cbtx = match Transaction::new_coinbase(address, GENESIS_COINBASE_DATA.to_owned()) {
            Ok(t) => t,
            Err(_) => return Err(BlockchainError::Serialization),
        };
        let genesis = Block::new_genesis_block(cbtx)?;
        Blockchain::store_block(&db, &genesis)?;
        storage(db_flush(&db))?;
        assert(is_genesis_for(genesis, addr));
        Ok(Blockchain { current_hash: genesis.hash.clone(), db })
    }

    /// The block stored under `hash`, or nothing where none is. Bytes that do
    /// not decode, or that decode into a block with another hash, are corrupt.
    pub fn get_block(&self, hash: &str) -> (r: Result<Option<Block>, BlockchainError>)
        ensures
            r matches Ok(Some(b)) ==> b.hash@ == hash@,
            r matches Err(e) ==> e == BlockchainError::Storage || e == BlockchainError::DecodeCorruption,
    {
        match storage(db_get(&self.db, hash.as_bytes()))? {
            Some(bytes) => {
                let b = decode_block(bytes.as_slice())?;
                if str_eq(b.hash.as_str(), hash) {
                    Ok(Some(b))
                } else {
                    Err(BlockchainError::DecodeCorruption)
                }
            },
            None => Ok(None),
        }
    }

    /// Mines a block of `transactions` on the stored head, stores it under its
    /// hash, then points the head at it. The writes are not atomic: a failure
    /// between them leaves a stored block that no traversal reaches.
    pub fn add_block(&mut self, transactions: Vec<Transaction>) -> (r: Result<(), BlockchainError>)
        ensures
            r matches Ok(()) ==> exists|head: Block, b: Block|
                #[trigger] is_successor(head, b) && b.transactions@ == transactions@
                    && final(self).current_hash@ == b.hash@,
            r is Err ==> final(self).current_hash@ == old(self).current_hash@,
            r matches Err(e) ==> e == BlockchainError::Storage || e == BlockchainError::MissingHead
                || e == BlockchainError::Encoding || e == BlockchainError::DecodeCorruption
                || e == BlockchainError::HeightOverflow || e == BlockchainError::MiningExhausted,
    {
        let last_hash = Blockchain::read_head(&self.db)?;
        let head = match self.get_block(last_hash.as_str())? {
            Some(b) => b,
            None => return Err(BlockchainError::MissingHead),
        };
        let timestamp = crate::block::now_millis();
        let new_block = Block::successor_at(&head, transactions, timestamp)?;
        Blockchain::store_block(&self.db, &new_block)?;
        self.current_hash = new_block.hash.clone();
        assert(is_successor(head, new_block));
        Ok(())
    }

    /// A fresh cursor at the current head.
    pub fn iter(&self) -> (r: BlockchainIter<'_>)
        ensures
            r.current_hash@ == self.current_hash@,
            r.bc == self,
            r.left is None,
    {
        BlockchainIter { current_hash: self.current_hash.clone(), bc: self, left: None }
    }

    /// The blocks reachable from the head, head first, ending at genesis unless
    /// a block is missing or corrupt.
    pub fn blocks(&self) -> (r: Vec<Block>)
        ensures
            is_walk(r@, self.current_hash@),
    {
        let mut it = self.iter();
        let mut r: Vec<Block> = Vec::new();
        loop
            invariant_except_break
                is_walk(r@, self.current_hash@),
                r@.len() == 0 ==> it.current_hash@ == self.current_hash@,
                r@.len() > 0 ==> it.current_hash@ == r@.last().prev_block_hash@,
                r@.len() > 0 && r@.last().prev_block_hash@ == genesis_prev() ==> it.left == Some(0usize),
            ensures
                is_walk(r@, self.current_hash@),
            decreases (match it.left { Some(n) => n as int + 1, None => usize::MAX as int + 2 }),
        {
            match it.next() {
                Some(b) => {
                    let ghost old_r = r@;
                    r.push(b);
                    proof {
                        assert forall|i: int| 0 <= i < r@.len() - 1 implies r@[i + 1].hash@ == (
                        #[trigger] r@[i]).prev_block_hash@ && r@[i].prev_block_hash@ != genesis_prev() by {
                            if i < old_r.len() - 1 {
                                assert(r@[i] == old_r[i] && r@[i + 1] == old_r[i + 1]);
                            } else {
                                assert(r@[i] == old_r.last());
                            }
                        }
                    }
                },
                None => break,
            }
        }
        r
    }

    /// The outputs that `address` can spend, newest first, over the walk from
    /// the head.
    #[allow(non_snake_case)]
    pub fn find_UTXO(&self, address: &str) -> (r: Vec<TXOutput>)
        ensures
            exists|bs: Seq<Block>|
                #[trigger] is_walk(bs, self.current_hash@) && r@.map_values(|o: TXOutput| output_view(o))
                    == unspent_of(bs, address@).map_values(|u: UtxoView| u.2),
    {
        let blocks = self.blocks();
        let all = find_unspent_outputs(&blocks, address);
        let ghost e = unspent_of(blocks@, address@);
        let mut r: Vec<TXOutput> = Vec::new();
        let mut i: usize = 0;
        while i < all.len()
            invariant
                e == all@.map_values(|u: UnspentOutput| utxo_view(u)),
                i <= all@.len(),
                r@.map_values(|o: TXOutput| output_view(o)) =~= e.take(i as int).map_values(|u: UtxoView| u.2),
            decreases all@.len() - i,
        {
            let ghost prev = r@.map_values(|o: TXOutput| output_view(o));
            let o = TXOutput { value: all[i].output.value, script_pub_key: all[i].output.script_pub_key.clone() };
            r.push(o);
            assert(e[i as int] == utxo_view(all@[i as int]));
            assert(r@.map_values(|o: TXOutput| output_view(o)) =~= prev.push(output_view(o)));
            assert(e.take(i + 1).map_values(|u: UtxoView| u.2) =~= e.take(i as int).map_values(|u: UtxoView| u.2).push(e[i as int].2));
            i = i + 1;
        }
        assert(e.take(i as int) =~= e);
        assert(is_walk(blocks@, self.current_hash@));
        r
    }

    /// The outputs that `address` can spend, with where each stands, over the
    /// walk from the head.
    pub fn find_unspent_outputs(&self, address: &str) -> (r: Vec<UnspentOutput>)
        ensures
            exists|bs: Seq<Block>|
                #[trigger] is_walk(bs, self.current_hash@) && r@.map_values(|u: UnspentOutput| utxo_view(u))
                    == unspent_of(bs, address@),
    {
        let blocks = self.blocks();
        let r = find_unspent_outputs(&blocks, address);
        assert(is_walk(blocks@, self.current_hash@));
        r
    }

    /// The total value that `address` can spend over the walk from the head.
    pub fn get_balance(&self, address: &str) -> (r: u128)
        ensures
            exists|bs: Seq<Block>|
                #[trigger] is_walk(bs, self.current_hash@) && r as int == prefix_value(
                    unspent_of(bs, address@),
                    unspent_of(bs, address@).len() as int,
                ),
    {
        let blocks = self.blocks();
        let r = balance_of(&blocks, address);
        assert(is_walk(blocks@, self.current_hash@));
        r
    }

    /// Unspent outputs of `address`, taken in scan order over the walk from
    /// the head until their total reaches `amount`.
    pub fn find_spendable_outputs(&self, address: &str, amount: u32) -> (r: (u64, Vec<UnspentOutput>))
        ensures
            exists|bs: Seq<Block>|
                #[trigger] is_walk(bs, self.current_hash@) && ({
                    let e = unspent_of(bs, address@);
                    let k = r.1@.len() as int;
                    &&& k <= e.len()
                    &&& r.1@.map_values(|u: UnspentOutput| utxo_view(u)) == e.take(k)
                    &&& r.0 as int == prefix_value(e, k)
                    &&& (k == e.len() || prefix_value(e, k) >= amount)
                    &&& forall|j: int| 0 <= j < k ==> prefix_value(e, j) < amount
                }),
    {
        let blocks = self.blocks();
        let r = select_inputs(&blocks, address, amount);
        assert(is_walk(blocks@, self.current_hash@));
        r
    }
}

impl<'a> BlockchainIter<'a> {
    /// The next block towards genesis, or nothing once the walk has ended. The
    /// block yielded is the one stored under the cursor's hash; a missing or
    /// corrupt block ends the walk.
    pub fn next(&mut self) -> (r: Option<Block>)
        ensures
            old(self).left == Some(0usize) ==> r is None && final(self).left == Some(0usize),
            r matches Some(b) ==> b.hash@ == old(self).current_hash@ && final(self).current_hash@
                == b.prev_block_hash@ && final(self).left == next_left(old(self).left, b),
            r is None ==> final(self).left == Some(0usize),
            final(self).bc == old(self).bc,
            r is Some ==> final(self).left is Some,
            r is Some && old(self).left is Some ==> final(self).left->0 < old(self).left->0,
            r matches Some(b) && b.prev_block_hash@ == genesis_prev() ==> final(self).left == Some(0usize),
    {
        if self.left == Some(0usize) {
            return None;
        }
        let found = match self.bc.get_block(self.current_hash.as_str()) {
            Ok(b) => b,
            Err(_) => None,
        };
        let (left, r) = walk_step(self.left, found);
        self.left = left;
        if let Some(b) = &r {
            self.current_hash = b.prev_block_hash.clone();
        }
        r
    }
}

} // verus!
