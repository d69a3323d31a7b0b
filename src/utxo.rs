use vstd::prelude::*;
use crate::block::Block;
use crate::transaction::{is_coinbase_spec, output_view, str_eq, TXOutput, Transaction};

verus! {

/// An output that no later input has spent, with where it stands.
#[derive(Debug, Clone)]
pub struct UnspentOutput {
    pub txid: String,
    pub index: usize,
    pub output: TXOutput,
}

/// The mathematical form of an unspent output: transaction id, output index,
/// and the output's value and owner.
pub type UtxoView = (Seq<char>, int, (u32, Seq<char>));

pub open spec fn utxo_view(u: UnspentOutput) -> UtxoView {
    (u.txid@, u.index as int, output_view(u.output))
}

/// The transactions of the blocks, block by block, each in stored order.
pub open spec fn flat_txs(blocks: Seq<Block>) -> Seq<Transaction>
    decreases blocks.len(),
{
    if blocks.len() == 0 {
        Seq::empty()
    } else {
        flat_txs(blocks.drop_last()) + blocks.last().transactions@
    }
}

/// `tx` is not a coinbase and one of its inputs, unlocked by `addr`,
/// references output `idx` of transaction `txid`.
pub open spec fn spends(tx: Transaction, addr: Seq<char>, txid: Seq<char>, idx: int) -> bool {
    &&& !is_coinbase_spec(tx)
    &&& exists|j: int|
        0 <= j < tx.vin@.len() && #[trigger] tx.vin@[j].script_sig@ == addr && tx.vin@[j].txid@ == txid
            && tx.vin@[j].vout as int == idx
}

/// Some transaction of `txs` spends output `idx` of `txid` for `addr`.
pub open spec fn is_spent(txs: Seq<Transaction>, addr: Seq<char>, txid: Seq<char>, idx: int) -> bool
    decreases txs.len(),
{
    if txs.len() == 0 {
        false
    } else {
        is_spent(txs.drop_last(), addr, txid, idx) || spends(txs.last(), addr, txid, idx)
    }
}

/// The first `n` outputs of `tx` that are locked to `addr` and not spent by
/// the transactions `prior`, in index order.
pub open spec fn outs_entries(tx: Transaction, prior: Seq<Transaction>, addr: Seq<char>, n: int) -> Seq<UtxoView>
    decreases n,
{
    if n <= 0 {
        Seq::empty()
    } else {
        let rest = outs_entries(tx, prior, addr, n - 1);
        let o = tx.vout@[n - 1];
        if !is_spent(prior, addr, tx.id@, n - 1) && o.script_pub_key@ == addr {
            rest.push((tx.id@, n - 1, output_view(o)))
        } else {
            rest
        }
    }
}

/// The outputs locked to `addr` among `txs` (newest first) that no transaction
/// before them in that order spends, in encounter order.
pub open spec fn utxo_entries(txs: Seq<Transaction>, addr: Seq<char>) -> Seq<UtxoView>
    decreases txs.len(),
{
    if txs.len() == 0 {
        Seq::empty()
    } else {
        let tx = txs.last();
        utxo_entries(txs.drop_last(), addr) + outs_entries(tx, txs.drop_last(), addr, tx.vout@.len() as int)
    }
}

/// The unspent outputs of `addr` over blocks given from head to genesis.
pub open spec fn unspent_of(blocks: Seq<Block>, addr: Seq<char>) -> Seq<UtxoView> {
    utxo_entries(flat_txs(blocks), addr)
}

/// The sum of the values of the first `k` entries.
pub open spec fn prefix_value(entries: Seq<UtxoView>, k: int) -> int
    decreases k,
{
    if k <= 0 {
        0
    } else {
        prefix_value(entries, k - 1) + entries[k - 1].2.0
    }
}

pub open spec fn spent_has(spent: Seq<(String, i32)>, txid: Seq<char>, idx: int) -> bool {
    exists|j: int| 0 <= j < spent.len() && #[trigger] spent[j].0@ == txid && spent[j].1 as int == idx
}

proof fn lemma_flat_step(blocks: Seq<Block>, b: int)
    requires
        0 <= b < blocks.len(),
    ensures
        flat_txs(blocks.take(b + 1)) == flat_txs(blocks.take(b)) + blocks[b].transactions@,
{
    assert(blocks.take(b + 1).drop_last() =~= blocks.take(b));
}

fn spent_contains(spent: &Vec<(String, i32)>, txid: &String, idx: usize) -> (r: bool)
    ensures
        r == spent_has(spent@, txid@, idx as int),
{
    let mut j: usize = 0;
    while j < spent.len()
        invariant
            j <= spent@.len(),
            forall|k: int| 0 <= k < j ==> !(#[trigger] spent@[k].0@ == txid@ && spent@[k].1 as int == idx as int),
        decreases spent@.len() - j,
    {
        if spent[j].1 as i128 == idx as i128 && str_eq(spent[j].0.as_str(), txid.as_str()) {
            assert(spent@[j as int].0@ == txid@);
            return true;
        }
        j = j + 1;
    }
    false
}

/// Scans the blocks, given from head to genesis, and returns the outputs locked
/// to `address` that no input met earlier in the scan has spent.
pub fn find_unspent_outputs(blocks: &Vec<Block>, address: &str) -> (r: Vec<UnspentOutput>)
    ensures
        r@.map_values(|u: UnspentOutput| utxo_view(u)) == unspent_of(blocks@, address@),
{
    let ghost addr = address@;
    let mut spent: Vec<(String, i32)> = Vec::new();
    let mut r: Vec<UnspentOutput> = Vec::new();
    let mut b: usize = 0;
    while b < blocks.len()
        invariant
            b <= blocks@.len(),
            addr == address@,
            r@.map_values(|u: UnspentOutput| utxo_view(u)) =~= utxo_entries(flat_txs(blocks@.take(b as int)), addr),
            forall|t: Seq<char>, i: int|
                #![trigger spent_has(spent@, t, i)]
                #![trigger is_spent(flat_txs(blocks@.take(b as int)), addr, t, i)]
                spent_has(spent@, t, i) == is_spent(flat_txs(blocks@.take(b as int)), addr, t, i),
        decreases blocks@.len() - b,
    {
        let block = &blocks[b];
        let ghost before = flat_txs(blocks@.take(b as int));
        let mut t: usize = 0;
        while t < block.transactions.len()
            invariant
                b < blocks@.len(),
                *block == blocks@[b as int],
                t <= block.transactions@.len(),
                addr == address@,
                before == flat_txs(blocks@.take(b as int)),
                r@.map_values(|u: UnspentOutput| utxo_view(u)) =~= utxo_entries(
                    before + block.transactions@.take(t as int),
                    addr,
                ),
                forall|tt: Seq<char>, i: int|
                    #![trigger spent_has(spent@, tt, i)]
                    #![trigger is_spent(before + block.transactions@.take(t as int), addr, tt, i)]
                    spent_has(spent@, tt, i) == is_spent(before + block.transactions@.take(t as int), addr, tt, i),
            decreases block.transactions@.len() - t,
        {
            let tx = &block.transactions[t];
            let ghost prior = before + block.transactions@.take(t as int);
            let ghost base = r@.map_values(|u: UnspentOutput| utxo_view(u));
            let mut k: usize = 0;
            while k < tx.vout.len()
                invariant
                    *tx == block.transactions@[t as int],
                    k <= tx.vout@.len(),
                    addr == address@,
                    r@.map_values(|u: UnspentOutput| utxo_view(u)) =~= base + outs_entries(*tx, prior, addr, k as int),
                    forall|tt: Seq<char>, i: int|
                        #![trigger spent_has(spent@, tt, i)]
                        #![trigger is_spent(prior, addr, tt, i)]
                        spent_has(spent@, tt, i) == is_spent(prior, addr, tt, i),
                decreases tx.vout@.len() - k,
            {
                let ghost old_r = r@.map_values(|u: UnspentOutput| utxo_view(u));
                let o = &tx.vout[k];
                if !spent_contains(&spent, &tx.id, k) && o.can_be_unlock_with(address) {
                    let u = UnspentOutput {
                        txid: tx.id.clone(),
                        index: k,
                        output: TXOutput { value: o.value, script_pub_key: o.script_pub_key.clone() },
                    };
                    r.push(u);
                    assert(r@.map_values(|u: UnspentOutput| utxo_view(u)) =~= old_r.push(utxo_view(u)));
                }
                k = k + 1;
            }
            if !tx.is_coinbase() {
                let mut j: usize = 0;
                while j < tx.vin.len()
                    invariant
                        *tx == block.transactions@[t as int],
                        !is_coinbase_spec(*tx),
                        j <= tx.vin@.len(),
                        addr == address@,
                        forall|tt: Seq<char>, i: int|
                            #![trigger spent_has(spent@, tt, i)]
                            spent_has(spent@, tt, i) == (is_spent(prior, addr, tt, i) || exists|jj: int|
                                0 <= jj < j && #[trigger] tx.vin@[jj].script_sig@ == addr && tx.vin@[jj].txid@ == tt
                                    && tx.vin@[jj].vout as int == i),
                    decreases tx.vin@.len() - j,
                {
                    let input = &tx.vin[j];
                    if input.can_unlock_output_with(address) {
                        let ghost old_spent = spent@;
                        spent.push((input.txid.clone(), input.vout));
                        proof {
                            assert forall|tt: Seq<char>, i: int| #[trigger] spent_has(spent@, tt, i) == (spent_has(old_spent, tt, i)
                                || (input.txid@ == tt && input.vout as int == i)) by {
                                if spent_has(old_spent, tt, i) {
                                    let w = choose|w: int| 0 <= w < old_spent.len() && #[trigger] old_spent[w].0@ == tt && old_spent[w].1 as int == i;
                                    assert(spent@[w] == old_spent[w]);
                                }
                                if input.txid@ == tt && input.vout as int == i {
                                    assert(spent@[old_spent.len() as int].0@ == tt);
                                }
                            }
                        }
                    }
                    j = j + 1;
                }
            }
            proof {
                let next = before + block.transactions@.take(t + 1);
                assert(next.drop_last() =~= prior);
                assert(next.last() == *tx);
                assert forall|tt: Seq<char>, i: int| #[trigger] spent_has(spent@, tt, i) == is_spent(next, addr, tt, i) by {
                    assert(is_spent(next, addr, tt, i) == (is_spent(prior, addr, tt, i) || spends(*tx, addr, tt, i)));
                }
                assert(utxo_entries(next, addr) == utxo_entries(prior, addr) + outs_entries(*tx, prior, addr, tx.vout@.len() as int));
            }
            t = t + 1;
        }
        proof {
            lemma_flat_step(blocks@, b as int);
            assert(block.transactions@.take(block.transactions@.len() as int) =~= block.transactions@);
        }
        b = b + 1;
    }
    assert(blocks@.take(blocks@.len() as int) =~= blocks@);
    r
}

fn copy_unspent(u: &UnspentOutput) -> (r: UnspentOutput)
    ensures
        utxo_view(r) == utxo_view(*u),
{
    UnspentOutput {
        txid: u.txid.clone(),
        index: u.index,
        output: TXOutput { value: u.output.value, script_pub_key: u.output.script_pub_key.clone() },
    }
}

/// The total value of the outputs that `address` can spend, over blocks given
/// from head to genesis.
pub fn balance_of(blocks: &Vec<Block>, address: &str) -> (r: u128)
    ensures
        r as int == prefix_value(unspent_of(blocks@, address@), unspent_of(blocks@, address@).len() as int),
{
    let all = find_unspent_outputs(blocks, address);
    let ghost e = unspent_of(blocks@, address@);
    assert(e.len() == all@.len());
    let mut total: u128 = 0;
    let mut i: usize = 0;
    while i < all.len()
        invariant
            e == all@.map_values(|u: UnspentOutput| utxo_view(u)),
            i <= all@.len(),
            total as int == prefix_value(e, i as int),
            total as int <= i as int * 0x1_0000_0000,
        decreases all@.len() - i,
    {
        assert(e[i as int] == utxo_view(all@[i as int]));
        proof {
            assert((i as int) * 0x1_0000_0000 <= 0xffff_ffff_ffff_ffff * 0x1_0000_0000) by (nonlinear_arith)
                requires
                    0 <= (i as int) <= 0xffff_ffff_ffff_ffff,
            ;
            assert((i as int + 1) * 0x1_0000_0000 == (i as int) * 0x1_0000_0000 + 0x1_0000_0000) by (nonlinear_arith);
        }
        total = total + all[i].output.value as u128;
        i = i + 1;
    }
    total
}

/// Takes unspent outputs of `address`, in scan order, until their total reaches
/// `amount`; returns the total and the outputs taken. Where the whole history
/// holds less, all of them are taken and the total falls short.
pub fn select_inputs(blocks: &Vec<Block>, address: &str, amount: u32) -> (r: (u64, Vec<UnspentOutput>))
    ensures
        ({
            let e = unspent_of(blocks@, address@);
            let k = r.1@.len() as int;
            &&& k <= e.len()
            &&& r.1@.map_values(|u: UnspentOutput| utxo_view(u)) == e.take(k)
            &&& r.0 as int == prefix_value(e, k)
            &&& (k == e.len() || prefix_value(e, k) >= amount)
            &&& forall|j: int| 0 <= j < k ==> prefix_value(e, j) < amount
        }),
{
    let all = find_unspent_outputs(blocks, address);
    let ghost e = unspent_of(blocks@, address@);
    assert(e.len() == all@.len());
    let mut acc: u64 = 0;
    let mut sel: Vec<UnspentOutput> = Vec::new();
    let mut i: usize = 0;
    while i < all.len() && acc < amount as u64
        invariant
            e == all@.map_values(|u: UnspentOutput| utxo_view(u)),
            i <= all@.len(),
            sel@.len() == i,
            sel@.map_values(|u: UnspentOutput| utxo_view(u)) =~= e.take(i as int),
            acc as int == prefix_value(e, i as int),
            acc as int <= amount as int + 0xffff_ffff,
            forall|j: int| 0 <= j < i ==> prefix_value(e, j) < amount,
        decreases all@.len() - i,
    {
        assert(e[i as int] == utxo_view(all@[i as int]));
        let ghost old_sel = sel@.map_values(|u: UnspentOutput| utxo_view(u));
        acc = acc + all[i].output.value as u64;
        let u = copy_unspent(&all[i]);
        sel.push(u);
        assert(sel@.map_values(|u: UnspentOutput| utxo_view(u)) =~= old_sel.push(utxo_view(u)));
        assert(e.take(i + 1) =~= e.take(i as int).push(e[i as int]));
        i = i + 1;
    }
    (acc, sel)
}

proof fn lemma_outs_entries(tx: Transaction, prior: Seq<Transaction>, addr: Seq<char>, n: int)
    ensures
        forall|e: int|
            0 <= e < outs_entries(tx, prior, addr, n).len() ==> {
                let u = #[trigger] outs_entries(tx, prior, addr, n)[e];
                &&& u.0 == tx.id@
                &&& !is_spent(prior, addr, u.0, u.1)
            },
    decreases n,
{
    if n > 0 {
        lemma_outs_entries(tx, prior, addr, n - 1);
        let rest = outs_entries(tx, prior, addr, n - 1);
        let all = outs_entries(tx, prior, addr, n);
        assert forall|e: int| 0 <= e < all.len() implies {
            let u = #[trigger] all[e];
            &&& u.0 == tx.id@
            &&& !is_spent(prior, addr, u.0, u.1)
        } by {
            if e < rest.len() {
                assert(all[e] == rest[e]);
            }
        }
    }
}

proof fn lemma_entries_from(txs: Seq<Transaction>, addr: Seq<char>)
    ensures
        forall|e: int|
            0 <= e < utxo_entries(txs, addr).len() ==> exists|m: int|
                0 <= m < txs.len() && (#[trigger] txs[m]).id@ == (#[trigger] utxo_entries(txs, addr)[e]).0,
    decreases txs.len(),
{
    if txs.len() > 0 {
        let p = txs.drop_last();
        let tx = txs.last();
        lemma_entries_from(p, addr);
        lemma_outs_entries(tx, p, addr, tx.vout@.len() as int);
        let head = utxo_entries(p, addr);
        let tail = outs_entries(tx, p, addr, tx.vout@.len() as int);
        assert forall|e: int| 0 <= e < utxo_entries(txs, addr).len() implies exists|m: int|
            0 <= m < txs.len() && (#[trigger] txs[m]).id@ == (#[trigger] utxo_entries(txs, addr)[e]).0 by {
            if e < head.len() {
                let m = choose|m: int| 0 <= m < p.len() && (#[trigger] p[m]).id@ == (#[trigger] head[e]).0;
                assert(txs[m] == p[m]);
            } else {
                assert(tail[e - head.len()].0 == tx.id@);
                assert(txs[txs.len() - 1] == tx);
            }
        }
    }
}

proof fn lemma_is_spent_by(txs: Seq<Transaction>, addr: Seq<char>, txid: Seq<char>, idx: int, k: int)
    requires
        0 <= k < txs.len(),
        spends(txs[k], addr, txid, idx),
    ensures
        is_spent(txs, addr, txid, idx),
    decreases txs.len(),
{
    if k < txs.len() - 1 {
        lemma_is_spent_by(txs.drop_last(), addr, txid, idx, k);
    }
}

proof fn lemma_spent_excluded_txs(txs: Seq<Transaction>, addr: Seq<char>, txid: Seq<char>, idx: int, k: int)
    requires
        0 <= k < txs.len(),
        spends(txs[k], addr, txid, idx),
        forall|m: int| 0 <= m <= k ==> (#[trigger] txs[m]).id@ != txid,
    ensures
        forall|e: int|
            0 <= e < utxo_entries(txs, addr).len() ==> !((#[trigger] utxo_entries(txs, addr)[e]).0 == txid
                && utxo_entries(txs, addr)[e].1 == idx),
    decreases txs.len(),
{
    let p = txs.drop_last();
    let tx = txs.last();
    let head = utxo_entries(p, addr);
    let tail = outs_entries(tx, p, addr, tx.vout@.len() as int);
    lemma_outs_entries(tx, p, addr, tx.vout@.len() as int);
    if k == txs.len() - 1 {
        lemma_entries_from(p, addr);
        assert forall|e: int| 0 <= e < head.len() implies (#[trigger] head[e]).0 != txid by {
            let m = choose|m: int| 0 <= m < p.len() && (#[trigger] p[m]).id@ == (#[trigger] head[e]).0;
            assert(txs[m] == p[m]);
        }
        assert(tx.id@ != txid);
    } else {
        lemma_spent_excluded_txs(p, addr, txid, idx, k);
        assert(p[k] == txs[k]);
        lemma_is_spent_by(p, addr, txid, idx, k);
    }
    assert forall|e: int| 0 <= e < utxo_entries(txs, addr).len() implies !((#[trigger] utxo_entries(txs, addr)[e]).0
        == txid && utxo_entries(txs, addr)[e].1 == idx) by {
        if e >= head.len() {
            assert(utxo_entries(txs, addr)[e] == tail[e - head.len()]);
        } else {
            assert(utxo_entries(txs, addr)[e] == head[e]);
        }
    }
}

/// A chain that holds only its genesis block, whose one transaction credits
/// value `V` to `a` in its one output, gives `a` a balance of `V` and every
/// other address a balance of 0.
pub proof fn lemma_genesis_balance(g: Block, a: Seq<char>, other: Seq<char>)
    requires
        g.transactions@.len() == 1,
        g.transactions@[0].vout@.len() == 1,
        g.transactions@[0].vout@[0].script_pub_key@ == a,
        other != a,
    ensures
        prefix_value(unspent_of(seq![g], a), unspent_of(seq![g], a).len() as int)
            == g.transactions@[0].vout@[0].value,
        prefix_value(unspent_of(seq![g], other), unspent_of(seq![g], other).len() as int) == 0,
{
    let blocks = seq![g];
    let tx = g.transactions@[0];
    assert(blocks.drop_last() =~= Seq::<Block>::empty());
    assert(g.transactions@ =~= seq![tx]);
    assert(flat_txs(Seq::<Block>::empty()) =~= Seq::<Transaction>::empty());
    assert(flat_txs(blocks) =~= seq![tx]);
    let txs = seq![tx];
    assert(txs.drop_last() =~= Seq::<Transaction>::empty());
    let none = Seq::<Transaction>::empty();
    assert(!is_spent(none, a, tx.id@, 0));
    assert(outs_entries(tx, none, a, 0) =~= Seq::<UtxoView>::empty());
    assert(outs_entries(tx, none, other, 0) =~= Seq::<UtxoView>::empty());
    assert(utxo_entries(none, a) =~= Seq::<UtxoView>::empty());
    assert(utxo_entries(none, other) =~= Seq::<UtxoView>::empty());
    assert(outs_entries(tx, none, a, 1) =~= seq![(tx.id@, 0int, output_view(tx.vout@[0]))]);
    assert(outs_entries(tx, none, other, 1) =~= Seq::<UtxoView>::empty());
    assert(utxo_entries(txs, a) =~= seq![(tx.id@, 0int, output_view(tx.vout@[0]))]);
    assert(utxo_entries(txs, other) =~= Seq::<UtxoView>::empty());
    assert(prefix_value(utxo_entries(txs, a), 1) == prefix_value(utxo_entries(txs, a), 0) + tx.vout@[0].value);
}

/// A spent output is never reported unspent: where the transaction at
/// position `k` of the scan (blocks head first, transactions in stored order)
/// spends output `idx` of `txid` for `addr`, and that output was created
/// before it (no transaction up to position `k` has id `txid`), no unspent
/// output of `addr` is output `idx` of `txid`.
pub proof fn lemma_spent_output_excluded(blocks: Seq<Block>, addr: Seq<char>, txid: Seq<char>, idx: int, k: int)
    requires
        0 <= k < flat_txs(blocks).len(),
        spends(flat_txs(blocks)[k], addr, txid, idx),
        forall|m: int| 0 <= m <= k ==> (#[trigger] flat_txs(blocks)[m]).id@ != txid,
    ensures
        forall|e: int|
            0 <= e < unspent_of(blocks, addr).len() ==> !((#[trigger] unspent_of(blocks, addr)[e]).0 == txid
                && unspent_of(blocks, addr)[e].1 == idx),
{
    lemma_spent_excluded_txs(flat_txs(blocks), addr, txid, idx, k);
}

} // verus!
