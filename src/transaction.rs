use vstd::prelude::*;
use vstd::string::StringSliceAdditionalSpecFns;
use crate::error::BlockchainError;
use crate::hashing::{hash_text, hex_encode, sha256};

verus! {

/// The value that a coinbase transaction credits to its reward address.
pub const SUBSIDY: u32 = 10;

/// A reference to an earlier output, with the credential that unlocks it.
#[derive(Debug, Clone)]
pub struct TXInput {
    pub txid: String,
    pub vout: i32,
    pub script_sig: String,
}

/// A value locked to an owner address.
#[derive(Debug, Clone)]
pub struct TXOutput {
    pub value: u32,
    pub script_pub_key: String,
}

/// A transfer of value: inputs spend earlier outputs, outputs create new ones.
#[derive(Debug, Clone)]
pub struct Transaction {
    pub id: String,
    pub vin: Vec<TXInput>,
    pub vout: Vec<TXOutput>,
}

/// A transaction as plain values, in the order in which it is encoded.
pub type TxFields = (String, Vec<(String, i32, String)>, Vec<(u32, String)>);

/// The mathematical form of `TxFields`.
pub type TxFieldsView = (Seq<char>, Seq<(Seq<char>, i32, Seq<char>)>, Seq<(u32, Seq<char>)>);

/// The canonical binary encoding of a transaction's fields.
pub uninterp spec fn tx_bytes(f: TxFieldsView) -> Seq<u8>;

/// Relies on bincode::serialize: the encoding depends on the fields alone. With
/// bincode's default options there is no size limit, and strings, vectors and
/// integers always encode, so bytes always come back.
#[verifier::external_body]
fn serialize_tx(f: &TxFields) -> (r: Option<Vec<u8>>)
    ensures
        r is Some,
        r matches Some(v) ==> v@ == tx_bytes(f.deep_view()),
{
    bincode::serialize(f).ok()
}

pub open spec fn input_view(i: TXInput) -> (Seq<char>, i32, Seq<char>) {
    (i.txid@, i.vout, i.script_sig@)
}

pub open spec fn output_view(o: TXOutput) -> (u32, Seq<char>) {
    (o.value, o.script_pub_key@)
}

/// A transaction's fields as plain values.
pub open spec fn fields_of(tx: Transaction) -> TxFieldsView {
    (
        tx.id@,
        tx.vin@.map_values(|i: TXInput| input_view(i)),
        tx.vout@.map_values(|o: TXOutput| output_view(o)),
    )
}

/// The identifier of a transaction with these inputs and outputs: the digest of
/// its encoding with an empty identifier.
pub open spec fn tx_id_of(vin: Seq<TXInput>, vout: Seq<TXOutput>) -> Seq<char> {
    hash_text(
        tx_bytes(
            (
                Seq::<char>::empty(),
                vin.map_values(|i: TXInput| input_view(i)),
                vout.map_values(|o: TXOutput| output_view(o)),
            ),
        ),
    )
}

/// A coinbase transaction has one sentinel input that references no output.
pub open spec fn is_coinbase_spec(tx: Transaction) -> bool {
    &&& tx.vin@.len() == 1
    &&& tx.vin@[0].txid@.len() == 0
    &&& tx.vin@[0].vout == -1
}

impl TXInput {
    /// Whether this input was signed by `address`. A plaintext comparison that
    /// stands in for signature verification.
    pub fn can_unlock_output_with(&self, address: &str) -> (r: bool)
        ensures
            r == (self.script_sig@ == address@),
    {
        str_eq(self.script_sig.as_str(), address)
    }
}

impl TXOutput {
    /// Whether this output is locked to `address`. A plaintext comparison that
    /// stands in for signature verification.
    pub fn can_be_unlock_with(&self, address: &str) -> (r: bool)
        ensures
            r == (self.script_pub_key@ == address@),
    {
        str_eq(self.script_pub_key.as_str(), address)
    }
}

/// Character-wise equality of two strings.
pub fn str_eq(a: &str, b: &str) -> (r: bool)
    ensures
        r == (a@ == b@),
{
    let x = a.as_bytes();
    let y = b.as_bytes();
    proof {
        vstd::utf8::encode_utf8_decode_utf8(a@);
        vstd::utf8::encode_utf8_decode_utf8(b@);
    }
    if x.len() != y.len() {
        return false;
    }
    let mut i: usize = 0;
    while i < x.len()
        invariant
            x@.len() == y@.len(),
            x@ == a.spec_bytes(),
            y@ == b.spec_bytes(),
            i <= x@.len(),
            forall|k: int| 0 <= k < i ==> x@[k] == y@[k],
        decreases x@.len() - i,
    {
        if x[i] != y[i] {
            proof {
                assert(x@[i as int] != y@[i as int]);
                assert(x@ != y@);
            }
            return false;
        }
        i = i + 1;
    }
    assert(x@ =~= y@);
    true
}

impl Transaction {
    /// The transaction's fields as plain values.
    pub fn to_fields(&self) -> (r: TxFields)
        ensures
            r.deep_view() == fields_of(*self),
    {
        let mut ins: Vec<(String, i32, String)> = Vec::new();
        let mut i: usize = 0;
        while i < self.vin.len()
            invariant
                i <= self.vin@.len(),
                ins.deep_view() =~~= self.vin@.subrange(0, i as int).map_values(|x: TXInput| input_view(x)),
            decreases self.vin@.len() - i,
        {
            let x = &self.vin[i];
            let ghost prev = ins.deep_view();
            ins.push((x.txid.clone(), x.vout, x.script_sig.clone()));
            proof {
                let done = self.vin@.subrange(0, i + 1).map_values(|x: TXInput| input_view(x));
                assert(ins.deep_view() =~~= prev.push(input_view(self.vin@[i as int])));
                assert(done =~~= self.vin@.subrange(0, i as int).map_values(|x: TXInput| input_view(x)).push(input_view(self.vin@[i as int])));
            }
            i = i + 1;
        }
        let mut outs: Vec<(u32, String)> = Vec::new();
        let mut j: usize = 0;
        while j < self.vout.len()
            invariant
                j <= self.vout@.len(),
                outs.deep_view() =~~= self.vout@.subrange(0, j as int).map_values(|o: TXOutput| output_view(o)),
            decreases self.vout@.len() - j,
        {
            let o = &self.vout[j];
            let ghost prev = outs.deep_view();
            outs.push((o.value, o.script_pub_key.clone()));
            proof {
                let done = self.vout@.subrange(0, j + 1).map_values(|o: TXOutput| output_view(o));
                assert(outs.deep_view() =~~= prev.push(output_view(self.vout@[j as int])));
                assert(done =~~= self.vout@.subrange(0, j as int).map_values(|o: TXOutput| output_view(o)).push(output_view(self.vout@[j as int])));
            }
            j = j + 1;
        }
        assert(self.vin@.subrange(0, i as int) =~= self.vin@);
        assert(self.vout@.subrange(0, j as int) =~= self.vout@);
        let r = (self.id.clone(), ins, outs);
        assert(r.deep_view() =~~= fields_of(*self));
        r
    }

    /// The transaction that plain fields describe.
    pub fn from_fields(f: &TxFields) -> (r: Transaction)
        ensures
            fields_of(r) == f.deep_view(),
    {
        let id = f.0.clone();
        let ins = &f.1;
        let outs = &f.2;
        let mut vin: Vec<TXInput> = Vec::new();
        let mut i: usize = 0;
        while i < ins.len()
            invariant
                i <= ins@.len(),
                vin@.map_values(|x: TXInput| input_view(x)) =~= ins.deep_view().take(i as int),
            decreases ins@.len() - i,
        {
            let ghost prev = vin@.map_values(|x: TXInput| input_view(x));
            let x = TXInput { txid: ins[i].0.clone(), vout: ins[i].1, script_sig: ins[i].2.clone() };
            vin.push(x);
            assert(vin@.map_values(|x: TXInput| input_view(x)) =~= prev.push(input_view(x)));
            assert(ins.deep_view().take(i + 1) =~= ins.deep_view().take(i as int).push(ins.deep_view()[i as int]));
            i = i + 1;
        }
        let mut vout: Vec<TXOutput> = Vec::new();
        let mut j: usize = 0;
        while j < outs.len()
            invariant
                j <= outs@.len(),
                vout@.map_values(|o: TXOutput| output_view(o)) =~= outs.deep_view().take(j as int),
            decreases outs@.len() - j,
        {
            let ghost prev = vout@.map_values(|o: TXOutput| output_view(o));
            let o = TXOutput { value: outs[j].0, script_pub_key: outs[j].1.clone() };
            vout.push(o);
            assert(vout@.map_values(|o: TXOutput| output_view(o)) =~= prev.push(output_view(o)));
            assert(outs.deep_view().take(j + 1) =~= outs.deep_view().take(j as int).push(outs.deep_view()[j as int]));
            j = j + 1;
        }
        assert(ins.deep_view().take(i as int) =~= ins.deep_view());
        assert(outs.deep_view().take(j as int) =~= outs.deep_view());
        let r = Transaction { id, vin, vout };
        assert(fields_of(r) =~~= f.deep_view());
        r
    }

    /// A transaction with these inputs and outputs, identified by the digest of
    /// its encoding.
    pub fn new(vin: Vec<TXInput>, vout: Vec<TXOutput>) -> (r: Result<Transaction, BlockchainError>)
        ensures
            r is Ok,
            r matches Ok(tx) ==> tx.vin@ == vin@ && tx.vout@ == vout@ && tx.id@ == tx_id_of(vin@, vout@),
    {
        let mut tx = Transaction { id: String::new(), vin, vout };
        let f = tx.to_fields();
        match serialize_tx(&f) {
            Some(bytes) => {
                let digest = sha256(bytes.as_slice());
                tx.id = hex_encode(digest.as_slice());
                Ok(tx)
            },
            None => Err(BlockchainError::Serialization),
        }
    }

    /// The reward transaction: one sentinel input carrying `data`, one output of
    /// `SUBSIDY` locked to `to`.
    pub fn new_coinbase(to: String, data: String) -> (r: Result<Transaction, BlockchainError>)
        ensures
            r matches Ok(tx) ==> {
                &&& is_coinbase_spec(tx)
                &&& tx.vin@[0].script_sig@ == data@
                &&& tx.vout@.len() == 1
                &&& tx.vout@[0].value == SUBSIDY
                &&& tx.vout@[0].script_pub_key@ == to@
                &&& tx.id@ == tx_id_of(tx.vin@, tx.vout@)
            },
            r is Ok,
    {
        let vin = vec![TXInput { txid: String::new(), vout: -1, script_sig: data }];
        let vout = vec![TXOutput { value: SUBSIDY, script_pub_key: to }];
        Transaction::new(vin, vout)
    }

    /// Whether this is a coinbase transaction.
    pub fn is_coinbase(&self) -> (r: bool)
        ensures
            r == is_coinbase_spec(*self),
    {
        self.vin.len() == 1 && self.vin[0].txid.as_str().is_empty() && self.vin[0].vout == -1
    }
}

} // verus!
