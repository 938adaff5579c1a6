//! The shape of a ledger transaction as consumers see it: its hash, its
//! outputs (address, coin value, optional datum) and its inputs (references
//! to previously produced outputs).

use vstd::prelude::*;

verus! {

/// Model of a reference to a previously produced output.
pub struct OutputRefV {
    pub tx_hash: Seq<u8>,
    pub index: u64,
}

/// A reference to a previously produced output: the producing transaction's
/// hash and the position of the output in that transaction.
pub struct OutputRef {
    pub tx_hash: Vec<u8>,
    pub index: u64,
}

impl View for OutputRef {
    type V = OutputRefV;

    open spec fn view(&self) -> OutputRefV {
        OutputRefV { tx_hash: self.tx_hash@, index: self.index }
    }
}

impl OutputRef {
    /// Decides whether two references name the same output.
    pub fn same_ref(&self, other: &OutputRef) -> (r: bool)
        ensures
            r == (self@ == other@),
    {
        let r = self.index == other.index && crate::point::bytes_eq(&self.tx_hash, &other.tx_hash);
        proof {
            if self.index == other.index && self.tx_hash@ == other.tx_hash@ {
                assert(self@ == other@);
            }
        }
        r
    }
}

/// Model of one native asset held by an output.
pub struct AssetV {
    pub policy: Seq<u8>,
    pub name: Seq<u8>,
    pub amount: u64,
}

/// One native asset held by an output: its minting policy, its name under
/// that policy, and the amount held.
pub struct Asset {
    pub policy: Vec<u8>,
    pub name: Vec<u8>,
    pub amount: u64,
}

impl View for Asset {
    type V = AssetV;

    open spec fn view(&self) -> AssetV {
        AssetV { policy: self.policy@, name: self.name@, amount: self.amount }
    }
}

/// Model of the value an output carries.
pub struct TxValueV {
    pub coin: u64,
    pub assets: Seq<AssetV>,
}

/// The value an output carries: its coin and its native assets.
pub struct TxValue {
    pub coin: u64,
    pub assets: Vec<Asset>,
}

impl View for TxValue {
    type V = TxValueV;

    open spec fn view(&self) -> TxValueV {
        TxValueV { coin: self.coin, assets: self.assets@.map(|i: int, a: Asset| a@) }
    }
}

/// Copy of an output value, field by field.
pub fn clone_tx_value(v: &TxValue) -> (r: TxValue)
    ensures
        r@ == v@,
{
    let mut assets: Vec<Asset> = Vec::new();
    let mut i: usize = 0;
    while i < v.assets.len()
        invariant
            i <= v.assets@.len(),
            assets@.len() == i,
            forall|j: int| 0 <= j < i ==> (#[trigger] assets@[j])@ == v.assets@[j]@,
        decreases v.assets@.len() - i,
    {
        assets.push(
            Asset {
                policy: crate::point::clone_bytes(&v.assets[i].policy),
                name: crate::point::clone_bytes(&v.assets[i].name),
                amount: v.assets[i].amount,
            },
        );
        i = i + 1;
    }
    let r = TxValue { coin: v.coin, assets };
    proof {
        assert(r@.assets =~= v@.assets);
        assert(r@ == v@);
    }
    r
}

/// Model of the auxiliary data attached to an output.
pub enum DatumV {
    /// The datum itself, carried inline as its raw encoding.
    Inline(Seq<u8>),
    /// Only the hash of the datum; the encoding travels in the transaction's
    /// witness set.
    Hashed(Seq<u8>),
}

/// Auxiliary data attached to an output, either inline or by hash.
pub enum Datum {
    Inline(Vec<u8>),
    Hashed(Vec<u8>),
}

impl View for Datum {
    type V = DatumV;

    open spec fn view(&self) -> DatumV {
        match self {
            Datum::Inline(d) => DatumV::Inline(d@),
            Datum::Hashed(h) => DatumV::Hashed(h@),
        }
    }
}

/// Model of one transaction output.
pub struct TxOutputV {
    pub address: Seq<u8>,
    pub value: TxValueV,
    pub datum: Option<DatumV>,
}

/// One transaction output: the receiving address (raw bytes), the value it
/// carries, and optional auxiliary data.
pub struct TxOutput {
    pub address: Vec<u8>,
    pub value: TxValue,
    pub datum: Option<Datum>,
}

impl View for TxOutput {
    type V = TxOutputV;

    open spec fn view(&self) -> TxOutputV {
        TxOutputV {
            address: self.address@,
            value: self.value@,
            datum: match &self.datum {
                Some(d) => Some(d@),
                None => None,
            },
        }
    }
}

/// Model of one ledger transaction.
pub struct TxV {
    pub hash: Seq<u8>,
    pub inputs: Seq<OutputRefV>,
    pub outputs: Seq<TxOutputV>,
    pub datums: Seq<Seq<u8>>,
}

/// An already-deserialized ledger transaction, reduced to what consumers
/// read: its own hash, its inputs, its outputs, and the raw encodings of the
/// datums carried in its witness set.
pub struct Tx {
    pub hash: Vec<u8>,
    pub inputs: Vec<OutputRef>,
    pub outputs: Vec<TxOutput>,
    pub datums: Vec<Vec<u8>>,
}

impl View for Tx {
    type V = TxV;

    open spec fn view(&self) -> TxV {
        TxV {
            hash: self.hash@,
            inputs: self.inputs@.map(|i: int, r: OutputRef| r@),
            outputs: self.outputs@.map(|i: int, o: TxOutput| o@),
            datums: self.datums@.map(|i: int, d: Vec<u8>| d@),
        }
    }
}

/// Whether the transaction spends the referenced output.
pub open spec fn spends(tx: TxV, r: OutputRefV) -> bool {
    exists|i: int| 0 <= i < tx.inputs.len() && tx.inputs[i] == r
}

impl Tx {
    /// Decides whether this transaction spends the referenced output.
    pub fn spends_ref(&self, r: &OutputRef) -> (b: bool)
        ensures
            b == spends(self@, r@),
    {
        let mut i: usize = 0;
        while i < self.inputs.len()
            invariant
                i <= self.inputs@.len(),
                self@.inputs.len() == self.inputs@.len(),
                forall|j: int| 0 <= j < i ==> self@.inputs[j] != r@,
            decreases self.inputs@.len() - i,
        {
            if self.inputs[i].same_ref(r) {
                assert(self@.inputs[i as int] == r@);
                return true;
            }
            i = i + 1;
        }
        false
    }
}

} // verus!
