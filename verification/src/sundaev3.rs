//! The sundae v3 pool datum: its shape as plutus data, and a verified parser
//! for it over the plutus value model.

use vstd::prelude::*;

use crate::plutus::{
    blake2b_256, blake2b_256_of, decode_plutus, plutus_value_of, pv_view, pv_views, PlutusValue,
    PlutusValueV,
};
use crate::point::clone_bytes;
use crate::tx::{Datum, DatumV, Tx, TxOutput, TxOutputV, TxV};

verus! {

/// A pool's stable identifier.
pub type Ident = Vec<u8>;

/// An asset class: a minting policy and an asset name under it.
pub type AssetClass = (Vec<u8>, Vec<u8>);

/// Model of an asset class.
pub type AssetClassV = (Seq<u8>, Seq<u8>);

/// Model of a plutus integer of unbounded size.
pub enum BigIntV {
    Small(i128),
    PosBytes(Seq<u8>),
    NegBytes(Seq<u8>),
}

/// A plutus integer of unbounded size: small enough to hold directly, or the
/// big-endian magnitude bytes of a positive or negative value.
pub enum BigIntValue {
    Small(i128),
    PosBytes(Vec<u8>),
    NegBytes(Vec<u8>),
}

impl View for BigIntValue {
    type V = BigIntV;

    open spec fn view(&self) -> BigIntV {
        match self {
            BigIntValue::Small(n) => BigIntV::Small(*n),
            BigIntValue::PosBytes(b) => BigIntV::PosBytes(b@),
            BigIntValue::NegBytes(b) => BigIntV::NegBytes(b@),
        }
    }
}

/// Model of a pool datum.
pub struct PoolDatumV {
    pub ident: Seq<u8>,
    pub assets: (AssetClassV, AssetClassV),
    pub circulating_lp: BigIntV,
}

/// The datum attached to a pool output: the pool's identifier, the pair of
/// asset classes it trades, and the circulating liquidity-provider tokens.
pub struct PoolDatum {
    pub ident: Ident,
    pub assets: (AssetClass, AssetClass),
    pub circulating_lp: BigIntValue,
}

impl View for PoolDatum {
    type V = PoolDatumV;

    open spec fn view(&self) -> PoolDatumV {
        PoolDatumV {
            ident: self.ident@,
            assets: (
                (self.assets.0.0@, self.assets.0.1@),
                (self.assets.1.0@, self.assets.1.1@),
            ),
            circulating_lp: self.circulating_lp@,
        }
    }
}

/// An asset class is encoded as a two-element array of byte strings.
pub open spec fn spec_parse_asset(v: PlutusValueV) -> Option<AssetClassV> {
    match v {
        PlutusValueV::Array(items) => if items.len() == 2 {
            match (items[0], items[1]) {
                (PlutusValueV::Bytes(p), PlutusValueV::Bytes(n)) => Some((p, n)),
                _ => None,
            }
        } else {
            None
        },
        _ => None,
    }
}

/// A pair of asset classes is encoded as a two-element array.
pub open spec fn spec_parse_asset_pair(v: PlutusValueV) -> Option<(AssetClassV, AssetClassV)> {
    match v {
        PlutusValueV::Array(items) => if items.len() == 2 {
            match (spec_parse_asset(items[0]), spec_parse_asset(items[1])) {
                (Some(a), Some(b)) => Some((a, b)),
                _ => None,
            }
        } else {
            None
        },
        _ => None,
    }
}

/// A plutus integer: small, or big as magnitude bytes.
pub open spec fn spec_parse_big_int(v: PlutusValueV) -> Option<BigIntV> {
    match v {
        PlutusValueV::Int(n) => Some(BigIntV::Small(n)),
        PlutusValueV::PosBytes(b) => Some(BigIntV::PosBytes(b)),
        PlutusValueV::NegBytes(b) => Some(BigIntV::NegBytes(b)),
        _ => None,
    }
}

/// A pool datum is encoded as constructor 0 with three fields: the identifier
/// bytes, the asset-class pair, and the circulating liquidity integer.
pub open spec fn spec_parse_pool_datum(v: PlutusValueV) -> Option<PoolDatumV> {
    match v {
        PlutusValueV::Constr(tag, fields) => if tag == 0 && fields.len() == 3 {
            match fields[0] {
                PlutusValueV::Bytes(id) => match (
                    spec_parse_asset_pair(fields[1]),
                    spec_parse_big_int(fields[2]),
                ) {
                    (Some(assets), Some(lp)) => Some(
                        PoolDatumV { ident: id, assets, circulating_lp: lp },
                    ),
                    _ => None,
                },
                _ => None,
            }
        } else {
            None
        },
        _ => None,
    }
}

/// The element-wise reading of a modelled sequence of plutus values.
proof fn lemma_pv_views_index(items: Seq<PlutusValue>, i: int)
    requires
        0 <= i < items.len(),
    ensures
        pv_views(items).len() == items.len(),
        pv_views(items)[i] == pv_view(items[i]),
    decreases items.len(),
{
    if i > 0 {
        lemma_pv_views_index(items.drop_first(), i - 1);
    } else {
        lemma_pv_views_len(items.drop_first());
    }
}

/// The modelled sequence has the length of its source.
proof fn lemma_pv_views_len(items: Seq<PlutusValue>)
    ensures
        pv_views(items).len() == items.len(),
    decreases items.len(),
{
    if items.len() > 0 {
        lemma_pv_views_len(items.drop_first());
    }
}

/// Parses an asset class from a plutus value.
fn parse_asset(v: &PlutusValue) -> (r: Option<AssetClass>)
    ensures
        match r {
            Some(a) => spec_parse_asset(pv_view(*v)) == Some(((a.0@, a.1@))),
            None => spec_parse_asset(pv_view(*v)) is None,
        },
{
    match v {
        PlutusValue::Array(items) => {
            proof {
                lemma_pv_views_len(items@);
            }
            if items.len() != 2 {
                return None;
            }
            proof {
                lemma_pv_views_index(items@, 0);
                lemma_pv_views_index(items@, 1);
            }
            let p = match &items[0] {
                PlutusValue::Bytes(b) => clone_bytes(b),
                _ => {
                    return None;
                },
            };
            let n = match &items[1] {
                PlutusValue::Bytes(b) => clone_bytes(b),
                _ => {
                    return None;
                },
            };
            Some((p, n))
        },
        _ => None,
    }
}

/// Parses a pair of asset classes from a plutus value.
fn parse_asset_pair(v: &PlutusValue) -> (r: Option<(AssetClass, AssetClass)>)
    ensures
        match r {
            Some(pair) => spec_parse_asset_pair(pv_view(*v)) == Some(
                (((pair.0.0@, pair.0.1@), (pair.1.0@, pair.1.1@))),
            ),
            None => spec_parse_asset_pair(pv_view(*v)) is None,
        },
{
    match v {
        PlutusValue::Array(items) => {
            proof {
                lemma_pv_views_len(items@);
            }
            if items.len() != 2 {
                return None;
            }
            proof {
                lemma_pv_views_index(items@, 0);
                lemma_pv_views_index(items@, 1);
            }
            let a = match parse_asset(&items[0]) {
                Some(a) => a,
                None => {
                    return None;
                },
            };
            let b = match parse_asset(&items[1]) {
                Some(b) => b,
                None => {
                    return None;
                },
            };
            Some((a, b))
        },
        _ => None,
    }
}

/// Parses a plutus integer from a plutus value.
fn parse_big_int(v: &PlutusValue) -> (r: Option<BigIntValue>)
    ensures
        match r {
            Some(n) => spec_parse_big_int(pv_view(*v)) == Some(n@),
            None => spec_parse_big_int(pv_view(*v)) is None,
        },
{
    match v {
        PlutusValue::Int(n) => Some(BigIntValue::Small(*n)),
        PlutusValue::PosBytes(b) => Some(BigIntValue::PosBytes(clone_bytes(b))),
        PlutusValue::NegBytes(b) => Some(BigIntValue::NegBytes(clone_bytes(b))),
        _ => None,
    }
}

/// Parses a pool datum from a plutus value.
pub fn parse_pool_datum(v: &PlutusValue) -> (r: Option<PoolDatum>)
    ensures
        match r {
            Some(pd) => spec_parse_pool_datum(pv_view(*v)) == Some(pd@),
            None => spec_parse_pool_datum(pv_view(*v)) is None,
        },
{
    match v {
        PlutusValue::Constr(tag, fields) => {
            proof {
                lemma_pv_views_len(fields@);
            }
            if *tag != 0 || fields.len() != 3 {
                return None;
            }
            proof {
                lemma_pv_views_index(fields@, 0);
                lemma_pv_views_index(fields@, 1);
                lemma_pv_views_index(fields@, 2);
            }
            let ident = match &fields[0] {
                PlutusValue::Bytes(b) => clone_bytes(b),
                _ => {
                    return None;
                },
            };
            let assets = match parse_asset_pair(&fields[1]) {
                Some(a) => a,
                None => {
                    return None;
                },
            };
            let lp = match parse_big_int(&fields[2]) {
                Some(n) => n,
                None => {
                    return None;
                },
            };
            Some(PoolDatum { ident, assets, circulating_lp: lp })
        },
        _ => None,
    }
}

/// What decoding a raw datum and reading it as a pool datum answers.
pub open spec fn spec_decode_pool_datum(raw: Seq<u8>) -> Option<PoolDatumV> {
    match plutus_value_of(raw) {
        Some(v) => spec_parse_pool_datum(v),
        None => None,
    }
}

/// Decodes a raw datum encoding and reads it as a pool datum.
pub fn decode_pool_datum(raw: &Vec<u8>) -> (r: Option<PoolDatum>)
    ensures
        match r {
            Some(pd) => spec_decode_pool_datum(raw@) == Some(pd@),
            None => spec_decode_pool_datum(raw@) is None,
        },
{
    match decode_plutus(raw) {
        Some(v) => parse_pool_datum(&v),
        None => None,
    }
}

/// The pool datum found among the witness datums for digest `h`: the first
/// datum whose blake2b-256 digest is `h` and that also decodes and parses as
/// a pool datum; one that matches the digest but does not parse is passed
/// over and the search goes on.
pub open spec fn lookup_pool_datum(datums: Seq<Seq<u8>>, h: Seq<u8>) -> Option<PoolDatumV>
    decreases datums.len(),
{
    if datums.len() == 0 {
        None
    } else if blake2b_256_of(datums[0]) == h && spec_decode_pool_datum(datums[0]) is Some {
        spec_decode_pool_datum(datums[0])
    } else {
        lookup_pool_datum(datums.drop_first(), h)
    }
}

/// The pool datum an output carries, resolved against the transaction's
/// witness set: an inline datum decodes directly; a hash reference is looked
/// up among the witness datums.
pub open spec fn spec_parse_datum(o: TxOutputV, t: TxV) -> Option<PoolDatumV> {
    match o.datum {
        None => None,
        Some(DatumV::Inline(raw)) => spec_decode_pool_datum(raw),
        Some(DatumV::Hashed(h)) => lookup_pool_datum(t.datums, h),
    }
}

/// Resolves and parses the pool datum of one output of a transaction: an
/// inline datum is decoded directly; a hash-referenced datum is searched for
/// among the transaction's witness datums, by blake2b-256 digest, until one
/// is found that also parses.
pub fn parse_datum(output: &TxOutput, tx: &Tx) -> (r: Option<PoolDatum>)
    ensures
        match r {
            Some(pd) => spec_parse_datum(output@, tx@) == Some(pd@),
            None => spec_parse_datum(output@, tx@) is None,
        },
{
    match &output.datum {
        None => None,
        Some(Datum::Inline(raw)) => decode_pool_datum(raw),
        Some(Datum::Hashed(h)) => {
            let ghost all = tx@.datums;
            let mut i: usize = 0;
            proof {
                assert(all =~= all.skip(0));
            }
            while i < tx.datums.len()
                invariant
                    i <= tx.datums@.len(),
                    all == tx@.datums,
                    all.len() == tx.datums@.len(),
                    forall|j: int| 0 <= j < all.len() ==> all[j] == tx.datums@[j]@,
                    output@.datum == Some(DatumV::Hashed(h@)),
                    lookup_pool_datum(all, h@) == lookup_pool_datum(all.skip(i as int), h@),
                decreases tx.datums@.len() - i,
            {
                proof {
                    assert(all.skip(i as int)[0] == all[i as int]);
                }
                let digest = blake2b_256(&tx.datums[i]);
                if crate::point::bytes_eq(&digest, h) {
                    match decode_pool_datum(&tx.datums[i]) {
                        Some(pd) => {
                            proof {
                                assert(lookup_pool_datum(all.skip(i as int), h@) == Some(pd@));
                            }
                            return Some(pd);
                        },
                        None => {},
                    }
                }
                i = i + 1;
                proof {
                    assert(all.skip(i - 1).drop_first() =~= all.skip(i as int));
                }
            }
            proof {
                assert(all.skip(all.len() as int).len() == 0);
            }
            None
        },
    }
}

} // verus!
