//! A model of plutus data values, the trusted decoding of their wire
//! encoding, and the blake2b digest used to match hash-referenced datums.

use vstd::prelude::*;

verus! {

broadcast use vstd::std_specs::vec::group_vec_axioms;

/// Mathematical model of a plutus data value.
pub enum PlutusValueV {
    Constr(u64, Seq<PlutusValueV>),
    Pairs(Seq<(PlutusValueV, PlutusValueV)>),
    Array(Seq<PlutusValueV>),
    Int(i128),
    PosBytes(Seq<u8>),
    NegBytes(Seq<u8>),
    Bytes(Seq<u8>),
}

/// A plutus data value: a constructor with its index and fields, a map, an
/// array, an integer (small, or big as magnitude bytes), or a byte string.
pub enum PlutusValue {
    Constr(u64, Vec<PlutusValue>),
    Pairs(Vec<(PlutusValue, PlutusValue)>),
    Array(Vec<PlutusValue>),
    Int(i128),
    PosBytes(Vec<u8>),
    NegBytes(Vec<u8>),
    Bytes(Vec<u8>),
}

/// The model of a plutus value.
pub open spec fn pv_view(v: PlutusValue) -> PlutusValueV
    decreases v,
{
    match v {
        PlutusValue::Constr(tag, fields) => PlutusValueV::Constr(tag, pv_views(fields@)),
        PlutusValue::Pairs(pairs) => PlutusValueV::Pairs(pv_pair_views(pairs@)),
        PlutusValue::Array(items) => PlutusValueV::Array(pv_views(items@)),
        PlutusValue::Int(n) => PlutusValueV::Int(n),
        PlutusValue::PosBytes(b) => PlutusValueV::PosBytes(b@),
        PlutusValue::NegBytes(b) => PlutusValueV::NegBytes(b@),
        PlutusValue::Bytes(b) => PlutusValueV::Bytes(b@),
    }
}

/// The models of a sequence of plutus values, element by element.
pub open spec fn pv_views(items: Seq<PlutusValue>) -> Seq<PlutusValueV>
    decreases items,
{
    if items.len() == 0 {
        Seq::empty()
    } else {
        seq![pv_view(items[0])] + pv_views(items.drop_first())
    }
}

/// The models of a sequence of pairs of plutus values, element by element.
pub open spec fn pv_pair_views(pairs: Seq<(PlutusValue, PlutusValue)>) -> Seq<
    (PlutusValueV, PlutusValueV),
>
    decreases pairs,
{
    if pairs.len() == 0 {
        Seq::empty()
    } else {
        seq![(pv_view(pairs[0].0), pv_view(pairs[0].1))] + pv_pair_views(pairs.drop_first())
    }
}

/// The plutus value a byte string decodes to, if it is a valid encoding:
/// what `PlutusData`'s CBOR codec answers, as a function of the bytes alone.
pub uninterp spec fn plutus_value_of(raw: Seq<u8>) -> Option<PlutusValueV>;

/// The blake2b-256 digest of a byte string, as pallas computes it: a function
/// of the bytes alone.
pub uninterp spec fn blake2b_256_of(bytes: Seq<u8>) -> Seq<u8>;

#[verifier::external_type_specification]
#[verifier::external_body]
pub struct ExPlutusData(pallas_primitives::PlutusData);

#[verifier::external_type_specification]
#[verifier::external_body]
pub struct ExBigInt(pallas_primitives::BigInt);

#[verifier::external_type_specification]
#[verifier::external_body]
#[verifier::reject_recursive_types(A)]
pub struct ExMaybeIndefArray<A>(pallas_codec::utils::MaybeIndefArray<A>);

/// Relies on pallas' `PlutusData`: rebuilds the decoded tree as the library's
/// own value, one arm per variant, moving fields. `constr_index` is total on
/// decoded constructors, whose tags the codec has already checked.
#[verifier::external_body]
fn plutus_value_from(d: pallas_primitives::PlutusData) -> PlutusValue {
    match d {
        pallas_primitives::PlutusData::Constr(c) => PlutusValue::Constr(
            c.constr_index(),
            values_from(c.fields),
        ),
        pallas_primitives::PlutusData::Map(kvs) => PlutusValue::Pairs(pairs_from(kvs.to_vec())),
        pallas_primitives::PlutusData::Array(xs) => PlutusValue::Array(values_from(xs)),
        pallas_primitives::PlutusData::BigInt(b) => big_int_from(b),
        pallas_primitives::PlutusData::BoundedBytes(b) => PlutusValue::Bytes(b.to_vec()),
    }
}

/// Relies on pallas' `MaybeIndefArray`: the items, converted one by one,
/// whether the array was encoded definite or indefinite.
#[verifier::external_body]
fn values_from(
    xs: pallas_codec::utils::MaybeIndefArray<pallas_primitives::PlutusData>,
) -> Vec<PlutusValue> {
    match xs {
        pallas_codec::utils::MaybeIndefArray::Def(v) => v.into_iter().map(plutus_value_from).collect(),
        pallas_codec::utils::MaybeIndefArray::Indef(v) => v.into_iter().map(plutus_value_from).collect(),
    }
}

/// Converts the pairs of a decoded plutus map one by one.
#[verifier::external_body]
fn pairs_from(
    kvs: Vec<(pallas_primitives::PlutusData, pallas_primitives::PlutusData)>,
) -> Vec<(PlutusValue, PlutusValue)> {
    kvs.into_iter().map(|(k, v)| (plutus_value_from(k), plutus_value_from(v))).collect()
}

/// Relies on pallas' `BigInt`: one arm per variant, the small case through
/// its `i128` conversion, the big cases as their magnitude bytes.
#[verifier::external_body]
fn big_int_from(b: pallas_primitives::BigInt) -> PlutusValue {
    match b {
        pallas_primitives::BigInt::Int(i) => PlutusValue::Int(i128::from(i)),
        pallas_primitives::BigInt::BigUInt(x) => PlutusValue::PosBytes(x.to_vec()),
        pallas_primitives::BigInt::BigNInt(x) => PlutusValue::NegBytes(x.to_vec()),
    }
}

/// Relies on pallas' CBOR codec for `PlutusData` (through pallas_codec's
/// minicbor): whether a byte string is a valid encoding, and which value it
/// encodes, depend on the bytes alone.
#[verifier::external_body]
pub(crate) fn decode_plutus(raw: &Vec<u8>) -> (r: Option<PlutusValue>)
    ensures
        match r {
            Some(v) => plutus_value_of(raw@) == Some(pv_view(v)),
            None => plutus_value_of(raw@) is None,
        },
{
    match pallas_codec::minicbor::decode::<pallas_primitives::PlutusData>(raw.as_slice()) {
        Ok(d) => Some(plutus_value_from(d)),
        Err(_) => None,
    }
}

/// Relies on pallas_crypto's `Hasher::<256>::hash`: the blake2b-256 digest of
/// the bytes, 32 bytes long, a function of the bytes alone.
#[verifier::external_body]
pub(crate) fn blake2b_256(bytes: &Vec<u8>) -> (r: Vec<u8>)
    ensures
        r@ == blake2b_256_of(bytes@),
        r@.len() == 32,
{
    pallas_crypto::hash::Hasher::<256>::hash(bytes.as_slice()).to_vec()
}

} // verus!
