use acropolis::consumers::{PoolIndex, WalletIndex};
use acropolis::hexstr::{parse_block_hash, BlockHashError};
use acropolis::indexer::{ChainIndexer, Liveness};
use acropolis::point::{BlockHash, BlockInfo, Point};
use acropolis::store::InMemoryCursorStore;
use acropolis::index::{ManagedIndex, Paired};
use acropolis::sundaev3::{parse_datum, BigIntValue};
use acropolis::tx::{Asset, Datum, OutputRef, Tx, TxOutput, TxValue};

use pallas_codec::utils::{Int, MaybeIndefArray};
use pallas_primitives::{BigInt, BoundedBytes, Constr, PlutusData};

fn bb(v: Vec<u8>) -> PlutusData {
    PlutusData::BoundedBytes(BoundedBytes::from(v))
}

fn arr(items: Vec<PlutusData>) -> PlutusData {
    PlutusData::Array(MaybeIndefArray::Indef(items))
}

/// The raw encoding of a pool datum: constructor 0 (tag 121) with the
/// identifier, the asset-class pair, and the circulating liquidity.
fn pool_datum_bytes(ident: Vec<u8>, lp: i64) -> Vec<u8> {
    let datum = PlutusData::Constr(Constr {
        tag: 121,
        any_constructor: None,
        fields: MaybeIndefArray::Indef(vec![
            bb(ident),
            arr(vec![
                arr(vec![bb(vec![]), bb(vec![])]),
                arr(vec![bb(vec![0xaa; 28]), bb(b"TOKEN".to_vec())]),
            ]),
            PlutusData::BigInt(BigInt::Int(Int::from(lp))),
        ]),
    });
    pallas_codec::minicbor::to_vec(&datum).unwrap()
}

fn info(slot: u64) -> BlockInfo {
    BlockInfo { slot, hash: BlockHash { bytes: vec![slot as u8; 32] }, height: slot }
}

fn val(coin: u64) -> TxValue {
    TxValue { coin, assets: vec![] }
}

fn out_with(datum: Option<Datum>) -> TxOutput {
    TxOutput { address: vec![7; 29], value: val(2_000_000), datum }
}

fn tx_with(outputs: Vec<TxOutput>, datums: Vec<Vec<u8>>) -> Tx {
    Tx { hash: vec![0x55; 32], inputs: vec![], outputs, datums }
}

#[test]
fn parses_inline_pool_datum() {
    let raw = pool_datum_bytes(vec![1, 2, 3], 1_000_000);
    let tx = tx_with(vec![out_with(Some(Datum::Inline(raw)))], vec![]);
    let pd = parse_datum(&tx.outputs[0], &tx).unwrap();
    assert_eq!(pd.ident, vec![1, 2, 3]);
    assert_eq!(pd.assets.1 .1, b"TOKEN".to_vec());
    assert!(matches!(pd.circulating_lp, BigIntValue::Small(1_000_000)));
}

#[test]
fn parses_hash_referenced_pool_datum() {
    let raw = pool_datum_bytes(vec![9], 5);
    let digest = pallas_crypto::hash::Hasher::<256>::hash(&raw).to_vec();
    let tx = tx_with(
        vec![out_with(Some(Datum::Hashed(digest)))],
        vec![vec![1, 2, 3], raw.clone()],
    );
    let pd = parse_datum(&tx.outputs[0], &tx).unwrap();
    assert_eq!(pd.ident, vec![9]);
}

#[test]
fn rejects_datum_whose_hash_matches_nothing() {
    let raw = pool_datum_bytes(vec![9], 5);
    // a made-up digest: were hashing the identity, raw == digest would match
    let tx = tx_with(vec![out_with(Some(Datum::Hashed(raw.clone())))], vec![raw]);
    assert!(parse_datum(&tx.outputs[0], &tx).is_none());
}

#[test]
fn rejects_malformed_pool_datum() {
    // constructor 1 instead of 0: tag 122
    let datum = PlutusData::Constr(Constr {
        tag: 122,
        any_constructor: None,
        fields: MaybeIndefArray::Indef(vec![bb(vec![1])]),
    });
    let raw = pallas_codec::minicbor::to_vec(&datum).unwrap();
    let tx = tx_with(vec![out_with(Some(Datum::Inline(raw)))], vec![]);
    assert!(parse_datum(&tx.outputs[0], &tx).is_none());
    // bytes that are no plutus encoding at all
    let tx = tx_with(vec![out_with(Some(Datum::Inline(vec![0xff, 0x00])))], vec![]);
    assert!(parse_datum(&tx.outputs[0], &tx).is_none());
    // no datum on the output
    let tx = tx_with(vec![out_with(None)], vec![]);
    assert!(parse_datum(&tx.outputs[0], &tx).is_none());
}

#[test]
fn pool_index_end_to_end_with_rollback() {
    let mut ix = ChainIndexer::new(InMemoryCursorStore::new(vec![]));
    ix.add_index(PoolIndex::new(), Point::Origin, false);

    // a block at slot 5 creates a pool the index cares about
    let raw = pool_datum_bytes(vec![42], 77);
    let tx = tx_with(vec![out_with(Some(Datum::Inline(raw)))], vec![]);
    ix.handle_block_applied(&info(5), &vec![tx]);
    assert!(matches!(&ix.consumers[0].cursor, Point::Specific(5, _)));
    assert_eq!(ix.consumers[0].index.pools.len(), 1);
    assert_eq!(ix.consumers[0].index.pools[0].0, vec![42]);
    assert_eq!(ix.consumers[0].index.pools[0].1.created_at, 5);

    // the chain rolls back to slot 3: the pool from slot 5 is discarded
    ix.handle_rolled_back(&info(3));
    assert!(matches!(&ix.consumers[0].cursor, Point::Specific(3, _)));
    assert_eq!(ix.consumers[0].live, Liveness::Active);
    assert!(ix.consumers[0].index.pools.is_empty());
}

#[test]
fn pool_index_replaces_a_pool_by_identifier() {
    let mut pool = PoolIndex::new();
    let tx1 = tx_with(
        vec![out_with(Some(Datum::Inline(pool_datum_bytes(vec![1], 10))))],
        vec![],
    );
    let tx2 = tx_with(
        vec![
            out_with(Some(Datum::Inline(pool_datum_bytes(vec![1], 20)))),
            out_with(Some(Datum::Inline(pool_datum_bytes(vec![2], 30)))),
        ],
        vec![],
    );
    pool.handle_onchain_tx(&info(5), &tx1).unwrap();
    pool.handle_onchain_tx(&info(6), &tx2).unwrap();
    assert_eq!(pool.pools.len(), 2);
    assert_eq!(pool.pools[0].0, vec![1]);
    assert_eq!(pool.pools[0].1.created_at, 6);
    assert!(matches!(pool.pools[0].1.datum.circulating_lp, BigIntValue::Small(20)));
    assert_eq!(pool.pools[1].0, vec![2]);
}

#[test]
fn wallet_index_tracks_unspent_outputs() {
    let address = vec![7; 29];
    let mut wallet = WalletIndex::new(address.clone());

    // one transaction pays the address (output 1 of 2)
    let tx1 = Tx {
        hash: vec![0x11; 32],
        inputs: vec![],
        outputs: vec![
            TxOutput { address: vec![9; 29], value: val(5), datum: None },
            TxOutput {
                address: address.clone(),
                value: TxValue {
                    coin: 42,
                    assets: vec![Asset { policy: vec![0xbb; 28], name: b"TOKEN".to_vec(), amount: 9 }],
                },
                datum: None,
            },
        ],
        datums: vec![],
    };
    wallet.handle_onchain_tx(&info(1), &tx1).unwrap();
    assert_eq!(wallet.utxos.len(), 1);
    assert_eq!(wallet.utxos[0].0.tx_hash, vec![0x11; 32]);
    assert_eq!(wallet.utxos[0].0.index, 1);
    assert_eq!(wallet.utxos[0].1.coin, 42);
    // the native assets travel with the output's value
    assert_eq!(wallet.utxos[0].1.assets.len(), 1);
    assert_eq!(wallet.utxos[0].1.assets[0].name, b"TOKEN".to_vec());
    assert_eq!(wallet.utxos[0].1.assets[0].amount, 9);

    // a later transaction spends it and pays the address again
    let tx2 = Tx {
        hash: vec![0x22; 32],
        inputs: vec![OutputRef { tx_hash: vec![0x11; 32], index: 1 }],
        outputs: vec![TxOutput { address: address.clone(), value: val(40), datum: None }],
        datums: vec![],
    };
    wallet.handle_onchain_tx(&info(2), &tx2).unwrap();
    assert_eq!(wallet.utxos.len(), 1);
    assert_eq!(wallet.utxos[0].0.tx_hash, vec![0x22; 32]);
    assert_eq!(wallet.utxos[0].0.index, 0);
    assert_eq!(wallet.utxos[0].1.coin, 40);
}

#[test]
fn parses_a_well_formed_block_hash() {
    let hex64 = "000102030405060708090a0b0c0d0e0f101112131415161718191a1b1c1d1eFF";
    let h = parse_block_hash(hex64).unwrap();
    assert_eq!(h.bytes.len(), 32);
    assert_eq!(h.bytes[0], 0);
    assert_eq!(h.bytes[1], 1);
    assert_eq!(h.bytes[31], 0xff);
}

#[test]
fn rejects_block_hashes_of_the_wrong_shape() {
    // wrong length: the error names the expected and found lengths
    assert!(matches!(
        parse_block_hash("0011"),
        Err(BlockHashError::WrongLength { expected: 32, found: 2 })
    ));
    assert!(matches!(
        parse_block_hash(""),
        Err(BlockHashError::WrongLength { expected: 32, found: 0 })
    ));
    // odd length and non-hex digits are no hex string at all
    assert!(matches!(parse_block_hash("00112"), Err(BlockHashError::NotHex)));
    assert!(matches!(
        parse_block_hash("zz0102030405060708090a0b0c0d0e0f101112131415161718191a1b1c1d1e1f"),
        Err(BlockHashError::NotHex)
    ));
}

#[test]
fn paired_consumers_share_one_engine() {
    let address = vec![7; 29];
    let mut ix = ChainIndexer::new(InMemoryCursorStore::new(vec![]));
    ix.add_index(
        Paired::First(PoolIndex::new()),
        Point::Origin,
        false,
    );
    ix.add_index(
        Paired::<PoolIndex, WalletIndex>::Second(WalletIndex::new(address.clone())),
        Point::Origin,
        false,
    );
    assert_eq!(ix.consumers[0].name, "pools");
    assert_eq!(ix.consumers[1].name, "wallet");

    // one transaction carries a pool datum and pays the wallet's address
    let mut tx = tx_with(
        vec![
            TxOutput {
                address: vec![9; 29],
                value: val(2_000_000),
                datum: Some(Datum::Inline(pool_datum_bytes(vec![3], 9))),
            },
            TxOutput { address: address.clone(), value: val(11), datum: None },
        ],
        vec![],
    );
    tx.hash = vec![0x33; 32];
    ix.handle_block_applied(&info(8), &vec![tx]);

    match &ix.consumers[0].index {
        Paired::First(pool) => {
            assert_eq!(pool.pools.len(), 1);
            assert_eq!(pool.pools[0].0, vec![3]);
        }
        Paired::Second(_) => panic!("first entry holds the pool index"),
    }
    match &ix.consumers[1].index {
        Paired::Second(wallet) => {
            assert_eq!(wallet.utxos.len(), 1);
            assert_eq!(wallet.utxos[0].0.index, 1);
            assert_eq!(wallet.utxos[0].1.coin, 11);
        }
        Paired::First(_) => panic!("second entry holds the wallet index"),
    }
}

#[test]
fn hash_lookup_passes_over_a_datum_that_does_not_parse() {
    // a well-formed plutus value that is no pool datum
    let not_a_pool = pallas_codec::minicbor::to_vec(&PlutusData::BigInt(BigInt::Int(Int::from(
        7i64,
    ))))
    .unwrap();
    let digest = pallas_crypto::hash::Hasher::<256>::hash(&not_a_pool).to_vec();
    // the only digest match fails to parse: the search moves on and ends empty
    let tx = tx_with(
        vec![out_with(Some(Datum::Hashed(digest)))],
        vec![not_a_pool, pool_datum_bytes(vec![5], 1)],
    );
    assert!(parse_datum(&tx.outputs[0], &tx).is_none());
}
