//! Example consumers: a pool index deriving a table of pools from their
//! datums, a wallet index tracking unspent outputs of one address, and a
//! probe index that records what it was dispatched and can be told to fail.

use vstd::prelude::*;

use crate::index::{IndexError, ManagedIndex};
use crate::point::{clone_bytes, bytes_eq, BlockInfo};
use crate::sundaev3::{parse_datum, spec_parse_datum, Ident, PoolDatum, PoolDatumV};
use crate::tx::{clone_tx_value, spends, OutputRef, OutputRefV, Tx, TxV, TxValue, TxValueV};

verus! {

/// What the pool index remembers of one pool.
pub struct PoolInfo {
    pub created_at: u64,
    pub datum: PoolDatum,
}

/// Model of what the pool index remembers of one pool.
pub struct PoolInfoV {
    pub created_at: u64,
    pub datum: PoolDatumV,
}

impl View for PoolInfo {
    type V = PoolInfoV;

    open spec fn view(&self) -> PoolInfoV {
        PoolInfoV { created_at: self.created_at, datum: self.datum@ }
    }
}

/// The model of a pool table: identifier and record, in table order.
pub open spec fn pool_view(s: Seq<(Ident, PoolInfo)>) -> Seq<(Seq<u8>, PoolInfoV)> {
    s.map(|i: int, e: (Ident, PoolInfo)| (e.0@, e.1@))
}

/// The table after recording `info` under `id`: the first row with that
/// identifier is replaced, or a new row is appended when none exists.
pub open spec fn upsert_pool(
    s: Seq<(Seq<u8>, PoolInfoV)>,
    id: Seq<u8>,
    info: PoolInfoV,
) -> Seq<(Seq<u8>, PoolInfoV)>
    decreases s.len(),
{
    if s.len() == 0 {
        seq![(id, info)]
    } else if s[0].0 == id {
        seq![(id, info)] + s.drop_first()
    } else {
        seq![s[0]] + upsert_pool(s.drop_first(), id, info)
    }
}

/// The table after applying the first `n` outputs of a transaction at `slot`:
/// each output carrying a pool datum records that pool, later outputs last.
pub open spec fn apply_tx_pools(
    pools: Seq<(Seq<u8>, PoolInfoV)>,
    t: TxV,
    slot: u64,
    n: int,
) -> Seq<(Seq<u8>, PoolInfoV)>
    decreases n,
{
    if n <= 0 {
        pools
    } else {
        let prev = apply_tx_pools(pools, t, slot, n - 1);
        match spec_parse_datum(t.outputs[n - 1], t) {
            Some(pd) => upsert_pool(
                prev,
                pd.ident,
                PoolInfoV { created_at: slot, datum: pd },
            ),
            None => prev,
        }
    }
}

/// The table after a rollback to `slot`: exactly the rows created at or
/// before it, in their old order.
pub open spec fn keep_pools(s: Seq<(Seq<u8>, PoolInfoV)>, slot: u64) -> Seq<(Seq<u8>, PoolInfoV)>
    decreases s.len(),
{
    if s.len() == 0 {
        Seq::empty()
    } else {
        keep_pools(s.drop_last(), slot) + if s.last().1.created_at <= slot {
            seq![s.last()]
        } else {
            Seq::empty()
        }
    }
}

proof fn lemma_upsert_found(s: Seq<(Seq<u8>, PoolInfoV)>, id: Seq<u8>, info: PoolInfoV, i: int)
    requires
        0 <= i < s.len(),
        forall|j: int| 0 <= j < i ==> (#[trigger] s[j]).0 != id,
        s[i].0 == id,
    ensures
        upsert_pool(s, id, info) == s.update(i, (id, info)),
    decreases i,
{
    if i == 0 {
        assert(seq![(id, info)] + s.drop_first() =~= s.update(0, (id, info)));
    } else {
        assert(forall|j: int| 0 <= j < i - 1 ==> (#[trigger] s.drop_first()[j]).0 != id);
        lemma_upsert_found(s.drop_first(), id, info, i - 1);
        assert(seq![s[0]] + s.drop_first().update(i - 1, (id, info)) =~= s.update(i, (id, info)));
    }
}

proof fn lemma_upsert_missing(s: Seq<(Seq<u8>, PoolInfoV)>, id: Seq<u8>, info: PoolInfoV)
    requires
        forall|j: int| 0 <= j < s.len() ==> (#[trigger] s[j]).0 != id,
    ensures
        upsert_pool(s, id, info) == s.push((id, info)),
    decreases s.len(),
{
    if s.len() == 0 {
        assert(seq![(id, info)] =~= s.push((id, info)));
    } else {
        assert(forall|j: int| 0 <= j < s.drop_first().len() ==> (#[trigger] s.drop_first()[j]).0
            != id);
        lemma_upsert_missing(s.drop_first(), id, info);
        assert(seq![s[0]] + s.drop_first().push((id, info)) =~= s.push((id, info)));
    }
}

/// Records the pool under its identifier: replaces the first row with that
/// identifier, or appends a new row.
fn upsert_pool_row(pools: &mut Vec<(Ident, PoolInfo)>, id: Ident, info: PoolInfo)
    ensures
        pool_view(final(pools)@) == upsert_pool(pool_view(old(pools)@), id@, info@),
{
    let ghost sv = pool_view(pools@);
    let mut i: usize = 0;
    while i < pools.len()
        invariant
            i <= pools@.len(),
            pools@ == old(pools)@,
            sv == pool_view(pools@),
            sv.len() == pools@.len(),
            forall|j: int| 0 <= j < i ==> (#[trigger] sv[j]).0 != id@,
        decreases pools@.len() - i,
    {
        proof {
            assert(sv[i as int] == (pools@[i as int].0@, pools@[i as int].1@));
        }
        if bytes_eq(&pools[i].0, &id) {
            let ghost pre = pools@;
            pools.remove(i);
            pools.insert(i, (id, info));
            proof {
                assert(pools@ =~= pre.update(i as int, pools@[i as int]));
                lemma_upsert_found(sv, pools@[i as int].0@, pools@[i as int].1@, i as int);
                assert(pool_view(pools@) =~= sv.update(
                    i as int,
                    (pools@[i as int].0@, pools@[i as int].1@),
                ));
            }
            return ;
        }
        i = i + 1;
    }
    pools.push((id, info));
    proof {
        assert(pools@.drop_last() =~= old(pools)@);
        lemma_upsert_missing(sv, pools@.last().0@, pools@.last().1@);
        assert(pool_view(pools@) =~= sv.push((pools@.last().0@, pools@.last().1@)));
    }
}

/// A consumer deriving a table of pools: each output carrying a pool datum
/// records that pool with the slot it was seen at; a rollback discards every
/// pool created after the new tip.
pub struct PoolIndex {
    pub pools: Vec<(Ident, PoolInfo)>,
}

impl PoolIndex {
    /// An empty pool table.
    pub fn new() -> (r: Self)
        ensures
            r.pools@.len() == 0,
    {
        PoolIndex { pools: Vec::new() }
    }
}

impl ManagedIndex for PoolIndex {
    open spec fn name_spec(&self) -> Seq<char> {
        "pools"@
    }

    open spec fn apply_post(pre: Self, post: Self, info: BlockInfo, tx: Tx, done: bool) -> bool {
        done && pool_view(post.pools@) == apply_tx_pools(
            pool_view(pre.pools@),
            tx@,
            info.slot,
            tx@.outputs.len() as int,
        )
    }

    open spec fn rollback_post(pre: Self, post: Self, info: BlockInfo, done: bool) -> bool {
        done && pool_view(post.pools@) == keep_pools(pool_view(pre.pools@), info.slot)
    }

    fn name(&self) -> (r: String) {
        "pools".to_owned()
    }

    fn handle_onchain_tx(&mut self, info: &BlockInfo, tx: &Tx) -> (r: Result<(), IndexError>) {
        let ghost pre = pool_view(self.pools@);
        let ghost tv = tx@;
        let n = tx.outputs.len();
        let mut t: usize = 0;
        while t < n
            invariant
                t <= n,
                n == tx.outputs@.len(),
                tv == tx@,
                tv.outputs.len() == n,
                pool_view(self.pools@) == apply_tx_pools(pre, tv, info.slot, t as int),
            decreases n - t,
        {
            proof {
                assert(tv.outputs[t as int] == tx.outputs@[t as int]@);
            }
            match parse_datum(&tx.outputs[t], tx) {
                Some(pd) => {
                    let id = clone_bytes(&pd.ident);
                    let created = PoolInfo { created_at: info.slot, datum: pd };
                    proof {
                        assert(created@.datum == spec_parse_datum(tv.outputs[t as int], tv)->0);
                    }
                    upsert_pool_row(&mut self.pools, id, created);
                },
                None => {},
            }
            t = t + 1;
        }
        Ok(())
    }

    fn handle_rollback(&mut self, info: &BlockInfo) -> (r: Result<(), IndexError>) {
        let ghost pre = pool_view(self.pools@);
        let mut kept: Vec<(Ident, PoolInfo)> = Vec::new();
        let mut i: usize = 0;
        while i < self.pools.len()
            invariant
                i <= self.pools@.len(),
                pre == pool_view(self.pools@),
                pre.len() == self.pools@.len(),
                pool_view(kept@) == keep_pools(pre.take(i as int), info.slot),
            decreases self.pools@.len() - i,
        {
            proof {
                assert(pre[i as int] == (self.pools@[i as int].0@, self.pools@[i as int].1@));
                assert(pre.take(i as int + 1).drop_last() =~= pre.take(i as int));
            }
            let keep = self.pools[i].1.created_at <= info.slot;
            if keep {
                let row = (clone_bytes(&self.pools[i].0), PoolInfo {
                    created_at: self.pools[i].1.created_at,
                    datum: clone_pool_datum(&self.pools[i].1.datum),
                });
                kept.push(row);
                proof {
                    assert(pool_view(kept@) =~= keep_pools(pre.take(i as int), info.slot) + seq![
                        pre[i as int],
                    ]);
                }
            }
            i = i + 1;
        }
        proof {
            assert(pre.take(pre.len() as int) =~= pre);
        }
        self.pools = kept;
        Ok(())
    }
}

/// Copy of a pool datum, field by field.
fn clone_pool_datum(pd: &PoolDatum) -> (r: PoolDatum)
    ensures
        r@ == pd@,
{
    PoolDatum {
        ident: clone_bytes(&pd.ident),
        assets: (
            (clone_bytes(&pd.assets.0.0), clone_bytes(&pd.assets.0.1)),
            (clone_bytes(&pd.assets.1.0), clone_bytes(&pd.assets.1.1)),
        ),
        circulating_lp: match &pd.circulating_lp {
            crate::sundaev3::BigIntValue::Small(n) => crate::sundaev3::BigIntValue::Small(*n),
            crate::sundaev3::BigIntValue::PosBytes(b) => crate::sundaev3::BigIntValue::PosBytes(
                clone_bytes(b),
            ),
            crate::sundaev3::BigIntValue::NegBytes(b) => crate::sundaev3::BigIntValue::NegBytes(
                clone_bytes(b),
            ),
        },
    }
}

/// The model of a wallet's unspent outputs.
pub open spec fn wallet_view(s: Seq<(OutputRef, TxValue)>) -> Seq<(OutputRefV, TxValueV)> {
    s.map(|i: int, u: (OutputRef, TxValue)| (u.0@, u.1@))
}

/// The unspent outputs that survive a transaction: those it does not spend.
pub open spec fn keep_unspent(s: Seq<(OutputRefV, TxValueV)>, t: TxV) -> Seq<(OutputRefV, TxValueV)>
    decreases s.len(),
{
    if s.len() == 0 {
        Seq::empty()
    } else {
        keep_unspent(s.drop_last(), t) + if spends(t, s.last().0) {
            Seq::empty()
        } else {
            seq![s.last()]
        }
    }
}

/// The outputs a transaction pays to `addr` among its first `n`, as unspent
/// outputs referencing the transaction's own hash.
pub open spec fn wallet_outputs(t: TxV, addr: Seq<u8>, n: int) -> Seq<(OutputRefV, TxValueV)>
    decreases n,
{
    if n <= 0 {
        Seq::empty()
    } else {
        wallet_outputs(t, addr, n - 1) + if t.outputs[n - 1].address == addr {
            seq![
                (OutputRefV { tx_hash: t.hash, index: (n - 1) as u64 }, t.outputs[n - 1].value),
            ]
        } else {
            Seq::empty()
        }
    }
}

/// A consumer tracking the unspent outputs paid to one address: each
/// transaction first spends the referenced outputs it consumes, then adds
/// the outputs it pays to the address.
pub struct WalletIndex {
    pub address: Vec<u8>,
    pub utxos: Vec<(OutputRef, TxValue)>,
}

impl WalletIndex {
    /// An empty wallet over the given raw address bytes.
    pub fn new(address: Vec<u8>) -> (r: Self)
        ensures
            r.address@ == address@,
            r.utxos@.len() == 0,
    {
        WalletIndex { address, utxos: Vec::new() }
    }
}

impl ManagedIndex for WalletIndex {
    open spec fn name_spec(&self) -> Seq<char> {
        "wallet"@
    }

    open spec fn apply_post(pre: Self, post: Self, info: BlockInfo, tx: Tx, done: bool) -> bool {
        done && post.address@ == pre.address@ && wallet_view(post.utxos@) == keep_unspent(
            wallet_view(pre.utxos@),
            tx@,
        ) + wallet_outputs(tx@, pre.address@, tx@.outputs.len() as int)
    }

    open spec fn rollback_post(pre: Self, post: Self, info: BlockInfo, done: bool) -> bool {
        done && post == pre
    }

    fn name(&self) -> (r: String) {
        "wallet".to_owned()
    }

    fn handle_onchain_tx(&mut self, info: &BlockInfo, tx: &Tx) -> (r: Result<(), IndexError>) {
        let ghost pre = wallet_view(self.utxos@);
        let ghost tv = tx@;
        let mut kept: Vec<(OutputRef, TxValue)> = Vec::new();
        let mut i: usize = 0;
        while i < self.utxos.len()
            invariant
                i <= self.utxos@.len(),
                tv == tx@,
                pre == wallet_view(self.utxos@),
                pre.len() == self.utxos@.len(),
                wallet_view(kept@) == keep_unspent(pre.take(i as int), tv),
            decreases self.utxos@.len() - i,
        {
            proof {
                assert(pre[i as int] == (self.utxos@[i as int].0@, self.utxos@[i as int].1@));
                assert(pre.take(i as int + 1).drop_last() =~= pre.take(i as int));
            }
            let spent = tx.spends_ref(&self.utxos[i].0);
            if !spent {
                let row = (
                    OutputRef {
                        tx_hash: clone_bytes(&self.utxos[i].0.tx_hash),
                        index: self.utxos[i].0.index,
                    },
                    clone_tx_value(&self.utxos[i].1),
                );
                kept.push(row);
                proof {
                    assert(wallet_view(kept@) =~= keep_unspent(pre.take(i as int), tv) + seq![
                        pre[i as int],
                    ]);
                }
            }
            i = i + 1;
        }
        proof {
            assert(pre.take(pre.len() as int) =~= pre);
        }
        let n = tx.outputs.len();
        let mut t: usize = 0;
        while t < n
            invariant
                t <= n,
                n == tx.outputs@.len(),
                tv == tx@,
                tv.outputs.len() == n,
                self.address@ == old(self).address@,
                wallet_view(kept@) == keep_unspent(pre, tv) + wallet_outputs(
                    tv,
                    self.address@,
                    t as int,
                ),
            decreases n - t,
        {
            proof {
                assert(tv.outputs[t as int] == tx.outputs@[t as int]@);
            }
            if bytes_eq(&tx.outputs[t].address, &self.address) {
                let row = (
                    OutputRef { tx_hash: clone_bytes(&tx.hash), index: t as u64 },
                    clone_tx_value(&tx.outputs[t].value),
                );
                kept.push(row);
                proof {
                    assert(wallet_view(kept@) =~= keep_unspent(pre, tv) + wallet_outputs(
                        tv,
                        self.address@,
                        t as int,
                    ) + seq![
                        (
                            OutputRefV { tx_hash: tv.hash, index: t as u64 },
                            tv.outputs[t as int].value,
                        ),
                    ]);
                }
            }
            t = t + 1;
        }
        self.utxos = kept;
        Ok(())
    }

    fn handle_rollback(&mut self, info: &BlockInfo) -> (r: Result<(), IndexError>) {
        Ok(())
    }
}

/// A consumer that records the slots it applied and can be told to fail at
/// one slot, or to refuse rollbacks; a successful rollback discards the
/// slots after the new tip. It makes dispatch observable and lets failure
/// handling be exercised.
pub struct ProbeIndex {
    pub tag: String,
    pub fail_on_slot: Option<u64>,
    pub fail_rollbacks: bool,
    pub applied: Vec<u64>,
}

impl ProbeIndex {
    /// A probe named `tag` that fails whenever a transaction arrives at
    /// `fail_on_slot`.
    pub fn new(tag: String, fail_on_slot: Option<u64>) -> (r: Self)
        ensures
            r.tag@ == tag@,
            r.fail_on_slot == fail_on_slot,
            !r.fail_rollbacks,
            r.applied@.len() == 0,
    {
        ProbeIndex { tag, fail_on_slot, fail_rollbacks: false, applied: Vec::new() }
    }

    /// A probe named `tag` whose rollback handler always fails.
    pub fn refusing_rollbacks(tag: String) -> (r: Self)
        ensures
            r.tag@ == tag@,
            r.fail_on_slot is None,
            r.fail_rollbacks,
            r.applied@.len() == 0,
    {
        ProbeIndex { tag, fail_on_slot: None, fail_rollbacks: true, applied: Vec::new() }
    }
}

/// The applied slots at or before a rollback target.
pub open spec fn keep_slots(s: Seq<u64>, slot: u64) -> Seq<u64>
    decreases s.len(),
{
    if s.len() == 0 {
        Seq::empty()
    } else {
        keep_slots(s.drop_last(), slot) + if s.last() <= slot {
            seq![s.last()]
        } else {
            Seq::empty()
        }
    }
}

impl ManagedIndex for ProbeIndex {
    open spec fn name_spec(&self) -> Seq<char> {
        self.tag@
    }

    open spec fn apply_post(pre: Self, post: Self, info: BlockInfo, tx: Tx, done: bool) -> bool {
        if pre.fail_on_slot == Some(info.slot) {
            !done && post == pre
        } else {
            done && post.tag@ == pre.tag@ && post.fail_on_slot == pre.fail_on_slot
                && post.fail_rollbacks == pre.fail_rollbacks && post.applied@
                == pre.applied@.push(info.slot)
        }
    }

    open spec fn rollback_post(pre: Self, post: Self, info: BlockInfo, done: bool) -> bool {
        if pre.fail_rollbacks {
            !done && post == pre
        } else {
            done && post.tag@ == pre.tag@ && post.fail_on_slot == pre.fail_on_slot
                && post.fail_rollbacks == pre.fail_rollbacks && post.applied@ == keep_slots(
                pre.applied@,
                info.slot,
            )
        }
    }

    fn name(&self) -> (r: String) {
        self.tag.clone()
    }

    fn handle_onchain_tx(&mut self, info: &BlockInfo, tx: &Tx) -> (r: Result<(), IndexError>) {
        let fail = match self.fail_on_slot {
            Some(s) => s == info.slot,
            None => false,
        };
        if fail {
            return Err(IndexError::new("probe told to fail at this slot".to_owned()));
        }
        self.applied.push(info.slot);
        Ok(())
    }

    fn handle_rollback(&mut self, info: &BlockInfo) -> (r: Result<(), IndexError>) {
        if self.fail_rollbacks {
            return Err(IndexError::new("probe told to refuse rollbacks".to_owned()));
        }
        let ghost pre = self.applied@;
        let mut kept: Vec<u64> = Vec::new();
        let mut i: usize = 0;
        while i < self.applied.len()
            invariant
                i <= self.applied@.len(),
                pre == self.applied@,
                kept@ == keep_slots(pre.take(i as int), info.slot),
            decreases self.applied@.len() - i,
        {
            proof {
                assert(pre.take(i as int + 1).drop_last() =~= pre.take(i as int));
            }
            if self.applied[i] <= info.slot {
                kept.push(self.applied[i]);
                proof {
                    assert(kept@ =~= keep_slots(pre.take(i as int), info.slot) + seq![
                        pre[i as int],
                    ]);
                }
            }
            i = i + 1;
        }
        proof {
            assert(pre.take(pre.len() as int) =~= pre);
        }
        self.applied = kept;
        Ok(())
    }
}

} // verus!
