//! The multiplexing core: one cursor per registered consumer, the single
//! earliest position to request upstream, and the dispatch of each incoming
//! event to every consumer whose cursor requires it.

use vstd::prelude::*;

use crate::index::{IndexError, ManagedIndex};
use crate::point::{point_before, slot_of, BlockInfo, Point, PointV};
use crate::store::CursorStore;
use crate::tx::Tx;

verus! {

/// Whether a consumer takes part in dispatch (`Active`) or has been stopped
/// by a failure of its own handler (`Halted`).
#[derive(Clone, Copy, Debug, PartialEq, Eq, Structural)]
pub enum Liveness {
    Active,
    Halted,
}

/// Model of one registered consumer as the engine tracks it: its name, its
/// cursor, and whether it is still dispatched to.
pub struct EntryV {
    pub name: Seq<char>,
    pub cursor: PointV,
    pub live: bool,
}

/// One registered consumer: a unique name, the consumer itself, the position
/// up to which it has committed, its liveness, and the failure that halted
/// it, if any.
pub struct RegisteredConsumer<I> {
    pub name: String,
    pub index: I,
    pub cursor: Point,
    pub live: Liveness,
    pub failure: Option<IndexError>,
}

impl<I> RegisteredConsumer<I> {
    /// The engine-visible state of this consumer.
    pub open spec fn v(&self) -> EntryV {
        EntryV { name: self.name@, cursor: self.cursor@, live: self.live is Active }
    }
}

/// Whether a block at point `p` is dispatched to a consumer in state `e`:
/// only Active consumers whose cursor is strictly before `p` receive it.
pub open spec fn dispatched_block(e: EntryV, p: PointV) -> bool {
    e.live && point_before(e.cursor, p)
}

/// The engine-visible state of a consumer after a block at point `p` was
/// offered to it, `done` saying whether its handlers succeeded: a dispatched
/// consumer advances its cursor to `p` on success and halts (cursor frozen)
/// on failure; every other consumer is untouched.
pub open spec fn block_step(e: EntryV, p: PointV, done: bool) -> EntryV {
    if dispatched_block(e, p) {
        if done {
            EntryV { name: e.name, cursor: p, live: e.live }
        } else {
            EntryV { name: e.name, cursor: e.cursor, live: false }
        }
    } else {
        e
    }
}

/// Whether a rollback to point `p` is dispatched to a consumer in state `e`:
/// every consumer, Active or Halted, whose cursor is strictly beyond `p`.
pub open spec fn dispatched_rollback(e: EntryV, p: PointV) -> bool {
    point_before(p, e.cursor)
}

/// The engine-visible state of a consumer after a rollback to `p` was offered
/// to it: a dispatched consumer rewinds its cursor to exactly `p` on success
/// and halts (its projection may be inconsistent) on failure.
pub open spec fn rollback_step(e: EntryV, p: PointV, done: bool) -> EntryV {
    if dispatched_rollback(e, p) {
        if done {
            EntryV { name: e.name, cursor: p, live: e.live }
        } else {
            EntryV { name: e.name, cursor: e.cursor, live: false }
        }
    } else {
        e
    }
}

/// The names of consumers among the first `i` that a block at `p` advanced:
/// they were dispatched to and are still live afterwards, so their new cursor
/// was persisted.
pub open spec fn advanced_upto(pre: Seq<EntryV>, post: Seq<EntryV>, p: PointV, i: int) -> Set<
    Seq<char>,
> {
    Set::new(
        |n: Seq<char>|
            exists|j: int|
                0 <= j < i && (#[trigger] pre[j]).name == n && dispatched_block(pre[j], p)
                    && post[j].live,
    )
}

/// The names of consumers among the first `i` that a rollback to `p` rewound:
/// they were dispatched to and their cursor now stands at `p`, so that cursor
/// was persisted.
pub open spec fn rewound_upto(pre: Seq<EntryV>, post: Seq<EntryV>, p: PointV, i: int) -> Set<
    Seq<char>,
> {
    Set::new(
        |n: Seq<char>|
            exists|j: int|
                0 <= j < i && (#[trigger] pre[j]).name == n && dispatched_rollback(pre[j], p)
                    && post[j].cursor == p,
    )
}

/// The cursor a consumer is registered with: the persisted position under its
/// name when resuming from the store and one is present, else the requested
/// starting point.
pub open spec fn register_cursor(
    persisted: Map<Seq<char>, PointV>,
    name: Seq<char>,
    start: PointV,
    resume: bool,
) -> PointV {
    if resume && persisted.contains_key(name) {
        persisted[name]
    } else {
        start
    }
}

/// How a dispatched consumer's own state evolves over one block: its handler
/// is invoked once per transaction, in block order, each call starting from
/// the state the previous call left, and each call meeting the consumer's
/// `apply_post` contract. `done` says whether every call succeeded; on the
/// first failing call the consumer is left in the state that call produced
/// and no later transaction is delivered. A block with no transactions
/// succeeds with the state untouched.
pub open spec fn applied_consumer_run<I: ManagedIndex>(
    pre: I,
    post: I,
    info: BlockInfo,
    txs: Seq<Tx>,
    done: bool,
) -> bool
    decreases txs.len(),
{
    if txs.len() == 0 {
        done && post == pre
    } else {
        (exists|mid: I|
            #[trigger] I::apply_post(pre, mid, info, txs[0], true) && applied_consumer_run(
                mid,
                post,
                info,
                txs.drop_first(),
                done,
            )) || (!done && I::apply_post(pre, post, info, txs[0], false))
    }
}

/// A run of successful handler calls extends by one more successful call.
proof fn lemma_applied_run_snoc<I: ManagedIndex>(
    pre: I,
    mid: I,
    post: I,
    info: BlockInfo,
    txs: Seq<Tx>,
    tx: Tx,
)
    requires
        applied_consumer_run(pre, mid, info, txs, true),
        I::apply_post(mid, post, info, tx, true),
    ensures
        applied_consumer_run(pre, post, info, txs.push(tx), true),
    decreases txs.len(),
{
    let full = txs.push(tx);
    if txs.len() == 0 {
        assert(mid == pre);
        assert(full[0] == tx);
        assert(full.drop_first() =~= Seq::<Tx>::empty());
        assert(applied_consumer_run(post, post, info, full.drop_first(), true)) by {
            reveal_with_fuel(applied_consumer_run, 2);
        }
        assert(I::apply_post(pre, post, info, full[0], true) && applied_consumer_run(
            post,
            post,
            info,
            full.drop_first(),
            true,
        ));
    } else {
        assert(exists|m1: I|
            #[trigger] I::apply_post(pre, m1, info, txs[0], true) && applied_consumer_run(
                m1,
                mid,
                info,
                txs.drop_first(),
                true,
            ));
        let m1 = choose|m1: I|
            #[trigger] I::apply_post(pre, m1, info, txs[0], true) && applied_consumer_run(
                m1,
                mid,
                info,
                txs.drop_first(),
                true,
            );
        lemma_applied_run_snoc(m1, mid, post, info, txs.drop_first(), tx);
        assert(full.drop_first() =~= txs.drop_first().push(tx));
        assert(full[0] == txs[0]);
        assert(I::apply_post(pre, m1, info, full[0], true) && applied_consumer_run(
            m1,
            post,
            info,
            full.drop_first(),
            true,
        ));
    }
}

/// A run whose calls succeeded up to index `t` and failed there is a failed
/// run over the whole block: the transactions after `t` are not delivered.
proof fn lemma_applied_run_fail<I: ManagedIndex>(
    pre: I,
    mid: I,
    post: I,
    info: BlockInfo,
    txs: Seq<Tx>,
    t: int,
)
    requires
        0 <= t < txs.len(),
        applied_consumer_run(pre, mid, info, txs.take(t), true),
        I::apply_post(mid, post, info, txs[t], false),
    ensures
        applied_consumer_run(pre, post, info, txs, false),
    decreases t,
{
    if t == 0 {
        assert(txs.take(0).len() == 0);
        assert(mid == pre);
        assert(!false && I::apply_post(pre, post, info, txs[0], false));
    } else {
        let prefix = txs.take(t);
        assert(prefix[0] == txs[0]);
        assert(exists|m1: I|
            #[trigger] I::apply_post(pre, m1, info, prefix[0], true) && applied_consumer_run(
                m1,
                mid,
                info,
                prefix.drop_first(),
                true,
            ));
        let m1 = choose|m1: I|
            #[trigger] I::apply_post(pre, m1, info, prefix[0], true) && applied_consumer_run(
                m1,
                mid,
                info,
                prefix.drop_first(),
                true,
            );
        assert(prefix.drop_first() =~= txs.drop_first().take(t - 1));
        assert(txs.drop_first()[t - 1] == txs[t]);
        lemma_applied_run_fail(m1, mid, post, info, txs.drop_first(), t - 1);
        assert(I::apply_post(pre, m1, info, txs[0], true) && applied_consumer_run(
            m1,
            post,
            info,
            txs.drop_first(),
            false,
        ));
    }
}

/// One event yielded by the upstream chain-sync source: a block applied on
/// top of the chain with its transactions in block order, or a notice that
/// the chain rolled back to a new tip.
pub enum UpstreamEvent {
    BlockApplied(BlockInfo, Vec<Tx>),
    RolledBack(BlockInfo),
}

/// The engine: owns the registry of consumers and the cursor store, and
/// drives every consumer correctly from one upstream stream.
pub struct ChainIndexer<S: CursorStore, I: ManagedIndex> {
    pub store: S,
    pub consumers: Vec<RegisteredConsumer<I>>,
}

impl<S: CursorStore, I: ManagedIndex> ChainIndexer<S, I> {
    /// The engine-visible registry: one entry per consumer, in registration
    /// order.
    pub open spec fn reg(&self) -> Seq<EntryV> {
        self.consumers@.map(|j: int, e: RegisteredConsumer<I>| e.v())
    }

    /// The persisted cursor map.
    pub open spec fn persisted(&self) -> Map<Seq<char>, PointV> {
        self.store.cursors()
    }

    /// Registered names are unique: each consumer's cursor is persisted under
    /// its own name without interference.
    pub open spec fn wf(&self) -> bool {
        forall|j: int, k: int|
            0 <= j < k < self.reg().len() ==> (#[trigger] self.reg()[j]).name != (
            #[trigger] self.reg()[k]).name
    }

    /// Creates an engine with no registered consumers over the given store.
    pub fn new(store: S) -> (r: Self)
        ensures
            r.reg() =~= Seq::<EntryV>::empty(),
            r.persisted() == store.cursors(),
            r.wf(),
    {
        ChainIndexer { store, consumers: Vec::new() }
    }

    /// Registers a consumer. With `resume_from_store` the effective cursor is
    /// the store's persisted position for the consumer's name if one is
    /// present, else `starting_point`; without it, `starting_point` is used
    /// unconditionally (forcing a full replay from there).
    pub fn add_index(&mut self, index: I, starting_point: Point, resume_from_store: bool)
        requires
            old(self).wf(),
            forall|j: int|
                0 <= j < old(self).reg().len() ==> (#[trigger] old(self).reg()[j]).name
                    != index.name_spec(),
        ensures
            final(self).wf(),
            final(self).persisted() == old(self).persisted(),
            final(self).reg() =~= old(self).reg().push(
                EntryV {
                    name: index.name_spec(),
                    cursor: register_cursor(
                        old(self).persisted(),
                        index.name_spec(),
                        starting_point@,
                        resume_from_store,
                    ),
                    live: true,
                },
            ),
            forall|j: int|
                0 <= j < old(self).consumers@.len() ==> final(self).consumers@[j] == old(
                    self,
                ).consumers@[j],
    {
        let name = index.name();
        let cursor = if resume_from_store {
            match self.store.load(&name) {
                Some(p) => p,
                None => starting_point,
            }
        } else {
            starting_point
        };
        self.consumers.push(
            RegisteredConsumer { name, index, cursor, live: Liveness::Active, failure: None },
        );
        proof {
            assert(self.consumers@.drop_last() =~= old(self).consumers@);
            assert(self.reg() =~= old(self).reg().push(self.consumers@.last().v()));
        }
    }

    /// The single position to request the upstream stream at: the minimum
    /// cursor among Active consumers, or nothing when no consumer is Active.
    pub fn request_point(&self) -> (r: Option<Point>)
        ensures
            match r {
                Some(p) => (exists|j: int|
                    0 <= j < self.reg().len() && (#[trigger] self.reg()[j]).live && self.reg()[j].cursor
                        == p@) && (forall|j: int|
                    0 <= j < self.reg().len() && (#[trigger] self.reg()[j]).live ==> slot_of(p@)
                        <= slot_of(self.reg()[j].cursor)),
                None => forall|j: int| 0 <= j < self.reg().len() ==> !(#[trigger] self.reg()[j]).live,
            },
    {
        let mut best: Option<Point> = None;
        let mut i: usize = 0;
        while i < self.consumers.len()
            invariant
                i <= self.consumers@.len(),
                self.reg().len() == self.consumers@.len(),
                match best {
                    Some(p) => (exists|j: int|
                        0 <= j < i && (#[trigger] self.reg()[j]).live && self.reg()[j].cursor == p@)
                        && (forall|j: int|
                        0 <= j < i && (#[trigger] self.reg()[j]).live ==> slot_of(p@) <= slot_of(
                            self.reg()[j].cursor,
                        )),
                    None => forall|j: int| 0 <= j < i ==> !(#[trigger] self.reg()[j]).live,
                },
            decreases self.consumers@.len() - i,
        {
            let e = &self.consumers[i];
            proof {
                assert(self.reg()[i as int] == self.consumers@[i as int].v());
            }
            match e.live {
                Liveness::Active => {
                    let replace = match &best {
                        None => true,
                        Some(b) => e.cursor.is_before(b),
                    };
                    if replace {
                        best = Some(e.cursor.clone());
                        proof {
                            let w = i as int;
                            assert(0 <= w < i + 1 && self.reg()[w].live && self.reg()[w].cursor
                                == e.cursor@);
                        }
                    }
                },
                Liveness::Halted => {},
            }
            i = i + 1;
        }
        best
    }

    /// Offers one block to one dispatched consumer: every transaction of the
    /// block in block order, stopping at the first failure. On success the
    /// cursor advances to the block's point and is persisted; on a handler
    /// failure the consumer halts with its cursor frozen at its last
    /// successful point, the failure recorded, and nothing persisted.
    fn apply_block_to_consumer(
        store: &mut S,
        e: &mut RegisteredConsumer<I>,
        info: &BlockInfo,
        txs: &Vec<Tx>,
    )
        requires
            dispatched_block(old(e).v(), info.point_v()),
        ensures
            final(e).v() == block_step(old(e).v(), info.point_v(), true) || final(e).v()
                == block_step(old(e).v(), info.point_v(), false),
            applied_consumer_run(old(e).index, final(e).index, *info, txs@, final(e).v().live),
            !final(e).v().live ==> final(e).failure is Some,
            final(e).v().live ==> final(store).cursors() == old(store).cursors().insert(
                old(e).name@,
                info.point_v(),
            ),
            !final(e).v().live ==> final(store).cursors() == old(store).cursors(),
    {
        proof {
            assert(txs@.take(0) =~= Seq::<Tx>::empty());
        }
        let mut t: usize = 0;
        let mut ok = true;
        while t < txs.len() && ok
            invariant
                t <= txs@.len(),
                dispatched_block(old(e).v(), info.point_v()),
                ok ==> e.v() == old(e).v(),
                ok ==> applied_consumer_run(old(e).index, e.index, *info, txs@.take(t as int), true),
                !ok ==> e.v() == block_step(old(e).v(), info.point_v(), false),
                !ok ==> applied_consumer_run(old(e).index, e.index, *info, txs@, false),
                !ok ==> e.failure is Some,
            decreases txs@.len() - t,
        {
            let ghost mid = e.index;
            let ghost chained = txs@.take(t as int);
            match e.index.handle_onchain_tx(info, &txs[t]) {
                Ok(_) => {
                    proof {
                        lemma_applied_run_snoc(
                            old(e).index,
                            mid,
                            e.index,
                            *info,
                            chained,
                            txs@[t as int],
                        );
                        assert(txs@.take(t as int + 1) =~= chained.push(txs@[t as int]));
                    }
                },
                Err(err) => {
                    proof {
                        lemma_applied_run_fail(old(e).index, mid, e.index, *info, txs@, t as int);
                    }
                    e.live = Liveness::Halted;
                    e.failure = Some(err);
                    ok = false;
                },
            }
            t = t + 1;
        }
        if ok {
            proof {
                assert(txs@.take(txs@.len() as int) =~= txs@);
            }
            e.cursor = info.point();
            store.save(&e.name, &e.cursor);
        }
    }

    /// Dispatches one applied block: every Active consumer whose cursor is
    /// strictly before the block's point receives the block's transactions in
    /// order; a consumer whose handlers all succeed advances its cursor to
    /// the block's point, which is persisted; a consumer whose handler fails
    /// is halted with its cursor frozen, and the remaining consumers are
    /// still dispatched to. Every other consumer, including every Halted one,
    /// is left untouched: no event is re-delivered at or below a cursor.
    pub fn handle_block_applied(&mut self, info: &BlockInfo, txs: &Vec<Tx>)
        requires
            old(self).wf(),
        ensures
            final(self).wf(),
            final(self).reg().len() == old(self).reg().len(),
            forall|j: int|
                0 <= j < old(self).reg().len() ==> (#[trigger] final(self).reg()[j]) == block_step(
                    old(self).reg()[j],
                    info.point_v(),
                    true,
                ) || final(self).reg()[j] == block_step(old(self).reg()[j], info.point_v(), false),
            forall|j: int|
                0 <= j < old(self).reg().len() && !dispatched_block(
                    old(self).reg()[j],
                    info.point_v(),
                ) ==> (#[trigger] final(self).consumers@[j]) == old(self).consumers@[j],
            forall|j: int|
                0 <= j < old(self).reg().len() && dispatched_block(
                    old(self).reg()[j],
                    info.point_v(),
                ) && (#[trigger] final(self).reg()[j]).live ==> final(self).persisted().contains_key(
                    old(self).reg()[j].name,
                ) && final(self).persisted()[old(self).reg()[j].name] == info.point_v(),
            forall|j: int|
                0 <= j < old(self).reg().len() && dispatched_block(
                    old(self).reg()[j],
                    info.point_v(),
                ) ==> applied_consumer_run(
                    old(self).consumers@[j].index,
                    (#[trigger] final(self).consumers@[j]).index,
                    *info,
                    txs@,
                    final(self).reg()[j].live,
                ),
            forall|j: int|
                0 <= j < old(self).reg().len() && dispatched_block(
                    old(self).reg()[j],
                    info.point_v(),
                ) && !(#[trigger] final(self).reg()[j]).live
                    ==> final(self).consumers@[j].failure is Some,
            forall|n: Seq<char>|
                !advanced_upto(
                    old(self).reg(),
                    final(self).reg(),
                    info.point_v(),
                    old(self).reg().len() as int,
                ).contains(n) ==> (#[trigger] final(self).persisted().contains_key(n)) == old(
                    self,
                ).persisted().contains_key(n),
            forall|n: Seq<char>|
                !advanced_upto(
                    old(self).reg(),
                    final(self).reg(),
                    info.point_v(),
                    old(self).reg().len() as int,
                ).contains(n) && old(self).persisted().contains_key(n)
                    ==> (#[trigger] final(self).persisted()[n]) == old(self).persisted()[n],
    {
        let ghost pre = self.reg();
        let ghost prec = self.consumers@;
        let ghost oldmap = self.store.cursors();
        let ghost p = info.point_v();
        let n = self.consumers.len();
        let mut i: usize = 0;
        while i < n
            invariant
                i <= n,
                n == self.consumers@.len(),
                pre.len() == n,
                prec.len() == n,
                p == info.point_v(),
                pre == prec.map(|j: int, c: RegisteredConsumer<I>| c.v()),
                self.reg() == self.consumers@.map(|j: int, c: RegisteredConsumer<I>| c.v()),
                forall|j: int, k: int|
                    0 <= j < k < n ==> (#[trigger] pre[j]).name != (#[trigger] pre[k]).name,
                forall|j: int| i <= j < n ==> (#[trigger] self.consumers@[j]) == prec[j],
                forall|j: int|
                    0 <= j < i ==> (#[trigger] self.reg()[j]) == block_step(pre[j], p, true)
                        || self.reg()[j] == block_step(pre[j], p, false),
                forall|j: int|
                    0 <= j < i && !dispatched_block(pre[j], p) ==> (#[trigger] self.consumers@[j])
                        == prec[j],
                forall|j: int|
                    0 <= j < i && dispatched_block(pre[j], p) && (#[trigger] self.reg()[j]).live
                        ==> self.store.cursors().contains_key(pre[j].name)
                        && self.store.cursors()[pre[j].name] == p,
                forall|j: int|
                    0 <= j < i && dispatched_block(pre[j], p) ==> applied_consumer_run(
                        prec[j].index,
                        (#[trigger] self.consumers@[j]).index,
                        *info,
                        txs@,
                        self.reg()[j].live,
                    ),
                forall|j: int|
                    0 <= j < i && dispatched_block(pre[j], p) && !(#[trigger] self.reg()[j]).live
                        ==> self.consumers@[j].failure is Some,
                forall|m: Seq<char>|
                    !advanced_upto(pre, self.reg(), p, i as int).contains(m) ==> (
                    #[trigger] self.store.cursors().contains_key(m)) == oldmap.contains_key(m),
                forall|m: Seq<char>|
                    !advanced_upto(pre, self.reg(), p, i as int).contains(m)
                        && oldmap.contains_key(m) ==> (#[trigger] self.store.cursors()[m])
                        == oldmap[m],
            decreases n - i,
        {
            let ghost regpre = self.reg();
            let ghost cs = self.consumers@;
            let live_now = match self.consumers[i].live {
                Liveness::Active => true,
                Liveness::Halted => false,
            };
            let block_point = info.point();
            let before_now = self.consumers[i].cursor.is_before(&block_point);
            let dispatch = live_now && before_now;
            proof {
                let i_ = i as int;
                assert(self.reg()[i_] == self.consumers@[i_].v());
                assert(self.consumers@[i_] == prec[i_]);
                assert(pre[i_] == prec[i_].v());
                assert(live_now == pre[i_].live);
                assert(block_point@ == p);
                assert(before_now == point_before(pre[i_].cursor, p));
                assert(dispatch == dispatched_block(pre[i_], p));
            }
            if dispatch {
                let ghost removed = self.consumers@[i as int];
                let mut e = self.consumers.remove(i);
                Self::apply_block_to_consumer(&mut self.store, &mut e, info, txs);
                self.consumers.insert(i, e);
                proof {
                    let i_ = i as int;
                    assert(removed == prec[i_] && removed.v() == pre[i_]);
                    assert(self.consumers@ =~= cs.update(i_, self.consumers@[i_]));
                    assert(self.reg()[i_] == self.consumers@[i_].v());
                    assert(forall|j: int|
                        0 <= j < n && j != i_ ==> (#[trigger] self.consumers@[j]) == cs[j]);
                    assert(forall|j: int|
                        0 <= j < i_ ==> (#[trigger] self.reg()[j]) == regpre[j]);
                    lemma_advanced_upto_grow(pre, regpre, self.reg(), p, i_);
                    assert(self.reg()[i_] == block_step(pre[i_], p, true) || self.reg()[i_]
                        == block_step(pre[i_], p, false));
                    if self.reg()[i_].live {
                        assert(advanced_upto(pre, self.reg(), p, i_ + 1).contains(pre[i_].name));
                    }
                    assert forall|m: Seq<char>|
                        !advanced_upto(pre, self.reg(), p, i_ + 1).contains(
                            m,
                        ) implies !advanced_upto(pre, self.reg(), p, i_).contains(m) by {
                        if advanced_upto(pre, self.reg(), p, i_).contains(m) {
                            let j = choose|j: int|
                                0 <= j < i_ && (#[trigger] pre[j]).name == m && dispatched_block(
                                    pre[j],
                                    p,
                                ) && self.reg()[j].live;
                            assert(0 <= j < i_ + 1 && pre[j].name == m && dispatched_block(
                                pre[j],
                                p,
                            ) && self.reg()[j].live);
                        }
                    }
                }
            } else {
                proof {
                    let i_ = i as int;
                    lemma_advanced_upto_grow(pre, regpre, self.reg(), p, i_);
                    assert(self.reg()[i_] == block_step(pre[i_], p, true));
                    assert forall|m: Seq<char>|
                        advanced_upto(pre, self.reg(), p, i_ + 1).contains(
                            m,
                        ) implies advanced_upto(pre, self.reg(), p, i_).contains(m) by {
                        let j = choose|j: int|
                            0 <= j < i_ + 1 && (#[trigger] pre[j]).name == m && dispatched_block(
                                pre[j],
                                p,
                            ) && self.reg()[j].live;
                        assert(j != i_);
                        assert(0 <= j < i_ && pre[j].name == m && dispatched_block(pre[j], p)
                            && self.reg()[j].live);
                    }
                }
            }
            i = i + 1;
        }
    }

    /// Offers one rollback to one dispatched consumer: its rollback handler
    /// is invoked with the announced tip and must meet its own contract. On
    /// success the cursor rewinds to exactly the announced point, which is
    /// persisted; on failure the consumer halts with the failure recorded,
    /// since its projection may now be inconsistent with the chain.
    fn rollback_consumer(store: &mut S, e: &mut RegisteredConsumer<I>, info: &BlockInfo)
        requires
            dispatched_rollback(old(e).v(), info.point_v()),
        ensures
            final(e).v() == rollback_step(old(e).v(), info.point_v(), true) || final(e).v()
                == rollback_step(old(e).v(), info.point_v(), false),
            I::rollback_post(
                old(e).index,
                final(e).index,
                *info,
                final(e).v().cursor == info.point_v(),
            ),
            final(e).v().cursor != info.point_v() ==> final(e).failure is Some,
            final(e).v().cursor == info.point_v() ==> final(store).cursors() == old(
                store,
            ).cursors().insert(old(e).name@, info.point_v()),
            final(e).v().cursor != info.point_v() ==> final(store).cursors() == old(
                store,
            ).cursors(),
    {
        proof {
            assert(slot_of(old(e).v().cursor) > slot_of(info.point_v()));
        }
        match e.index.handle_rollback(info) {
            Ok(_) => {
                e.cursor = info.point();
                store.save(&e.name, &e.cursor);
            },
            Err(err) => {
                e.live = Liveness::Halted;
                e.failure = Some(err);
            },
        }
    }

    /// Dispatches one rollback: every consumer, Active or Halted, whose
    /// cursor stands strictly beyond the announced point has its rollback
    /// handler invoked; on success its cursor is set to exactly that point
    /// and persisted, on failure the consumer is halted with its cursor
    /// frozen. Consumers at or before the announced point are untouched.
    pub fn handle_rolled_back(&mut self, info: &BlockInfo)
        requires
            old(self).wf(),
        ensures
            final(self).wf(),
            final(self).reg().len() == old(self).reg().len(),
            forall|j: int|
                0 <= j < old(self).reg().len() ==> (#[trigger] final(self).reg()[j])
                    == rollback_step(old(self).reg()[j], info.point_v(), true)
                    || final(self).reg()[j] == rollback_step(
                    old(self).reg()[j],
                    info.point_v(),
                    false,
                ),
            forall|j: int|
                0 <= j < old(self).reg().len() && !dispatched_rollback(
                    old(self).reg()[j],
                    info.point_v(),
                ) ==> (#[trigger] final(self).consumers@[j]) == old(self).consumers@[j],
            forall|j: int|
                0 <= j < old(self).reg().len() && dispatched_rollback(
                    old(self).reg()[j],
                    info.point_v(),
                ) && (#[trigger] final(self).reg()[j]).cursor == info.point_v()
                    ==> final(self).persisted().contains_key(old(self).reg()[j].name)
                    && final(self).persisted()[old(self).reg()[j].name] == info.point_v(),
            forall|j: int|
                0 <= j < old(self).reg().len() && dispatched_rollback(
                    old(self).reg()[j],
                    info.point_v(),
                ) ==> I::rollback_post(
                    old(self).consumers@[j].index,
                    (#[trigger] final(self).consumers@[j]).index,
                    *info,
                    final(self).reg()[j].cursor == info.point_v(),
                ),
            forall|j: int|
                0 <= j < old(self).reg().len() && dispatched_rollback(
                    old(self).reg()[j],
                    info.point_v(),
                ) && (#[trigger] final(self).reg()[j]).cursor != info.point_v()
                    ==> final(self).consumers@[j].failure is Some,
            forall|n: Seq<char>|
                !rewound_upto(
                    old(self).reg(),
                    final(self).reg(),
                    info.point_v(),
                    old(self).reg().len() as int,
                ).contains(n) ==> (#[trigger] final(self).persisted().contains_key(n)) == old(
                    self,
                ).persisted().contains_key(n),
            forall|n: Seq<char>|
                !rewound_upto(
                    old(self).reg(),
                    final(self).reg(),
                    info.point_v(),
                    old(self).reg().len() as int,
                ).contains(n) && old(self).persisted().contains_key(n)
                    ==> (#[trigger] final(self).persisted()[n]) == old(self).persisted()[n],
    {
        let ghost pre = self.reg();
        let ghost prec = self.consumers@;
        let ghost oldmap = self.store.cursors();
        let ghost p = info.point_v();
        let n = self.consumers.len();
        let mut i: usize = 0;
        while i < n
            invariant
                i <= n,
                n == self.consumers@.len(),
                pre.len() == n,
                prec.len() == n,
                p == info.point_v(),
                pre == prec.map(|j: int, c: RegisteredConsumer<I>| c.v()),
                self.reg() == self.consumers@.map(|j: int, c: RegisteredConsumer<I>| c.v()),
                forall|j: int, k: int|
                    0 <= j < k < n ==> (#[trigger] pre[j]).name != (#[trigger] pre[k]).name,
                forall|j: int| i <= j < n ==> (#[trigger] self.consumers@[j]) == prec[j],
                forall|j: int|
                    0 <= j < i ==> (#[trigger] self.reg()[j]) == rollback_step(pre[j], p, true)
                        || self.reg()[j] == rollback_step(pre[j], p, false),
                forall|j: int|
                    0 <= j < i && !dispatched_rollback(pre[j], p) ==> (
                    #[trigger] self.consumers@[j]) == prec[j],
                forall|j: int|
                    0 <= j < i && dispatched_rollback(pre[j], p) && (#[trigger] self.reg()[j]).cursor
                        == p ==> self.store.cursors().contains_key(pre[j].name)
                        && self.store.cursors()[pre[j].name] == p,
                forall|j: int|
                    0 <= j < i && dispatched_rollback(pre[j], p) ==> I::rollback_post(
                        prec[j].index,
                        (#[trigger] self.consumers@[j]).index,
                        *info,
                        self.reg()[j].cursor == p,
                    ),
                forall|j: int|
                    0 <= j < i && dispatched_rollback(pre[j], p) && (#[trigger] self.reg()[j]).cursor
                        != p ==> self.consumers@[j].failure is Some,
                forall|m: Seq<char>|
                    !rewound_upto(pre, self.reg(), p, i as int).contains(m) ==> (
                    #[trigger] self.store.cursors().contains_key(m)) == oldmap.contains_key(m),
                forall|m: Seq<char>|
                    !rewound_upto(pre, self.reg(), p, i as int).contains(m) && oldmap.contains_key(
                        m,
                    ) ==> (#[trigger] self.store.cursors()[m]) == oldmap[m],
            decreases n - i,
        {
            let ghost regpre = self.reg();
            let ghost cs = self.consumers@;
            let target = info.point();
            let dispatch = target.is_before(&self.consumers[i].cursor);
            proof {
                let i_ = i as int;
                assert(self.reg()[i_] == self.consumers@[i_].v());
                assert(self.consumers@[i_] == prec[i_]);
                assert(pre[i_] == prec[i_].v());
                assert(dispatch == dispatched_rollback(pre[i_], p));
            }
            if dispatch {
                let ghost removed = self.consumers@[i as int];
                let mut e = self.consumers.remove(i);
                Self::rollback_consumer(&mut self.store, &mut e, info);
                self.consumers.insert(i, e);
                proof {
                    let i_ = i as int;
                    assert(removed == prec[i_] && removed.v() == pre[i_]);
                    assert(self.consumers@ =~= cs.update(i_, self.consumers@[i_]));
                    assert(forall|j: int|
                        0 <= j < n && j != i_ ==> (#[trigger] self.consumers@[j]) == cs[j]);
                    assert(forall|j: int|
                        0 <= j < i_ ==> (#[trigger] self.reg()[j]) == regpre[j]);
                    lemma_rewound_upto_same(pre, regpre, self.reg(), p, i_);
                    assert(self.reg()[i_] == self.consumers@[i_].v());
                    assert(self.reg()[i_] == rollback_step(pre[i_], p, true) || self.reg()[i_]
                        == rollback_step(pre[i_], p, false));
                    if self.reg()[i_].cursor == p {
                        assert(rewound_upto(pre, self.reg(), p, i_ + 1).contains(pre[i_].name));
                    }
                    assert forall|m: Seq<char>|
                        !rewound_upto(pre, self.reg(), p, i_ + 1).contains(
                            m,
                        ) implies !rewound_upto(pre, self.reg(), p, i_).contains(m) by {
                        if rewound_upto(pre, self.reg(), p, i_).contains(m) {
                            let j = choose|j: int|
                                0 <= j < i_ && (#[trigger] pre[j]).name == m && dispatched_rollback(
                                    pre[j],
                                    p,
                                ) && self.reg()[j].cursor == p;
                            assert(0 <= j < i_ + 1 && pre[j].name == m && dispatched_rollback(
                                pre[j],
                                p,
                            ) && self.reg()[j].cursor == p);
                        }
                    }
                }
            } else {
                proof {
                    let i_ = i as int;
                    lemma_rewound_upto_same(pre, regpre, self.reg(), p, i_);
                    assert(self.reg()[i_] == rollback_step(pre[i_], p, true));
                    assert forall|m: Seq<char>|
                        rewound_upto(pre, self.reg(), p, i_ + 1).contains(
                            m,
                        ) implies rewound_upto(pre, self.reg(), p, i_).contains(m) by {
                        let j = choose|j: int|
                            0 <= j < i_ + 1 && (#[trigger] pre[j]).name == m && dispatched_rollback(
                                pre[j],
                                p,
                            ) && self.reg()[j].cursor == p;
                        assert(j != i_);
                        assert(0 <= j < i_ && pre[j].name == m && dispatched_rollback(pre[j], p)
                            && self.reg()[j].cursor == p);
                    }
                }
            }
            i = i + 1;
        }
    }
}

/// Growing the processed prefix by one entry only ever adds that entry's name
/// to the set of advanced names, and entries before the prefix keep their
/// membership.
proof fn lemma_advanced_upto_grow(
    pre: Seq<EntryV>,
    mid: Seq<EntryV>,
    post: Seq<EntryV>,
    p: PointV,
    i: int,
)
    requires
        0 <= i,
        forall|j: int| 0 <= j < i ==> (#[trigger] mid[j]) == post[j],
    ensures
        forall|m: Seq<char>|
            advanced_upto(pre, mid, p, i).contains(m) == (#[trigger] advanced_upto(
                pre,
                post,
                p,
                i,
            ).contains(m)),
{
}

/// Growing the processed prefix by one entry only ever adds that entry's name
/// to the set of rewound names, and entries before the prefix keep their
/// membership.
proof fn lemma_rewound_upto_same(
    pre: Seq<EntryV>,
    mid: Seq<EntryV>,
    post: Seq<EntryV>,
    p: PointV,
    i: int,
)
    requires
        0 <= i,
        forall|j: int| 0 <= j < i ==> (#[trigger] mid[j]) == post[j],
    ensures
        forall|m: Seq<char>|
            rewound_upto(pre, mid, p, i).contains(m) == (#[trigger] rewound_upto(
                pre,
                post,
                p,
                i,
            ).contains(m)),
{
}

} // verus!
