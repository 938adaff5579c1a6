//! Laws of the dispatch step functions: how a consumer's engine-visible state
//! evolves over whole runs of blocks and rollbacks.

use vstd::prelude::*;

use crate::index::ManagedIndex;
use crate::indexer::{
    applied_consumer_run, block_step, dispatched_block, dispatched_rollback, rollback_step, EntryV,
};
use crate::point::{point_before, slot_of, BlockInfo, PointV};
use crate::tx::Tx;

verus! {

/// A consumer whose apply handler cannot fail is never halted by block
/// dispatch: any run of a block's transactions through it succeeds, so the
/// engine's only admissible outcome for it is the advanced cursor.
pub proof fn lemma_never_failing_run_succeeds<I: ManagedIndex>(
    pre: I,
    post: I,
    info: BlockInfo,
    txs: Seq<Tx>,
    done: bool,
)
    requires
        applied_consumer_run(pre, post, info, txs, done),
        forall|a: I, b: I, t: Tx| !(#[trigger] I::apply_post(a, b, info, t, false)),
    ensures
        done,
    decreases txs.len(),
{
    if txs.len() > 0 && !done {
        assert(exists|mid: I|
            #[trigger] I::apply_post(pre, mid, info, txs[0], true) && applied_consumer_run(
                mid,
                post,
                info,
                txs.drop_first(),
                done,
            ));
        let mid = choose|mid: I|
            #[trigger] I::apply_post(pre, mid, info, txs[0], true) && applied_consumer_run(
                mid,
                post,
                info,
                txs.drop_first(),
                done,
            );
        lemma_never_failing_run_succeeds(mid, post, info, txs.drop_first(), done);
    }
}

/// The consumer state after a run of blocks at the given points, the matching
/// element of `oks` saying whether the consumer's handlers succeeded on that
/// block.
pub open spec fn run_blocks(e: EntryV, steps: Seq<(PointV, bool)>) -> EntryV
    decreases steps.len(),
{
    if steps.len() == 0 {
        e
    } else {
        run_blocks(block_step(e, steps[0].0, steps[0].1), steps.drop_first())
    }
}

/// Pairs each block point with its handler outcome.
pub open spec fn zip_steps(points: Seq<PointV>, oks: Seq<bool>) -> Seq<(PointV, bool)> {
    Seq::new(points.len(), |i: int| (points[i], oks[i]))
}

/// Whether the points stand in strictly increasing slot order.
pub open spec fn strictly_increasing(points: Seq<PointV>) -> bool {
    forall|i: int, j: int|
        0 <= i < j < points.len() ==> slot_of(#[trigger] points[i]) < slot_of(#[trigger] points[j])
}

/// A Halted consumer is frozen: no run of blocks changes its state.
pub proof fn lemma_halted_frozen(e: EntryV, steps: Seq<(PointV, bool)>)
    requires
        !e.live,
    ensures
        run_blocks(e, steps) == e,
    decreases steps.len(),
{
    if steps.len() > 0 {
        assert(block_step(e, steps[0].0, steps[0].1) == e);
        lemma_halted_frozen(e, steps.drop_first());
    }
}

/// Monotonic progress: over any run of blocks with strictly increasing slots,
/// all beyond its cursor, a consumer whose handler succeeds on every block
/// stays Active and its cursor ends exactly at the last block's point.
pub proof fn lemma_monotonic_progress(e: EntryV, points: Seq<PointV>, oks: Seq<bool>)
    requires
        e.live,
        points.len() == oks.len(),
        points.len() > 0,
        slot_of(e.cursor) < slot_of(points[0]),
        strictly_increasing(points),
        forall|i: int| 0 <= i < oks.len() ==> oks[i],
    ensures
        run_blocks(e, zip_steps(points, oks)).live,
        run_blocks(e, zip_steps(points, oks)).cursor == points.last(),
        run_blocks(e, zip_steps(points, oks)).name == e.name,
    decreases points.len(),
{
    let steps = zip_steps(points, oks);
    assert(steps[0] == (points[0], oks[0]));
    assert(dispatched_block(e, points[0]));
    let e1 = block_step(e, points[0], true);
    if points.len() == 1 {
        assert(steps.drop_first().len() == 0);
        assert(run_blocks(e1, steps.drop_first()) == e1) by {
            reveal_with_fuel(run_blocks, 2);
        }
    } else {
        assert(steps.drop_first() =~= zip_steps(points.drop_first(), oks.drop_first()));
        assert(slot_of(e1.cursor) < slot_of(points.drop_first()[0]));
        lemma_monotonic_progress(e1, points.drop_first(), oks.drop_first());
        assert(points.drop_first().last() == points.last());
    }
}

/// Failure halts exactly at the failing block: over any run of blocks with
/// strictly increasing slots, all beyond its cursor, a consumer whose handler
/// succeeds up to block `f` and fails there ends Halted, with its cursor
/// frozen at the last block that succeeded (its starting cursor when the very
/// first block failed), whatever the outcomes after `f`.
pub proof fn lemma_halts_at_first_failure(
    e: EntryV,
    points: Seq<PointV>,
    oks: Seq<bool>,
    f: int,
)
    requires
        e.live,
        points.len() == oks.len(),
        0 <= f < points.len(),
        slot_of(e.cursor) < slot_of(points[0]),
        strictly_increasing(points),
        forall|i: int| 0 <= i < f ==> oks[i],
        !oks[f],
    ensures
        !run_blocks(e, zip_steps(points, oks)).live,
        run_blocks(e, zip_steps(points, oks)).cursor == if f == 0 {
            e.cursor
        } else {
            points[f - 1]
        },
        run_blocks(e, zip_steps(points, oks)).name == e.name,
    decreases points.len(),
{
    let steps = zip_steps(points, oks);
    assert(steps[0] == (points[0], oks[0]));
    assert(dispatched_block(e, points[0]));
    assert(steps.drop_first() =~= zip_steps(points.drop_first(), oks.drop_first()));
    if f == 0 {
        let e1 = block_step(e, points[0], false);
        assert(!e1.live && e1.cursor == e.cursor && e1.name == e.name);
        lemma_halted_frozen(e1, steps.drop_first());
    } else {
        let e1 = block_step(e, points[0], true);
        assert(slot_of(e1.cursor) < slot_of(points.drop_first()[0]));
        lemma_halts_at_first_failure(e1, points.drop_first(), oks.drop_first(), f - 1);
        if f == 1 {
            assert(e1.cursor == points[0]);
        } else {
            assert(points.drop_first()[f - 2] == points[f - 1]);
        }
    }
}

/// Idempotent replay guard: a block at or before a consumer's cursor leaves
/// the consumer's state unchanged, whatever its handler would have answered.
pub proof fn lemma_idempotent_replay(e: EntryV, p: PointV, done: bool)
    requires
        !point_before(e.cursor, p),
    ensures
        block_step(e, p, done) == e,
{
}

/// Rollback rewinds exactly to the announced point: a consumer whose cursor
/// exceeded the target has its cursor set to exactly the target on success,
/// and is halted with its cursor frozen on failure; a consumer at or before
/// the target is untouched.
pub proof fn lemma_rollback_rewinds(e: EntryV, p: PointV, done: bool)
    ensures
        point_before(p, e.cursor) && done ==> rollback_step(e, p, done) == (EntryV {
            name: e.name,
            cursor: p,
            live: e.live,
        }),
        point_before(p, e.cursor) && !done ==> rollback_step(e, p, done) == (EntryV {
            name: e.name,
            cursor: e.cursor,
            live: false,
        }),
        !point_before(p, e.cursor) ==> rollback_step(e, p, done) == e,
{
}

/// A cursor never jumps arbitrarily: block application only ever moves it
/// forward, and a successful rollback leaves it at or before the announced
/// target.
pub proof fn lemma_cursor_movement(e: EntryV, p: PointV, done: bool)
    ensures
        slot_of(block_step(e, p, done).cursor) >= slot_of(e.cursor),
        done ==> !point_before(p, rollback_step(e, p, done).cursor),
{
}

/// Failure isolation: two consumers start Active below a run of blocks with
/// strictly increasing slots. One consumer's handler fails on block `f`: it
/// ends Halted, its cursor frozen just before block `f`. The other consumer's
/// handler succeeds everywhere: it still receives every block, ends Active,
/// and its cursor ends at the last block — untouched by its neighbour's
/// failure.
pub proof fn lemma_failure_isolation(
    a: EntryV,
    b: EntryV,
    points: Seq<PointV>,
    a_oks: Seq<bool>,
    b_oks: Seq<bool>,
    f: int,
)
    requires
        a.live,
        b.live,
        points.len() == a_oks.len(),
        points.len() == b_oks.len(),
        0 <= f < points.len(),
        slot_of(a.cursor) < slot_of(points[0]),
        slot_of(b.cursor) < slot_of(points[0]),
        strictly_increasing(points),
        forall|i: int| 0 <= i < f ==> a_oks[i],
        !a_oks[f],
        forall|i: int| 0 <= i < b_oks.len() ==> b_oks[i],
    ensures
        !run_blocks(a, zip_steps(points, a_oks)).live,
        run_blocks(a, zip_steps(points, a_oks)).cursor == if f == 0 {
            a.cursor
        } else {
            points[f - 1]
        },
        run_blocks(b, zip_steps(points, b_oks)).live,
        run_blocks(b, zip_steps(points, b_oks)).cursor == points.last(),
{
    lemma_halts_at_first_failure(a, points, a_oks, f);
    lemma_monotonic_progress(b, points, b_oks);
}

} // verus!
