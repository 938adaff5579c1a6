//! The capability contract every consumer implements: apply one transaction
//! at a block, and roll back to a point.

use vstd::prelude::*;

use crate::point::BlockInfo;
use crate::tx::Tx;

verus! {

/// A failure reported by a consumer's handler, kept for operator diagnosis.
#[derive(Debug)]
pub struct IndexError {
    pub message: String,
}

impl IndexError {
    /// Builds a failure report carrying the given message.
    pub fn new(message: String) -> (r: Self)
        ensures
            r.message@ == message@,
    {
        IndexError { message }
    }
}

/// A consumer that derives its own projection of chain state from the event
/// stream. The engine depends only on this contract, never on a concrete
/// consumer.
///
/// Both handlers may fail; a failure halts only this consumer. What a
/// successful call does to the projection is stated by the implementor
/// through `apply_post` and `rollback_post`.
pub trait ManagedIndex: Sized {
    /// The consumer's stable name, used for cursor persistence.
    spec fn name_spec(&self) -> Seq<char>;

    /// What the implementor promises of `handle_onchain_tx`: `post` is the
    /// projection after the call, `pre` before it, `done` whether the call
    /// succeeded.
    spec fn apply_post(pre: Self, post: Self, info: BlockInfo, tx: Tx, done: bool) -> bool;

    /// What the implementor promises of `handle_rollback`.
    spec fn rollback_post(pre: Self, post: Self, info: BlockInfo, done: bool) -> bool;

    /// The consumer's unique, stable name.
    fn name(&self) -> (r: String)
        ensures
            r@ == self.name_spec(),
    ;

    /// Applies one transaction of the block described by `info` to the
    /// projection. Transactions of a block arrive in block order.
    fn handle_onchain_tx(&mut self, info: &BlockInfo, tx: &Tx) -> (r: Result<(), IndexError>)
        ensures
            final(self).name_spec() == old(self).name_spec(),
            Self::apply_post(*old(self), *final(self), *info, *tx, r is Ok),
    ;

    /// Discards all projection state attributed to slots after `info`'s
    /// point, the new tip after a chain reorganization.
    fn handle_rollback(&mut self, info: &BlockInfo) -> (r: Result<(), IndexError>)
        ensures
            final(self).name_spec() == old(self).name_spec(),
            Self::rollback_post(*old(self), *final(self), *info, r is Ok),
    ;
}

/// Two consumers of different types under one registry: each value is one of
/// the two, and every operation goes to the consumer it holds. Pairings nest,
/// so any fixed set of consumer types can share an engine.
pub enum Paired<A: ManagedIndex, B: ManagedIndex> {
    First(A),
    Second(B),
}

impl<A: ManagedIndex, B: ManagedIndex> ManagedIndex for Paired<A, B> {
    open spec fn name_spec(&self) -> Seq<char> {
        match self {
            Paired::First(a) => a.name_spec(),
            Paired::Second(b) => b.name_spec(),
        }
    }

    open spec fn apply_post(pre: Self, post: Self, info: BlockInfo, tx: Tx, done: bool) -> bool {
        match (pre, post) {
            (Paired::First(a0), Paired::First(a1)) => A::apply_post(a0, a1, info, tx, done),
            (Paired::Second(b0), Paired::Second(b1)) => B::apply_post(b0, b1, info, tx, done),
            _ => false,
        }
    }

    open spec fn rollback_post(pre: Self, post: Self, info: BlockInfo, done: bool) -> bool {
        match (pre, post) {
            (Paired::First(a0), Paired::First(a1)) => A::rollback_post(a0, a1, info, done),
            (Paired::Second(b0), Paired::Second(b1)) => B::rollback_post(b0, b1, info, done),
            _ => false,
        }
    }

    fn name(&self) -> (r: String) {
        match self {
            Paired::First(a) => a.name(),
            Paired::Second(b) => b.name(),
        }
    }

    fn handle_onchain_tx(&mut self, info: &BlockInfo, tx: &Tx) -> (r: Result<(), IndexError>) {
        match self {
            Paired::First(a) => a.handle_onchain_tx(info, tx),
            Paired::Second(b) => b.handle_onchain_tx(info, tx),
        }
    }

    fn handle_rollback(&mut self, info: &BlockInfo) -> (r: Result<(), IndexError>) {
        match self {
            Paired::First(a) => a.handle_rollback(info),
            Paired::Second(b) => b.handle_rollback(info),
        }
    }
}

} // verus!
