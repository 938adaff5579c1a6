//! Cursor persistence: a pluggable mapping from consumer name to the last
//! chain position that consumer has committed.

use vstd::prelude::*;

use crate::point::{Point, PointV};

verus! {

/// Persists, per named consumer, the last chain position successfully
/// processed. Backing storage is pluggable; the engine only relies on this
/// contract.
pub trait CursorStore: Sized {
    /// The mapping from consumer name to persisted position.
    spec fn cursors(&self) -> Map<Seq<char>, PointV>;

    /// Returns the persisted position for `name`, if one is present.
    fn load(&self, name: &String) -> (r: Option<Point>)
        ensures
            match r {
                Some(p) => self.cursors().contains_key(name@) && p@ == self.cursors()[name@],
                None => !self.cursors().contains_key(name@),
            },
    ;

    /// Records `point` as the persisted position for `name`.
    fn save(&mut self, name: &String, point: &Point)
        ensures
            final(self).cursors() == old(self).cursors().insert(name@, point@),
    ;
}

/// The cursor map described by a journal of (name, point) records, where a
/// later record for a name supersedes an earlier one.
pub open spec fn journal_map(s: Seq<(String, Point)>) -> Map<Seq<char>, PointV>
    decreases s.len(),
{
    if s.len() == 0 {
        Map::empty()
    } else {
        journal_map(s.drop_last()).insert(s.last().0@, s.last().1@)
    }
}

/// An in-memory cursor store: an append-only journal of saves, read from the
/// most recent record backwards.
pub struct InMemoryCursorStore {
    pub records: Vec<(String, Point)>,
}

impl InMemoryCursorStore {
    /// Creates a store whose contents are the given journal of records.
    pub fn new(records: Vec<(String, Point)>) -> (r: Self)
        ensures
            r.cursors() == journal_map(records@),
    {
        InMemoryCursorStore { records }
    }
}

proof fn lemma_journal_prefix(s: Seq<(String, Point)>, i: int)
    requires
        0 <= i < s.len(),
    ensures
        journal_map(s.take(i + 1)) == journal_map(s.take(i)).insert(s[i].0@, s[i].1@),
{
    let t = s.take(i + 1);
    assert(t.drop_last() =~= s.take(i));
    assert(t.last() == s[i]);
}

impl CursorStore for InMemoryCursorStore {
    open spec fn cursors(&self) -> Map<Seq<char>, PointV> {
        journal_map(self.records@)
    }

    fn load(&self, name: &String) -> (r: Option<Point>) {
        let ghost all = self.records@;
        let mut i: usize = self.records.len();
        proof {
            assert(all.take(i as int) =~= all);
        }
        while i > 0
            invariant
                i <= all.len(),
                self.records@ == all,
                journal_map(all).contains_key(name@) == journal_map(all.take(i as int)).contains_key(name@),
                journal_map(all).contains_key(name@) ==> journal_map(all)[name@] == journal_map(
                    all.take(i as int),
                )[name@],
            decreases i,
        {
            i = i - 1;
            proof {
                lemma_journal_prefix(all, i as int);
            }
            if self.records[i].0 == *name {
                return Some(self.records[i].1.clone());
            }
        }
        proof {
            assert(all.take(0) =~= Seq::<(String, Point)>::empty());
        }
        None
    }

    fn save(&mut self, name: &String, point: &Point) {
        let rec = (clone_string(name), point.clone());
        self.records.push(rec);
        proof {
            assert(self.records@.drop_last() =~= old(self).records@);
        }
    }
}

/// Copy of a string: the copy holds the same characters.
pub fn clone_string(s: &String) -> (r: String)
    ensures
        r@ == s@,
{
    s.clone()
}

} // verus!
