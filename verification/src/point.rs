//! Positions on the chain: block hashes, points and block metadata.

use vstd::prelude::*;

verus! {

/// Number of bytes in a block hash.
pub const BLOCK_HASH_BYTES: usize = 32;

/// Fixed-length byte identifier of a block, opaque beyond equality.
pub struct BlockHash {
    pub bytes: Vec<u8>,
}

impl View for BlockHash {
    type V = Seq<u8>;

    open spec fn view(&self) -> Seq<u8> {
        self.bytes@
    }
}

impl BlockHash {
    /// A hash is well formed when it has exactly the fixed length.
    pub open spec fn wf(&self) -> bool {
        self@.len() == BLOCK_HASH_BYTES
    }
}

impl Clone for BlockHash {
    fn clone(&self) -> (r: Self)
        ensures
            r@ == self@,
    {
        BlockHash { bytes: clone_bytes(&self.bytes) }
    }
}

/// Byte-for-byte copy of a byte vector.
pub fn clone_bytes(v: &Vec<u8>) -> (r: Vec<u8>)
    ensures
        r@ == v@,
{
    let mut out: Vec<u8> = Vec::new();
    let mut i: usize = 0;
    while i < v.len()
        invariant
            i <= v@.len(),
            out@ == v@.take(i as int),
        decreases v@.len() - i,
    {
        out.push(v[i]);
        i = i + 1;
        proof {
            assert(out@ =~= v@.take(i as int));
        }
    }
    proof {
        assert(v@.take(v@.len() as int) =~= v@);
    }
    out
}

/// Whether two byte vectors hold the same bytes.
pub fn bytes_eq(a: &Vec<u8>, b: &Vec<u8>) -> (r: bool)
    ensures
        r == (a@ == b@),
{
    if a.len() != b.len() {
        return false;
    }
    let mut i: usize = 0;
    while i < a.len()
        invariant
            i <= a@.len(),
            a@.len() == b@.len(),
            forall|j: int| 0 <= j < i ==> a@[j] == b@[j],
        decreases a@.len() - i,
    {
        if a[i] != b[i] {
            return false;
        }
        i = i + 1;
    }
    proof {
        assert(a@ =~= b@);
    }
    true
}

/// Mathematical model of a chain position: the origin of the chain, or a
/// specific block identified by slot and hash.
pub enum PointV {
    Origin,
    Specific { slot: u64, hash: Seq<u8> },
}

/// A position on the chain: either the origin or a specific (slot, hash) pair.
pub enum Point {
    Origin,
    Specific(u64, BlockHash),
}

impl View for Point {
    type V = PointV;

    open spec fn view(&self) -> PointV {
        match self {
            Point::Origin => PointV::Origin,
            Point::Specific(slot, hash) => PointV::Specific { slot: *slot, hash: hash@ },
        }
    }
}

/// The slot a point stands at, with the origin strictly below every slot.
pub open spec fn slot_of(p: PointV) -> int {
    match p {
        PointV::Origin => -1,
        PointV::Specific { slot, .. } => slot as int,
    }
}

/// The order points are compared in: by slot, origin first. Two specific
/// points at one slot but with different hashes are unordered siblings
/// (distinct forks), so neither is before the other.
pub open spec fn point_before(a: PointV, b: PointV) -> bool {
    slot_of(a) < slot_of(b)
}

impl Point {
    /// Decides whether `self` stands strictly before `other` on the chain.
    pub fn is_before(&self, other: &Point) -> (r: bool)
        ensures
            r == point_before(self@, other@),
    {
        match (self, other) {
            (Point::Origin, Point::Origin) => false,
            (Point::Origin, Point::Specific(_, _)) => true,
            (Point::Specific(_, _), Point::Origin) => false,
            (Point::Specific(a, _), Point::Specific(b, _)) => *a < *b,
        }
    }
}

impl Clone for Point {
    fn clone(&self) -> (r: Self)
        ensures
            r@ == self@,
    {
        match self {
            Point::Origin => Point::Origin,
            Point::Specific(slot, hash) => Point::Specific(*slot, hash.clone()),
        }
    }
}

/// Header-derived metadata of one block, produced once per block by the
/// upstream source and immutable afterwards.
pub struct BlockInfo {
    pub slot: u64,
    pub hash: BlockHash,
    pub height: u64,
}

impl BlockInfo {
    /// The chain position this block stands at.
    pub open spec fn point_v(&self) -> PointV {
        PointV::Specific { slot: self.slot, hash: self.hash@ }
    }

    /// The chain position this block stands at.
    pub fn point(&self) -> (r: Point)
        ensures
            r@ == self.point_v(),
    {
        Point::Specific(self.slot, self.hash.clone())
    }
}

} // verus!
