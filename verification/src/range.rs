//! Sets of inclusive `u64` ranges with merge-on-insert and split-on-remove.
//!
//! A [`RangeSet`] keeps a bounded number of disjoint, non-adjacent ranges in
//! ascending order. [`RangeSet::insert`] unions a range into the set, merging
//! it with any touching or overlapping neighbours; [`RangeSet::remove`]
//! subtracts a range, shrinking, deleting or splitting the stored ranges.

use vstd::prelude::*;

verus! {

/// Capacity of the storage backing a [`RangeSet`]: the largest number of
/// disjoint ranges the set can hold.
pub const RANGE_SET_SIZE: usize = 256;

/// Error produced by `Range` and `RangeSet` operations.
#[derive(Debug)]
pub enum Error {
    /// Invalid range boundaries: the start point exceeds the end point.
    InvalidBoundaries(u64, u64),

    /// The fixed-capacity storage that backs the `RangeSet` is full. It is
    /// not possible to track more ranges.
    FullRangeSet,
}

/// An inclusive range `[start, end]` of 64-bit values.
#[derive(Debug, Copy, Clone, Eq, PartialEq, Structural)]
pub struct Range {
    /// Range start.
    start: u64,

    /// Range end.
    end: u64,
}

impl Range {
    /// Start point, for specifications.
    pub closed spec fn spec_start(self) -> u64 {
        self.start
    }

    /// End point, for specifications.
    pub closed spec fn spec_end(self) -> u64 {
        self.end
    }

    /// A range is well formed when its start does not exceed its end.
    pub open spec fn inv(self) -> bool {
        self.spec_start() <= self.spec_end()
    }

    /// Number of points in the range.
    pub open spec fn spec_size(self) -> int {
        self.spec_end() - self.spec_start() + 1
    }

    /// Whether `point` lies inside the range.
    pub open spec fn spec_contains_point(self, point: u64) -> bool {
        self.spec_start() <= point && point <= self.spec_end()
    }

    /// Whether both endpoints of `other` lie inside the range.
    pub open spec fn spec_contains_range(self, other: Range) -> bool {
        self.spec_contains_point(other.spec_start())
            && self.spec_contains_point(other.spec_end())
    }

    /// Whether the two ranges share at least one point (both well formed).
    pub open spec fn spec_overlaps(self, other: Range) -> bool {
        self.spec_contains_point(other.spec_start())
            || self.spec_contains_point(other.spec_end())
            || other.spec_contains_point(self.spec_start())
            || other.spec_contains_point(self.spec_end())
    }

    /// Whether the range lies strictly inside `outer`: removing it from
    /// `outer` leaves points on both sides.
    pub open spec fn spec_strictly_within(self, outer: Range) -> bool {
        outer.spec_start() < self.spec_start() && self.spec_end() < outer.spec_end()
    }

    /// Returns a new `Range`.
    ///
    /// # Errors
    ///
    /// This function returns `Error::InvalidBoundaries` if the end point is
    /// lower than the start point of the range.
    pub fn new(start: u64, end: u64) -> (r: Result<Range, Error>)
        ensures
            start <= end ==> r is Ok,
            start > end ==> r == Err::<Range, Error>(Error::InvalidBoundaries(start, end)),
            r matches Ok(rg) ==> rg.spec_start() == start && rg.spec_end() == end && rg.inv(),
    {
        if start <= end {
            Ok(Range { start, end })
        } else {
            Err(Error::InvalidBoundaries(start, end))
        }
    }

    /// Returns the start point of the range.
    pub fn start(&self) -> (r: u64)
        ensures
            r == self.spec_start(),
    {
        self.start
    }

    /// Returns the end point of the range.
    pub fn end(&self) -> (r: u64)
        ensures
            r == self.spec_end(),
    {
        self.end
    }

    /// Returns `true` if the range contains a given point.
    pub fn contains_point(&self, point: u64) -> (r: bool)
        ensures
            r == self.spec_contains_point(point),
    {
        point >= self.start && point <= self.end
    }

    /// Returns `true` if the range contains a given range.
    pub fn contains_range(&self, range: Range) -> (r: bool)
        ensures
            r == self.spec_contains_range(range),
    {
        self.contains_point(range.start) && self.contains_point(range.end)
    }

    /// Returns `true` if the ranges overlap.
    pub fn overlaps(&self, range: Range) -> (r: bool)
        ensures
            r == self.spec_overlaps(range),
    {
        self.contains_point(range.start)
            || self.contains_point(range.end)
            || range.contains_point(self.start)
            || range.contains_point(self.end)
    }

    /// Returns the size of the range: the number of points it contains.
    ///
    /// The count of the full range `[0, u64::MAX]` does not fit in a `u64`,
    /// so that one range is excluded.
    pub fn size(&self) -> (r: u64)
        requires
            self.inv(),
            self.spec_size() <= u64::MAX,
        ensures
            r == self.spec_size(),
    {
        self.end - self.start + 1
    }
}

/// Whether some range of `s` contains the point `a`.
pub open spec fn covered(s: Seq<Range>, a: u64) -> bool {
    exists|i: int| 0 <= i < s.len() && (#[trigger] s[i]).spec_contains_point(a)
}

/// The two lists cover exactly the same points.
pub open spec fn same_cover(post: Seq<Range>, pre: Seq<Range>) -> bool {
    forall|a: u64| covered(post, a) == covered(pre, a)
}

/// The first list covers exactly the points of the second plus those of `r`.
pub open spec fn union_cover(post: Seq<Range>, pre: Seq<Range>, r: Range) -> bool {
    forall|a: u64| covered(post, a) <==> (covered(pre, a) || r.spec_contains_point(a))
}

/// The first list covers exactly the points of the second minus those of `r`.
pub open spec fn diff_cover(post: Seq<Range>, pre: Seq<Range>, r: Range) -> bool {
    forall|a: u64| covered(post, a) <==> (covered(pre, a) && !r.spec_contains_point(a))
}

/// Covering the same points is transitive.
pub proof fn lemma_same_cover_trans(s1: Seq<Range>, s2: Seq<Range>, s3: Seq<Range>)
    requires
        same_cover(s2, s1),
        same_cover(s3, s2),
    ensures
        same_cover(s3, s1),
{
    assert forall|a: u64| covered(s3, a) == covered(s1, a) by {
        assert(covered(s3, a) == covered(s2, a));
        assert(covered(s2, a) == covered(s1, a));
    }
}

/// Adding the points of `r` and then keeping the covered points unchanged
/// still adds exactly the points of `r`.
pub proof fn lemma_union_then_same(s1: Seq<Range>, s2: Seq<Range>, s3: Seq<Range>, r: Range)
    requires
        union_cover(s2, s1, r),
        same_cover(s3, s2),
    ensures
        union_cover(s3, s1, r),
{
    assert forall|a: u64| covered(s3, a) <==> (covered(s1, a) || r.spec_contains_point(a)) by {
        assert(covered(s3, a) == covered(s2, a));
        assert(covered(s2, a) <==> (covered(s1, a) || r.spec_contains_point(a)));
    }
}

/// The canonical shape of a range list: every range well formed, and every
/// consecutive pair separated by a gap of at least one point (sorted,
/// disjoint and maximally merged).
pub open spec fn canonical(s: Seq<Range>) -> bool {
    &&& forall|i: int| 0 <= i < s.len() ==> (#[trigger] s[i]).inv()
    &&& forall|i: int| 0 <= i && i + 1 < s.len()
        ==> (#[trigger] s[i]).spec_end() + 1 < s[i + 1].spec_start()
}

/// Starts strictly increase along `s`, and every range is well formed: the
/// shape the insertion scan establishes before merging.
pub open spec fn sorted_starts(s: Seq<Range>) -> bool {
    &&& forall|i: int| 0 <= i < s.len() ==> (#[trigger] s[i]).inv()
    &&& forall|i: int| 0 <= i && i + 1 < s.len()
        ==> (#[trigger] s[i]).spec_start() < s[i + 1].spec_start()
}

/// Total number of points covered by the ranges of `s`, counted with
/// multiplicity.
pub open spec fn seq_total_size(s: Seq<Range>) -> int
    decreases s.len(),
{
    if s.len() == 0 {
        0
    } else {
        s[0].spec_size() + seq_total_size(s.drop_first())
    }
}

/// Extending a prefix by one range adds that range's size to the prefix
/// total.
pub proof fn lemma_total_take_step(s: Seq<Range>, i: int)
    requires
        0 <= i < s.len(),
    ensures
        seq_total_size(s.take(i + 1)) == seq_total_size(s.take(i)) + s[i].spec_size(),
    decreases i,
{
    if i == 0 {
        assert(s.take(1) =~= seq![s[0]]);
        assert(s.take(1).drop_first() =~= Seq::<Range>::empty());
        assert(s.take(0) =~= Seq::<Range>::empty());
    } else {
        let t = s.drop_first();
        lemma_total_take_step(t, i - 1);
        assert(s.take(i + 1).drop_first() =~= t.take(i));
        assert(s.take(i).drop_first() =~= t.take(i - 1));
        assert(s.take(i + 1)[0] == s[0]);
        assert(s.take(i)[0] == s[0]);
        assert(t[i - 1] == s[i]);
    }
}

/// The total size of a list of well-formed ranges is not negative.
pub proof fn lemma_total_nonneg(s: Seq<Range>)
    requires
        forall|k: int| 0 <= k < s.len() ==> (#[trigger] s[k]).inv(),
    ensures
        seq_total_size(s) >= 0,
    decreases s.len(),
{
    if s.len() > 0 {
        let t = s.drop_first();
        assert(forall|k: int| 0 <= k < t.len() ==> #[trigger] t[k] == s[k + 1]);
        lemma_total_nonneg(t);
    }
}

/// A prefix of a list of well-formed ranges never exceeds the whole total.
pub proof fn lemma_total_prefix_bound(s: Seq<Range>, i: int)
    requires
        0 <= i <= s.len(),
        forall|k: int| 0 <= k < s.len() ==> (#[trigger] s[k]).inv(),
    ensures
        seq_total_size(s.take(i)) <= seq_total_size(s),
    decreases s.len() - i,
{
    if i < s.len() {
        lemma_total_take_step(s, i);
        lemma_total_prefix_bound(s, i + 1);
    } else {
        assert(s.take(i) =~= s);
    }
}

/// In a canonical list, a later range starts beyond the end of an earlier
/// one, with a gap in between.
pub proof fn lemma_canonical_ordered(s: Seq<Range>, i: int, j: int)
    requires
        canonical(s),
        0 <= i < j < s.len(),
    ensures
        s[i].spec_end() + 1 < s[j].spec_start(),
    decreases j - i,
{
    if i + 1 < j {
        lemma_canonical_ordered(s, i + 1, j);
    }
}

/// In a canonical list, no point belongs to two distinct ranges.
pub proof fn lemma_canonical_unique_cover(s: Seq<Range>, i: int, j: int, a: u64)
    requires
        canonical(s),
        0 <= i < s.len(),
        0 <= j < s.len(),
        s[i].spec_contains_point(a),
        s[j].spec_contains_point(a),
    ensures
        i == j,
{
    if i < j {
        lemma_canonical_ordered(s, i, j);
    } else if j < i {
        lemma_canonical_ordered(s, j, i);
    }
}

/// A canonical list is in particular sorted by start point, with no two
/// ranges sharing a start.
pub proof fn lemma_sorted_from_canonical(s: Seq<Range>)
    requires
        canonical(s),
    ensures
        sorted_starts(s),
{
    assert forall|i: int| 0 <= i && i + 1 < s.len() implies (#[trigger] s[i]).spec_start()
        < s[i + 1].spec_start() by {
        assert(s[i].inv());
        assert(s[i].spec_end() + 1 < s[i + 1].spec_start());
    }
}

/// Inserting a range into a list adds exactly its points to the covered set.
proof fn lemma_covered_insert(s: Seq<Range>, i: int, r: Range)
    requires
        0 <= i <= s.len(),
    ensures
        union_cover(s.insert(i, r), s, r),
{
    s.insert_ensures(i, r);
    let t = s.insert(i, r);
    assert forall|a: u64| covered(t, a) implies (covered(s, a) || r.spec_contains_point(a)) by {
        let k = choose|k: int| 0 <= k < t.len() && (#[trigger] t[k]).spec_contains_point(a);
        if k < i {
            assert(s[k].spec_contains_point(a));
        } else if k > i {
            assert(s[k - 1].spec_contains_point(a));
        }
    }
    assert forall|a: u64| (covered(s, a) || r.spec_contains_point(a)) implies covered(t, a) by {
        if covered(s, a) {
            let k = choose|k: int| 0 <= k < s.len() && (#[trigger] s[k]).spec_contains_point(a);
            if k < i {
                assert(t[k].spec_contains_point(a));
            } else {
                assert(t[k + 1].spec_contains_point(a));
            }
        } else {
            assert(t[i].spec_contains_point(a));
        }
    }
}

/// Extending the end of a range to absorb a second range with the same start
/// adds exactly the points of the second range to the covered set.
proof fn lemma_covered_extend_same_start(s: Seq<Range>, i: int, r: Range, m: Range)
    requires
        0 <= i < s.len(),
        s[i].inv(),
        r.inv(),
        r.spec_start() == s[i].spec_start(),
        m.spec_start() == s[i].spec_start(),
        m.spec_end() == if r.spec_end() > s[i].spec_end() {
            r.spec_end()
        } else {
            s[i].spec_end()
        },
    ensures
        union_cover(s.update(i, m), s, r),
{
    let t = s.update(i, m);
    assert forall|a: u64| covered(t, a) implies (covered(s, a) || r.spec_contains_point(a)) by {
        let k = choose|k: int| 0 <= k < t.len() && (#[trigger] t[k]).spec_contains_point(a);
        if k != i {
            assert(s[k].spec_contains_point(a));
        } else if a <= s[i].spec_end() {
            assert(s[i].spec_contains_point(a));
        }
    }
    assert forall|a: u64| (covered(s, a) || r.spec_contains_point(a)) implies covered(t, a) by {
        if covered(s, a) {
            let k = choose|k: int| 0 <= k < s.len() && (#[trigger] s[k]).spec_contains_point(a);
            if k != i {
                assert(t[k].spec_contains_point(a));
            } else {
                assert(t[i].spec_contains_point(a));
            }
        } else {
            assert(t[i].spec_contains_point(a));
        }
    }
}

/// Growing the end of a range up to the end of its touching or overlapping
/// successor leaves the covered set unchanged: the pair covers one contiguous
/// block.
proof fn lemma_covered_extend_pair(s: Seq<Range>, i: int, ext: Range)
    requires
        0 <= i,
        i + 1 < s.len(),
        s[i].inv(),
        s[i + 1].inv(),
        s[i].spec_start() <= s[i + 1].spec_start(),
        s[i + 1].spec_start() <= s[i].spec_end() + 1,
        s[i].spec_end() <= s[i + 1].spec_end(),
        ext.spec_start() == s[i].spec_start(),
        ext.spec_end() == s[i + 1].spec_end(),
    ensures
        same_cover(s.update(i, ext), s),
{
    let t = s.update(i, ext);
    assert forall|a: u64| covered(t, a) implies covered(s, a) by {
        let k = choose|k: int| 0 <= k < t.len() && (#[trigger] t[k]).spec_contains_point(a);
        if k != i {
            assert(s[k].spec_contains_point(a));
        } else if a <= s[i].spec_end() {
            assert(s[i].spec_contains_point(a));
        } else {
            assert(s[i + 1].spec_contains_point(a));
        }
    }
    assert forall|a: u64| covered(s, a) implies covered(t, a) by {
        let k = choose|k: int| 0 <= k < s.len() && (#[trigger] s[k]).spec_contains_point(a);
        if k == i + 1 || k == i {
            assert(t[i].spec_contains_point(a));
        } else {
            assert(t[k].spec_contains_point(a));
        }
    }
}

/// Dropping a range whose points all lie within its predecessor leaves the
/// covered set unchanged.
proof fn lemma_covered_drop_contained(s: Seq<Range>, i: int)
    requires
        0 <= i,
        i + 1 < s.len(),
        s[i].spec_start() <= s[i + 1].spec_start(),
        s[i + 1].spec_end() <= s[i].spec_end(),
    ensures
        same_cover(s.remove(i + 1), s),
{
    s.remove_ensures(i + 1);
    let t = s.remove(i + 1);
    assert forall|a: u64| covered(t, a) implies covered(s, a) by {
        let k = choose|k: int| 0 <= k < t.len() && (#[trigger] t[k]).spec_contains_point(a);
        if k <= i {
            assert(s[k].spec_contains_point(a));
        } else {
            assert(s[k + 1].spec_contains_point(a));
        }
    }
    assert forall|a: u64| covered(s, a) implies covered(t, a) by {
        let k = choose|k: int| 0 <= k < s.len() && (#[trigger] s[k]).spec_contains_point(a);
        if k == i + 1 {
            assert(t[i].spec_contains_point(a));
        } else if k < i + 1 {
            assert(t[k].spec_contains_point(a));
        } else {
            assert(t[k - 1].spec_contains_point(a));
        }
    }
}

/// Deleting one range of a canonical list removes exactly its points from
/// the covered set, and keeps the list canonical.
proof fn lemma_covered_remove_entry(s: Seq<Range>, i: int)
    requires
        canonical(s),
        0 <= i < s.len(),
    ensures
        canonical(s.remove(i)),
        forall|a: u64| covered(s.remove(i), a) <==> (covered(s, a)
            && !s[i].spec_contains_point(a)),
{
    s.remove_ensures(i);
    let t = s.remove(i);
    assert forall|k: int| 0 <= k && k + 1 < t.len() implies (#[trigger] t[k]).spec_end() + 1
        < t[k + 1].spec_start() by {
        if k + 1 < i {
            assert(t[k] == s[k] && t[k + 1] == s[k + 1]);
        } else if k + 1 == i {
            assert(t[k] == s[k] && t[k + 1] == s[k + 2]);
            lemma_canonical_ordered(s, k, k + 2);
        } else {
            assert(t[k] == s[k + 1] && t[k + 1] == s[k + 2]);
        }
    }
    assert forall|a: u64| covered(t, a) implies (covered(s, a)
        && !s[i].spec_contains_point(a)) by {
        let k = choose|k: int| 0 <= k < t.len() && (#[trigger] t[k]).spec_contains_point(a);
        let k_s = if k < i { k } else { k + 1 };
        assert(s[k_s].spec_contains_point(a));
        if s[i].spec_contains_point(a) {
            lemma_canonical_unique_cover(s, k_s, i, a);
        }
    }
    assert forall|a: u64| (covered(s, a) && !s[i].spec_contains_point(a)) implies covered(t, a) by {
        let k = choose|k: int| 0 <= k < s.len() && (#[trigger] s[k]).spec_contains_point(a);
        if k < i {
            assert(t[k].spec_contains_point(a));
        } else {
            assert(t[k - 1].spec_contains_point(a));
        }
    }
}

/// Raising the start of one range of a canonical list removes exactly the
/// points left behind, and keeps the list canonical.
proof fn lemma_covered_shrink_start(s: Seq<Range>, i: int, m: Range)
    requires
        canonical(s),
        0 <= i < s.len(),
        m.inv(),
        m.spec_end() == s[i].spec_end(),
        s[i].spec_start() <= m.spec_start(),
    ensures
        canonical(s.update(i, m)),
        forall|a: u64| covered(s.update(i, m), a) <==> (covered(s, a)
            && !(s[i].spec_start() <= a < m.spec_start())),
{
    let t = s.update(i, m);
    assert forall|k: int| 0 <= k && k + 1 < t.len() implies (#[trigger] t[k]).spec_end() + 1
        < t[k + 1].spec_start() by {
        assert(s[k].spec_end() + 1 < s[k + 1].spec_start());
    }
    assert forall|a: u64| covered(t, a) implies (covered(s, a)
        && !(s[i].spec_start() <= a < m.spec_start())) by {
        let k = choose|k: int| 0 <= k < t.len() && (#[trigger] t[k]).spec_contains_point(a);
        assert(s[k].spec_contains_point(a));
        if s[i].spec_start() <= a < m.spec_start() {
            assert(s[i].spec_contains_point(a));
            lemma_canonical_unique_cover(s, k, i, a);
        }
    }
    assert forall|a: u64| (covered(s, a) && !(s[i].spec_start() <= a < m.spec_start()))
        implies covered(t, a) by {
        let k = choose|k: int| 0 <= k < s.len() && (#[trigger] s[k]).spec_contains_point(a);
        assert(t[k].spec_contains_point(a));
    }
}

/// Lowering the end of one range of a canonical list removes exactly the
/// points left behind, and keeps the list canonical.
proof fn lemma_covered_shrink_end(s: Seq<Range>, i: int, m: Range)
    requires
        canonical(s),
        0 <= i < s.len(),
        m.inv(),
        m.spec_start() == s[i].spec_start(),
        m.spec_end() <= s[i].spec_end(),
    ensures
        canonical(s.update(i, m)),
        forall|a: u64| covered(s.update(i, m), a) <==> (covered(s, a)
            && !(m.spec_end() < a <= s[i].spec_end())),
{
    let t = s.update(i, m);
    assert forall|k: int| 0 <= k && k + 1 < t.len() implies (#[trigger] t[k]).spec_end() + 1
        < t[k + 1].spec_start() by {
        assert(s[k].spec_end() + 1 < s[k + 1].spec_start());
    }
    assert forall|a: u64| covered(t, a) implies (covered(s, a)
        && !(m.spec_end() < a <= s[i].spec_end())) by {
        let k = choose|k: int| 0 <= k < t.len() && (#[trigger] t[k]).spec_contains_point(a);
        assert(s[k].spec_contains_point(a));
        if m.spec_end() < a <= s[i].spec_end() {
            assert(s[i].spec_contains_point(a));
            lemma_canonical_unique_cover(s, k, i, a);
        }
    }
    assert forall|a: u64| (covered(s, a) && !(m.spec_end() < a <= s[i].spec_end()))
        implies covered(t, a) by {
        let k = choose|k: int| 0 <= k < s.len() && (#[trigger] s[k]).spec_contains_point(a);
        assert(t[k].spec_contains_point(a));
    }
}

/// Splitting a range of a canonical list around a strictly interior range
/// removes exactly the interior points, and keeps the list canonical.
#[verifier::rlimit(100)]
proof fn lemma_covered_split(s: Seq<Range>, i: int, inner: Range, left: Range, right: Range)
    requires
        canonical(s),
        0 <= i < s.len(),
        inner.inv(),
        inner.spec_strictly_within(s[i]),
        left.spec_start() == s[i].spec_start(),
        left.spec_end() + 1 == inner.spec_start(),
        right.spec_start() == inner.spec_end() + 1,
        right.spec_end() == s[i].spec_end(),
    ensures
        canonical(s.update(i, right).insert(i, left)),
        s.update(i, right).insert(i, left).len() == s.len() + 1,
        forall|a: u64| covered(s.update(i, right).insert(i, left), a) <==> (covered(s, a)
            && !inner.spec_contains_point(a)),
{
    let mid = s.update(i, right);
    lemma_covered_shrink_start(s, i, right);
    mid.insert_ensures(i, left);
    lemma_covered_insert(mid, i, left);
    let t = mid.insert(i, left);
    assert forall|k: int| 0 <= k < t.len() implies (#[trigger] t[k]).inv() by {
        if k < i {
            assert(t[k] == s[k]);
        } else if k == i + 1 {
            assert(t[k] == right);
        } else if k > i + 1 {
            assert(t[k] == s[k - 1]);
        }
    }
    assert forall|k: int| 0 <= k && k + 1 < t.len() implies (#[trigger] t[k]).spec_end() + 1
        < t[k + 1].spec_start() by {
        if k + 1 < i {
            assert(t[k] == s[k] && t[k + 1] == s[k + 1]);
        } else if k + 1 == i {
            assert(t[k] == s[k] && t[k + 1] == left);
        } else if k == i {
            assert(t[k] == left && t[k + 1] == right);
        } else if k == i + 1 {
            assert(t[k] == right && t[k + 1] == s[k]);
        } else {
            assert(t[k] == s[k - 1] && t[k + 1] == s[k]);
        }
    }
    assert forall|a: u64| covered(t, a) <==> (covered(s, a)
        && !inner.spec_contains_point(a)) by {
        assert(covered(t, a) <==> (covered(mid, a) || left.spec_contains_point(a)));
        assert(covered(mid, a) <==> (covered(s, a)
            && !(s[i].spec_start() <= a < right.spec_start())));
        if left.spec_contains_point(a) {
            assert(s[i].spec_contains_point(a));
        }
    }
}

/// Two canonical lists covering the same points are the same list: the
/// canonical form of a set of points is unique.
#[verifier::rlimit(100)]
pub proof fn lemma_canonical_same_cover_equal(s1: Seq<Range>, s2: Seq<Range>)
    requires
        canonical(s1),
        canonical(s2),
        same_cover(s1, s2),
    ensures
        s1 =~= s2,
    decreases s1.len(),
{
    if s1.len() == 0 {
        if s2.len() > 0 {
            let a = s2[0].spec_start();
            assert(s2[0].spec_contains_point(a));
            assert(covered(s2, a) == covered(s1, a));
            assert(false);
        }
    } else if s2.len() == 0 {
        let a = s1[0].spec_start();
        assert(s1[0].spec_contains_point(a));
        assert(covered(s2, a) == covered(s1, a));
        assert(false);
    } else {
        assert(s1[0].spec_start() == s2[0].spec_start()) by {
            if s1[0].spec_start() < s2[0].spec_start() {
                let a = s1[0].spec_start();
                assert(s1[0].spec_contains_point(a));
                assert(covered(s2, a) == covered(s1, a));
                let k = choose|k: int| 0 <= k < s2.len() && (#[trigger] s2[k])
                    .spec_contains_point(a);
                if k > 0 {
                    lemma_canonical_ordered(s2, 0, k);
                }
                assert(false);
            }
            if s2[0].spec_start() < s1[0].spec_start() {
                let a = s2[0].spec_start();
                assert(s2[0].spec_contains_point(a));
                assert(covered(s2, a) == covered(s1, a));
                let k = choose|k: int| 0 <= k < s1.len() && (#[trigger] s1[k])
                    .spec_contains_point(a);
                if k > 0 {
                    lemma_canonical_ordered(s1, 0, k);
                }
                assert(false);
            }
        }
        assert(s1[0].spec_end() == s2[0].spec_end()) by {
            if s1[0].spec_end() < s2[0].spec_end() {
                let a = (s1[0].spec_end() + 1) as u64;
                assert(s2[0].spec_contains_point(a));
                assert(covered(s2, a) == covered(s1, a));
                let k = choose|k: int| 0 <= k < s1.len() && (#[trigger] s1[k])
                    .spec_contains_point(a);
                if k > 0 {
                    lemma_canonical_ordered(s1, 0, k);
                }
                assert(false);
            }
            if s2[0].spec_end() < s1[0].spec_end() {
                let a = (s2[0].spec_end() + 1) as u64;
                assert(s1[0].spec_contains_point(a));
                assert(covered(s2, a) == covered(s1, a));
                let k = choose|k: int| 0 <= k < s2.len() && (#[trigger] s2[k])
                    .spec_contains_point(a);
                if k > 0 {
                    lemma_canonical_ordered(s2, 0, k);
                }
                assert(false);
            }
        }
        lemma_covered_remove_entry(s1, 0);
        lemma_covered_remove_entry(s2, 0);
        let t1 = s1.remove(0);
        let t2 = s2.remove(0);
        assert forall|a: u64| covered(t1, a) == covered(t2, a) by {
            assert(covered(t1, a) <==> (covered(s1, a) && !s1[0].spec_contains_point(a)));
            assert(covered(t2, a) <==> (covered(s2, a) && !s2[0].spec_contains_point(a)));
            assert(covered(s2, a) == covered(s1, a));
        }
        lemma_canonical_same_cover_equal(t1, t2);
        assert forall|k: int| 0 <= k < s1.len() implies s1[k] == s2[k] by {
            if k > 0 {
                assert(t1[k - 1] == t2[k - 1]);
            }
        }
    }
}

/// Removing a fully covered range and inserting it back restores the set
/// exactly: not only the covered points but the list itself.
pub proof fn lemma_remove_insert_roundtrip(
    s0: Seq<Range>,
    s1: Seq<Range>,
    s2: Seq<Range>,
    r: Range,
)
    requires
        canonical(s0),
        canonical(s2),
        diff_cover(s1, s0, r),
        union_cover(s2, s1, r),
        forall|a: u64| r.spec_contains_point(a) ==> covered(s0, a),
    ensures
        s2 =~= s0,
{
    assert forall|a: u64| covered(s2, a) == covered(s0, a) by {
        assert(covered(s2, a) <==> (covered(s1, a) || r.spec_contains_point(a)));
        assert(covered(s1, a) <==> (covered(s0, a) && !r.spec_contains_point(a)));
    }
    lemma_canonical_same_cover_equal(s2, s0);
}


/// A single range weighs its own size.
proof fn lemma_total_singleton(r: Range)
    ensures
        seq_total_size(seq![r]) == r.spec_size(),
{
    assert(seq![r].drop_first() =~= Seq::<Range>::empty());
    assert(seq![r][0] == r);
    assert(seq_total_size(Seq::<Range>::empty()) == 0);
}

/// Concatenation adds the totals.
proof fn lemma_total_concat(s1: Seq<Range>, s2: Seq<Range>)
    ensures
        seq_total_size(s1 + s2) == seq_total_size(s1) + seq_total_size(s2),
    decreases s1.len(),
{
    if s1.len() == 0 {
        assert(s1 + s2 =~= s2);
    } else {
        assert((s1 + s2).drop_first() =~= s1.drop_first() + s2);
        assert((s1 + s2)[0] == s1[0]);
        lemma_total_concat(s1.drop_first(), s2);
    }
}

/// A contiguous block of covered points lies inside a single range of a
/// canonical list.
proof fn lemma_interval_in_one_entry(s: Seq<Range>, lo: u64, hi: u64) -> (k: int)
    requires
        canonical(s),
        lo <= hi,
        forall|a: u64| lo <= a <= hi ==> covered(s, a),
    ensures
        0 <= k < s.len(),
        s[k].spec_start() <= lo,
        hi <= s[k].spec_end(),
    decreases s.len(),
{
    assert(covered(s, lo));
    let k = choose|k: int| 0 <= k < s.len() && (#[trigger] s[k]).spec_contains_point(lo);
    if hi > s[k].spec_end() {
        let b = (s[k].spec_end() + 1) as u64;
        assert(lo <= b <= hi);
        assert(covered(s, b));
        let j = choose|j: int| 0 <= j < s.len() && (#[trigger] s[j]).spec_contains_point(b);
        if j < k {
            lemma_canonical_ordered(s, j, k);
        } else if j == k {
        } else {
            lemma_canonical_ordered(s, k, j);
        }
        assert(false);
    }
    k
}

/// The canonical list left when the block `[lo, hi]` is carved out of the
/// range at `k`: the ranges before it, the pieces on either side of the
/// block, and the ranges after it.
#[verifier::opaque]
spec fn split_entry(v0: Seq<Range>, k: int, lo: u64, hi: u64) -> Seq<Range> {
    let entry = v0[k];
    let pieces = (if entry.spec_start() < lo {
        seq![Range { start: entry.spec_start(), end: (lo - 1) as u64 }]
    } else {
        Seq::<Range>::empty()
    }) + (if hi < entry.spec_end() {
        seq![Range { start: (hi + 1) as u64, end: entry.spec_end() }]
    } else {
        Seq::<Range>::empty()
    });
    v0.take(k) + pieces + v0.skip(k + 1)
}

/// Carving a block out of one range keeps the list canonical.
#[verifier::rlimit(100)]
proof fn lemma_split_entry_canonical(v0: Seq<Range>, k: int, lo: u64, hi: u64)
    requires
        canonical(v0),
        0 <= k < v0.len(),
        v0[k].spec_start() <= lo <= hi,
        hi <= v0[k].spec_end(),
    ensures
        canonical(split_entry(v0, k, lo, hi)),
        split_entry(v0, k, lo, hi).len() == v0.len() - 1 + (if v0[k].spec_start() < lo {
            1int
        } else {
            0int
        }) + (if hi < v0[k].spec_end() {
            1int
        } else {
            0int
        }),
{
    reveal(split_entry);
    let entry = v0[k];
    let left = Range { start: entry.start, end: (lo - 1) as u64 };
    let right = Range { start: (hi + 1) as u64, end: entry.end };
    let pieces = (if entry.spec_start() < lo {
        seq![left]
    } else {
        Seq::<Range>::empty()
    }) + (if hi < entry.spec_end() {
        seq![right]
    } else {
        Seq::<Range>::empty()
    });
    let e = split_entry(v0, k, lo, hi);
    assert(forall|j: int| 0 <= j < k ==> e[j] == #[trigger] v0[j]);
    assert(forall|j: int| 0 <= j < pieces.len() ==> e[k + j] == #[trigger] pieces[j]);
    assert(forall|j: int| k + 1 <= j < v0.len() ==> e[j - 1 + pieces.len()] == #[trigger]
        v0[j]);
    assert forall|j: int| 0 <= j < e.len() implies (#[trigger] e[j]).inv() by {
        if j >= k + pieces.len() {
            assert(e[j] == v0[j + 1 - pieces.len()]);
        }
    }
    assert forall|j: int| 0 <= j && j + 1 < e.len() implies (#[trigger] e[j]).spec_end() + 1
        < e[j + 1].spec_start() by {
        if j + 1 < k {
            assert(e[j] == v0[j] && e[j + 1] == v0[j + 1]);
        } else if j + 1 == k {
            assert(e[j] == v0[j]);
            if pieces.len() == 0 {
                assert(e[j + 1] == v0[k + 1]);
                lemma_canonical_ordered(v0, j, k + 1);
            } else {
                assert(e[j + 1] == pieces[0]);
                assert(pieces[0].spec_start() >= entry.spec_start());
            }
        } else if j == k && pieces.len() == 2 {
            assert(e[j] == left && e[j + 1] == right);
        } else if j == k && pieces.len() == 1 {
            assert(e[j] == pieces[0] && e[j + 1] == v0[k + 1]);
        } else if j == k + 1 && pieces.len() == 2 {
            assert(e[j] == right && e[j + 1] == v0[k + 1]);
        } else {
            assert(e[j] == v0[j + 1 - pieces.len()] && e[j + 1] == v0[j + 2 - pieces.len()]);
        }
    }
}

/// Carving a block out of the range that holds it removes exactly the
/// block's points from the covered set.
#[verifier::rlimit(100)]
proof fn lemma_split_entry_cover(v0: Seq<Range>, k: int, lo: u64, hi: u64)
    requires
        canonical(v0),
        0 <= k < v0.len(),
        v0[k].spec_start() <= lo <= hi,
        hi <= v0[k].spec_end(),
    ensures
        forall|a: u64| covered(split_entry(v0, k, lo, hi), a) <==> (covered(v0, a) && !(lo
            <= a <= hi)),
{
    reveal(split_entry);
    let entry = v0[k];
    let left = Range { start: entry.start, end: (lo - 1) as u64 };
    let right = Range { start: (hi + 1) as u64, end: entry.end };
    let pieces = (if entry.spec_start() < lo {
        seq![left]
    } else {
        Seq::<Range>::empty()
    }) + (if hi < entry.spec_end() {
        seq![right]
    } else {
        Seq::<Range>::empty()
    });
    let e = split_entry(v0, k, lo, hi);
    assert(forall|j: int| 0 <= j < k ==> e[j] == #[trigger] v0[j]);
    assert(forall|j: int| 0 <= j < pieces.len() ==> e[k + j] == #[trigger] pieces[j]);
    assert(forall|j: int| k + 1 <= j < v0.len() ==> e[j - 1 + pieces.len()] == #[trigger]
        v0[j]);
    assert forall|a: u64| covered(e, a) implies (covered(v0, a) && !(lo <= a <= hi)) by {
        let j = choose|j: int| 0 <= j < e.len() && (#[trigger] e[j]).spec_contains_point(a);
        if j < k {
            assert(v0[j].spec_contains_point(a));
            if lo <= a <= hi {
                lemma_canonical_ordered(v0, j, k);
            }
        } else if j < k + pieces.len() {
            assert(entry.spec_contains_point(a));
        } else {
            assert(v0[j + 1 - pieces.len()].spec_contains_point(a));
            if lo <= a <= hi {
                lemma_canonical_ordered(v0, k, j + 1 - pieces.len());
            }
        }
    }
    assert forall|a: u64| (covered(v0, a) && !(lo <= a <= hi)) implies covered(e, a) by {
        let j = choose|j: int| 0 <= j < v0.len() && (#[trigger] v0[j]).spec_contains_point(a);
        if j < k {
            assert(e[j].spec_contains_point(a));
        } else if j > k {
            assert(e[j - 1 + pieces.len()].spec_contains_point(a));
        } else {
            if a < lo {
                assert(pieces[0] == left);
                assert(e[k].spec_contains_point(a));
            } else {
                assert(pieces[pieces.len() - 1] == right);
                assert(e[k + pieces.len() - 1].spec_contains_point(a));
            }
        }
    }
}

/// Carving a block out of the range that holds it shrinks the total by
/// exactly the block's size.
#[verifier::rlimit(100)]
proof fn lemma_split_entry_total(v0: Seq<Range>, k: int, lo: u64, hi: u64)
    requires
        canonical(v0),
        0 <= k < v0.len(),
        v0[k].spec_start() <= lo <= hi,
        hi <= v0[k].spec_end(),
    ensures
        seq_total_size(split_entry(v0, k, lo, hi)) == seq_total_size(v0) - (hi - lo + 1),
{
    reveal(split_entry);
    let entry = v0[k];
    let left = Range { start: entry.start, end: (lo - 1) as u64 };
    let right = Range { start: (hi + 1) as u64, end: entry.end };
    let pieces = (if entry.spec_start() < lo {
        seq![left]
    } else {
        Seq::<Range>::empty()
    }) + (if hi < entry.spec_end() {
        seq![right]
    } else {
        Seq::<Range>::empty()
    });
    let e = split_entry(v0, k, lo, hi);
    lemma_total_concat(v0.take(k) + pieces, v0.skip(k + 1));
    lemma_total_concat(v0.take(k), pieces);
    assert(e =~= (v0.take(k) + pieces) + v0.skip(k + 1));
    lemma_total_concat(v0.take(k) + seq![entry], v0.skip(k + 1));
    lemma_total_concat(v0.take(k), seq![entry]);
    assert(v0 =~= (v0.take(k) + seq![entry]) + v0.skip(k + 1));
    assert(seq_total_size(Seq::<Range>::empty()) == 0);
    lemma_total_singleton(entry);
    assert(seq_total_size(pieces) == entry.spec_size() - (hi - lo + 1)) by {
        assert(seq_total_size(Seq::<Range>::empty()) == 0);
        if entry.spec_start() < lo && hi < entry.spec_end() {
            lemma_total_singleton(left);
            lemma_total_concat(seq![left], seq![right]);
            lemma_total_singleton(right);
            assert(pieces =~= seq![left] + seq![right]);
        } else if entry.spec_start() < lo {
            lemma_total_singleton(left);
            assert(pieces =~= seq![left]);
        } else if hi < entry.spec_end() {
            lemma_total_singleton(right);
            assert(pieces =~= seq![right]);
        } else {
            assert(pieces =~= Seq::<Range>::empty());
        }
    }
}

/// Removing a fully covered contiguous block of points from a canonical
/// list shrinks its total size by exactly the number of removed points.
pub proof fn lemma_size_after_interval_removed(
    v0: Seq<Range>,
    v1: Seq<Range>,
    lo: u64,
    hi: u64,
)
    requires
        canonical(v0),
        canonical(v1),
        lo <= hi,
        forall|a: u64| covered(v1, a) <==> (covered(v0, a) && !(lo <= a <= hi)),
        forall|a: u64| lo <= a <= hi ==> covered(v0, a),
    ensures
        seq_total_size(v1) == seq_total_size(v0) - (hi - lo + 1),
{
    let k = lemma_interval_in_one_entry(v0, lo, hi);
    lemma_split_entry_canonical(v0, k, lo, hi);
    lemma_split_entry_cover(v0, k, lo, hi);
    lemma_split_entry_total(v0, k, lo, hi);
    let e = split_entry(v0, k, lo, hi);
    assert forall|a: u64| covered(e, a) == covered(v1, a) by {
        assert(covered(v1, a) <==> (covered(v0, a) && !(lo <= a <= hi)));
        assert(covered(e, a) <==> (covered(v0, a) && !(lo <= a <= hi)));
    }
    lemma_canonical_same_cover_equal(e, v1);
}

/// Whether the point `a` lies below the scan frontier: the start of the
/// range at index `i`, or the whole space once the scan is past the end.
spec fn below_frontier(s: Seq<Range>, i: int, a: u64) -> bool {
    i < s.len() ==> a < s[i].spec_start()
}

/// A point beyond the end of the range at `i` and below the start of the
/// range at `i + 1` lies in a gap: no range of a canonical list covers it.
proof fn lemma_gap_uncovered(v: Seq<Range>, i: int, a: u64)
    requires
        canonical(v),
        0 <= i < v.len(),
        v[i].spec_end() < a,
        i + 1 < v.len() ==> a < v[i + 1].spec_start(),
    ensures
        !covered(v, a),
{
    if covered(v, a) {
        let k = choose|k: int| 0 <= k < v.len() && (#[trigger] v[k]).spec_contains_point(a);
        if k < i {
            lemma_canonical_ordered(v, k, i);
        } else if k > i + 1 {
            lemma_canonical_ordered(v, i + 1, k);
        }
        assert(false);
    }
}

/// The invariant of the removal scan. The list `v` is the current state,
/// `s0` the state before the call, `i` the scan position and `r` the range
/// being removed: below the frontier the subtraction is complete, beyond it
/// nothing has changed, the entries still to visit are original ones, and a
/// pending split implies that the whole list is still the original.
spec fn scan_inv(v: Seq<Range>, s0: Seq<Range>, i: int, r: Range) -> bool {
    &&& canonical(v)
    &&& v.len() <= s0.len()
    &&& 0 <= i <= v.len()
    &&& forall|a: u64| #![trigger covered(s0, a)]
        below_frontier(v, i, a) ==> (covered(v, a) <==> (covered(s0, a)
            && !r.spec_contains_point(a)))
    &&& forall|a: u64| #![trigger covered(s0, a)]
        !below_frontier(v, i, a) ==> covered(v, a) == covered(s0, a)
    &&& forall|k: int| i <= k < v.len() ==> #[trigger] v[k] == s0[k + s0.len() - v.len()]
    &&& (v == s0 || (forall|k: int| i <= k < v.len() ==> !r.spec_strictly_within(
        #[trigger] v[k],
    )))
    &&& ((exists|k: int| 0 <= k < s0.len() && r.spec_strictly_within(#[trigger] s0[k]))
        ==> (v == s0 && exists|k: int| i <= k < v.len() && r.spec_strictly_within(
            #[trigger] v[k],
        )))
}

/// At the start of the removal scan the invariant holds: nothing is below
/// the frontier but points that no range covers.
proof fn lemma_scan_init(s0: Seq<Range>, r: Range)
    requires
        canonical(s0),
    ensures
        scan_inv(s0, s0, 0, r),
{
    assert forall|a: u64| #![trigger covered(s0, a)]
        below_frontier(s0, 0, a) implies (covered(s0, a) <==> (covered(s0, a)
            && !r.spec_contains_point(a))) by {
        if covered(s0, a) && 0 < s0.len() {
            let k = choose|k: int| 0 <= k < s0.len() && (#[trigger] s0[k])
                .spec_contains_point(a);
            if k > 0 {
                lemma_canonical_ordered(s0, 0, k);
            }
            assert(false);
        }
    }
}

/// Stepping the removal scan over a range that does not overlap the removed
/// range preserves the scan invariant.
#[verifier::rlimit(100)]
proof fn lemma_scan_advance_unchanged(v: Seq<Range>, s0: Seq<Range>, i: int, r: Range)
    requires
        scan_inv(v, s0, i, r),
        0 <= i < v.len(),
        !v[i].spec_overlaps(r),
        r.inv(),
    ensures
        scan_inv(v, s0, i + 1, r),
{
    assert forall|a: u64| #![trigger covered(s0, a)]
        below_frontier(v, i + 1, a) implies (covered(v, a) <==> (covered(s0, a)
            && !r.spec_contains_point(a))) by {
        if !below_frontier(v, i, a) {
            assert(covered(v, a) == covered(s0, a));
            if r.spec_contains_point(a) && covered(v, a) {
                let k = choose|k: int| 0 <= k < v.len() && (#[trigger] v[k])
                    .spec_contains_point(a);
                if k < i {
                    lemma_canonical_ordered(v, k, i);
                } else if k > i + 1 {
                    lemma_canonical_ordered(v, i + 1, k);
                }
                assert(false);
            }
        }
    }
    if exists|k: int| 0 <= k < s0.len() && r.spec_strictly_within(#[trigger] s0[k]) {
        let k = choose|k: int| i <= k < v.len() && r.spec_strictly_within(#[trigger] v[k]);
        assert(k != i);
        assert(i + 1 <= k < v.len() && r.spec_strictly_within(v[k]));
    }
}

/// Once the scan has reached a range containing the removed range and the
/// removal there is complete, the whole subtraction is complete.
#[verifier::rlimit(100)]
proof fn lemma_finish_at_entry(t: Seq<Range>, v: Seq<Range>, s0: Seq<Range>, i: int, r: Range)
    requires
        scan_inv(v, s0, i, r),
        0 <= i < v.len(),
        forall|a: u64| covered(t, a) <==> (covered(v, a) && !r.spec_contains_point(a)),
    ensures
        diff_cover(t, s0, r),
{
    assert forall|a: u64| covered(t, a) <==> (covered(s0, a)
        && !r.spec_contains_point(a)) by {
        // Mentioning this term lets the quantifiers of the scan invariant
        // apply to the point at hand.
        assert(covered(s0, a) == covered(s0, a));
        assert(covered(t, a) <==> (covered(v, a) && !r.spec_contains_point(a)));
    }
}

/// When the scan finds the removed range inside one of its entries without
/// needing a split, no entry of the original list strictly contains it.
#[verifier::rlimit(100)]
proof fn lemma_no_split_elsewhere(v: Seq<Range>, s0: Seq<Range>, i: int, r: Range)
    requires
        scan_inv(v, s0, i, r),
        0 <= i < v.len(),
        v[i].spec_contains_range(r),
        !r.spec_strictly_within(v[i]),
    ensures
        !(exists|k: int| 0 <= k < s0.len() && r.spec_strictly_within(#[trigger] s0[k])),
{
    if exists|k: int| 0 <= k < s0.len() && r.spec_strictly_within(#[trigger] s0[k]) {
        let k = choose|k: int| i <= k < v.len() && r.spec_strictly_within(#[trigger] v[k]);
        if k > i {
            lemma_canonical_ordered(v, i, k);
        }
        assert(false);
    }
}

/// Deleting a range that lies entirely inside the removed range, without
/// moving the scan position, preserves the scan invariant.
#[verifier::rlimit(100)]
proof fn lemma_scan_delete_contained(
    t: Seq<Range>,
    v: Seq<Range>,
    s0: Seq<Range>,
    i: int,
    r: Range,
)
    requires
        scan_inv(v, s0, i, r),
        0 <= i < v.len(),
        r.spec_contains_range(v[i]),
        t == v.remove(i),
        canonical(t),
        forall|a: u64| covered(t, a) <==> (covered(v, a) && !v[i].spec_contains_point(a)),
    ensures
        scan_inv(t, s0, i, r),
{
    v.remove_ensures(i);
    assert forall|a: u64| #![trigger covered(s0, a)]
        below_frontier(t, i, a) implies (covered(t, a) <==> (covered(s0, a)
            && !r.spec_contains_point(a))) by {
        if below_frontier(v, i, a) {
        } else {
            assert(covered(v, a) == covered(s0, a));
            if a > v[i].spec_end() {
                lemma_gap_uncovered(v, i, a);
            }
        }
    }
    assert forall|a: u64| #![trigger covered(s0, a)]
        !below_frontier(t, i, a) implies covered(t, a) == covered(s0, a) by {
        if i < t.len() {
            lemma_canonical_ordered(v, i, i + 1);
        }
    }
    assert forall|k: int| i <= k < t.len() implies #[trigger] t[k] == s0[k + s0.len()
        - t.len()] by {
        assert(t[k] == v[k + 1]);
    }
    assert forall|k: int| i <= k < t.len() implies !r.spec_strictly_within(
        #[trigger] t[k],
    ) by {
        assert(t[k] == v[k + 1]);
        lemma_canonical_ordered(v, i, k + 1);
    }
    if exists|k: int| 0 <= k < s0.len() && r.spec_strictly_within(#[trigger] s0[k]) {
        let k = choose|k: int| i <= k < v.len() && r.spec_strictly_within(#[trigger] v[k]);
        if k > i {
            lemma_canonical_ordered(v, i, k);
        }
        assert(false);
    }
}

/// Shrinking the range at the scan position to its part that lies outside
/// the removed range, and advancing, preserves the scan invariant.
#[verifier::rlimit(100)]
proof fn lemma_scan_shrink_advance(
    t: Seq<Range>,
    v: Seq<Range>,
    s0: Seq<Range>,
    i: int,
    r: Range,
)
    requires
        scan_inv(v, s0, i, r),
        0 <= i < v.len(),
        v[i].spec_overlaps(r),
        !v[i].spec_contains_range(r),
        !r.spec_contains_range(v[i]),
        r.inv(),
        canonical(t),
        t.len() == v.len(),
        forall|k: int| 0 <= k < t.len() && k != i ==> t[k] == #[trigger] v[k],
        forall|a: u64| covered(t, a) <==> (covered(v, a) && !(v[i].spec_contains_point(a)
            && r.spec_contains_point(a))),
    ensures
        scan_inv(t, s0, i + 1, r),
{
    assert forall|a: u64| #![trigger covered(s0, a)]
        below_frontier(t, i + 1, a) implies (covered(t, a) <==> (covered(s0, a)
            && !r.spec_contains_point(a))) by {
        if below_frontier(v, i, a) {
            assert(covered(v, a) <==> (covered(s0, a) && !r.spec_contains_point(a)));
        } else {
            assert(covered(v, a) == covered(s0, a));
            if a > v[i].spec_end() {
                lemma_gap_uncovered(v, i, a);
            } else {
                if !r.spec_contains_point(a) {
                    assert(v[i].spec_contains_point(a));
                    assert(covered(v, a));
                }
            }
        }
    }
    assert forall|a: u64| #![trigger covered(s0, a)]
        !below_frontier(t, i + 1, a) implies covered(t, a) == covered(s0, a) by {
        lemma_canonical_ordered(v, i, i + 1);
    }
    assert forall|k: int| i + 1 <= k < t.len() implies #[trigger] t[k] == s0[k + s0.len()
        - t.len()] by {
        assert(t[k] == v[k]);
    }
    assert forall|k: int| i + 1 <= k < t.len() implies !r.spec_strictly_within(
        #[trigger] t[k],
    ) by {
        assert(t[k] == v[k]);
        lemma_canonical_ordered(v, i, k);
    }
    if exists|k: int| 0 <= k < s0.len() && r.spec_strictly_within(#[trigger] s0[k]) {
        let k = choose|k: int| i <= k < v.len() && r.spec_strictly_within(#[trigger] v[k]);
        if k > i {
            lemma_canonical_ordered(v, i, k);
        }
        assert(false);
    }
}

/// Replacing a range by one with the same start keeps the list sorted.
proof fn lemma_sorted_update_same_start(s: Seq<Range>, i: int, m: Range)
    requires
        sorted_starts(s),
        0 <= i < s.len(),
        m.spec_start() == s[i].spec_start(),
        m.inv(),
    ensures
        sorted_starts(s.update(i, m)),
{
    let t = s.update(i, m);
    assert forall|k: int| 0 <= k && k + 1 < t.len() implies (#[trigger] t[k]).spec_start()
        < t[k + 1].spec_start() by {
        assert(s[k].spec_start() < s[k + 1].spec_start());
    }
}

/// Inserting a range between the entries that start below it and those that
/// start above it keeps the list sorted.
proof fn lemma_sorted_insert_at(s: Seq<Range>, i: int, r: Range)
    requires
        sorted_starts(s),
        0 <= i <= s.len(),
        r.inv(),
        forall|k: int| 0 <= k < i ==> (#[trigger] s[k]).spec_start() < r.spec_start(),
        i < s.len() ==> r.spec_start() < s[i].spec_start(),
    ensures
        sorted_starts(s.insert(i, r)),
{
    s.insert_ensures(i, r);
    let t = s.insert(i, r);
    assert forall|k: int| 0 <= k < t.len() implies (#[trigger] t[k]).inv() by {
        if k < i {
            assert(t[k] == s[k]);
        } else if k > i {
            assert(t[k] == s[k - 1]);
        }
    }
    assert forall|k: int| 0 <= k && k + 1 < t.len() implies (#[trigger] t[k]).spec_start()
        < t[k + 1].spec_start() by {
        if k + 1 < i {
            assert(t[k] == s[k] && t[k + 1] == s[k + 1]);
        } else if k + 1 == i {
            assert(t[k] == s[k] && t[k + 1] == r);
        } else if k == i {
            assert(t[k] == r && t[k + 1] == s[k]);
        } else {
            assert(t[k] == s[k - 1] && t[k + 1] == s[k]);
        }
    }
}

/// A set of ranges: a bounded, sorted, disjoint, maximally-merged list of
/// inclusive `u64` ranges.
#[derive(Debug)]
pub struct RangeSet {
    /// Ranges within the `RangeSet`, at most [`RANGE_SET_SIZE`] of them.
    ranges: Vec<Range>,
}

impl View for RangeSet {
    type V = Seq<Range>;

    closed spec fn view(&self) -> Seq<Range> {
        self.ranges@
    }
}

impl RangeSet {
    /// The structural invariant: canonical shape within the fixed capacity.
    pub open spec fn inv(self) -> bool {
        &&& canonical(self@)
        &&& self@.len() <= RANGE_SET_SIZE
    }

    /// Whether the set covers the point `a`.
    pub open spec fn spec_covers(self, a: u64) -> bool {
        covered(self@, a)
    }

    /// Total number of points covered by the set.
    pub open spec fn spec_size(self) -> int {
        seq_total_size(self@)
    }

    /// Returns an empty `RangeSet`.
    pub fn new() -> (r: RangeSet)
        ensures
            r.inv(),
            r@ =~= Seq::<Range>::empty(),
            r.spec_size() == 0,
            forall|a: u64| !r.spec_covers(a),
    {
        RangeSet { ranges: Vec::new() }
    }

    /// Returns the ranges in the `RangeSet`, in ascending order.
    pub fn ranges(&self) -> (r: &[Range])
        ensures
            r@ == self@,
    {
        self.ranges.as_slice()
    }

    /// Returns the sum of the size of all the ranges in the `RangeSet`.
    ///
    /// The sum of a set covering every address does not fit in a `u64`, so
    /// such a set is excluded.
    #[verifier::loop_isolation(false)]
    pub fn size(&self) -> (r: u64)
        requires
            self.inv(),
            self.spec_size() <= u64::MAX,
        ensures
            r == self.spec_size(),
    {
        let ghost s = self.ranges@;
        let mut total: u64 = 0;
        let mut i: usize = 0;
        while i < self.ranges.len()
            invariant
                i <= s.len(),
                total == seq_total_size(s.take(i as int)),
            decreases s.len() - i,
        {
            proof {
                lemma_total_take_step(s, i as int);
                lemma_total_prefix_bound(s, i as int + 1);
                lemma_total_nonneg(s.take(i as int));
                assert(forall|k: int| 0 <= k < s.take(i as int).len()
                    ==> (#[trigger] s.take(i as int)[k]).inv());
            }
            total = total + self.ranges[i].size();
            i += 1;
        }
        proof {
            assert(s.take(s.len() as int) =~= s);
        }
        total
    }

    /// Returns the lowest start point of the [`RangeSet`], or `None` if the
    /// set is empty.
    pub fn start(&self) -> (r: Option<u64>)
        ensures
            self@.len() == 0 ==> r is None,
            self@.len() > 0 ==> r == Some(self@[0].spec_start()),
    {
        if self.ranges.len() == 0 {
            None
        } else {
            Some(self.ranges[0].start)
        }
    }

    /// Returns the highest end point of the [`RangeSet`], or `None` if the
    /// set is empty.
    pub fn end(&self) -> (r: Option<u64>)
        ensures
            self@.len() == 0 ==> r is None,
            self@.len() > 0 ==> r == Some(self@[self@.len() - 1].spec_end()),
    {
        if self.ranges.len() == 0 {
            None
        } else {
            Some(self.ranges[self.ranges.len() - 1].end)
        }
    }

    /// Inserts a range into the internal list preserving the order of the
    /// list and avoiding duplicated start points.
    #[verifier::loop_isolation(false)]
    #[verifier::rlimit(100)]
    fn sort_insert(&mut self, range: Range) -> (r: Result<(), Error>)
        requires
            old(self).inv(),
            range.inv(),
        ensures
            sorted_starts(final(self)@),
            final(self)@.len() <= RANGE_SET_SIZE,
            final(self)@.len() <= old(self)@.len() + 1,
            match r {
                Ok(()) => {
                    &&& final(self)@.len() >= 1
                    &&& union_cover(final(self)@, old(self)@, range)
                },
                Err(e) => {
                    &&& e == Error::FullRangeSet
                    &&& final(self)@ == old(self)@
                },
            },
            (r is Err) <==> (old(self)@.len() == RANGE_SET_SIZE && forall|k: int|
                0 <= k < old(self)@.len() ==> (#[trigger] old(self)@[k]).spec_start()
                    != range.spec_start()),
            // When a tracked range shares the start point, it is reused: its
            // end point grows to the greater of the two, and nothing else
            // moves.
            (r is Ok && exists|k: int| 0 <= k < old(self)@.len()
                && (#[trigger] old(self)@[k]).spec_start() == range.spec_start())
                ==> exists|k: int| {
                &&& 0 <= k < old(self)@.len()
                &&& (#[trigger] old(self)@[k]).spec_start() == range.spec_start()
                &&& final(self)@ == old(self)@.update(k, (Range {
                    start: range.spec_start(),
                    end: if range.spec_end() > old(self)@[k].spec_end() {
                        range.spec_end()
                    } else {
                        old(self)@[k].spec_end()
                    },
                }))
            },
            // Otherwise the new range takes its place in the order: every
            // earlier start is below it, every later one above it, and the
            // list grows by one.
            (r is Ok && forall|k: int| 0 <= k < old(self)@.len()
                ==> (#[trigger] old(self)@[k]).spec_start() != range.spec_start())
                ==> exists|idx: int| {
                &&& 0 <= idx <= old(self)@.len()
                &&& forall|k: int| 0 <= k < idx ==> (#[trigger] old(self)@[k])
                    .spec_start() < range.spec_start()
                &&& forall|k: int| idx <= k < old(self)@.len() ==> (#[trigger] old(
                    self,
                )@[k]).spec_start() > range.spec_start()
                &&& final(self)@ == old(self)@.insert(idx, range)
            },
    {
        let ghost s0 = self.ranges@;
        proof {
            lemma_sorted_from_canonical(s0);
        }

        // Find the index of the new range: the first entry whose start point
        // is not below the one of the new range.
        let mut idx: usize = 0;
        while idx < self.ranges.len() && self.ranges[idx].start < range.start
            invariant
                self.ranges@ == s0,
                idx <= s0.len(),
                forall|k: int| 0 <= k < idx ==> (#[trigger] s0[k]).spec_start()
                    < range.spec_start(),
            decreases s0.len() - idx,
        {
            idx += 1;
        }

        if idx < self.ranges.len() && range.start == self.ranges[idx].start {
            // There is a range with the same start point: reuse it, updating
            // its end point to the greatest value between the new and the old
            // one.
            let kept = self.ranges[idx];
            let new_end = if range.end > kept.end {
                range.end
            } else {
                kept.end
            };
            let merged = Range { start: kept.start, end: new_end };
            self.ranges.set(idx, merged);
            proof {
                lemma_covered_extend_same_start(s0, idx as int, range, merged);
                lemma_sorted_update_same_start(s0, idx as int, merged);
                assert(0 <= idx < s0.len() && s0[idx as int].spec_start()
                    == range.spec_start() && self.ranges@ == s0.update(idx as int, merged));
            }
            return Ok(());
        }

        // There must be space at least for the new range.
        if self.ranges.len() >= RANGE_SET_SIZE {
            proof {
                assert forall|k: int| 0 <= k < s0.len() implies (#[trigger] s0[k])
                    .spec_start() != range.spec_start() by {
                    if k > idx {
                        lemma_canonical_ordered(s0, idx as int, k);
                    }
                }
            }
            return Err(Error::FullRangeSet);
        }

        // Make room for the new range at its position in the order.
        self.ranges.insert(idx, range);
        proof {
            lemma_covered_insert(s0, idx as int, range);
            lemma_sorted_insert_at(s0, idx as int, range);
            assert forall|k: int| idx <= k < s0.len() implies (#[trigger] s0[k])
                .spec_start() > range.spec_start() by {
                if k > idx {
                    lemma_canonical_ordered(s0, idx as int, k);
                }
            }
            assert(self.ranges@ == s0.insert(idx as int, range));
        }
        Ok(())
    }

    /// Merges the touching or overlapping ranges in the internal list. It
    /// assumes that the internal list is sorted by start point and there are
    /// no duplicated start points, which [`RangeSet::sort_insert`]
    /// establishes.
    #[verifier::loop_isolation(false)]
    #[verifier::rlimit(100)]
    fn merge(&mut self)
        requires
            1 <= old(self)@.len() <= RANGE_SET_SIZE,
            sorted_starts(old(self)@),
        ensures
            final(self).inv(),
            1 <= final(self)@.len() <= old(self)@.len(),
            same_cover(final(self)@, old(self)@),
    {
        let ghost s0 = self.ranges@;
        let mut i: usize = 0;
        while i < self.ranges.len() - 1
            invariant
                1 <= self.ranges@.len() <= s0.len(),
                i as int <= self.ranges@.len() - 1,
                sorted_starts(self.ranges@),
                forall|k: int| 0 <= k < i ==> (#[trigger] self.ranges@[k]).spec_end() + 1
                    < self.ranges@[k + 1].spec_start(),
                same_cover(self.ranges@, s0),
            decreases 2 * self.ranges@.len() - i,
        {
            let r_i = self.ranges[i];
            let r_next = self.ranges[i + 1];

            // If the ranges are neither contiguous nor overlapping, continue.
            // The saturating addition recognizes a range ending at the top of
            // the space as touching one that starts there.
            if r_next.start > r_i.end.saturating_add(1) {
                i += 1;
                continue;
            }

            let ghost pre = self.ranges@;

            // If the ranges are contiguous or the first end point is
            // contained by the second range, extend the first range up to the
            // end of the second one. Otherwise the second range lies entirely
            // within the first and is simply dropped.
            if r_next.contains_point(r_i.end.saturating_add(1)) {
                let ext = Range { start: r_i.start, end: r_next.end };
                self.ranges.set(i, ext);
                proof {
                    lemma_covered_extend_pair(pre, i as int, ext);
                    lemma_same_cover_trans(s0, pre, self.ranges@);
                }
            }

            // At this point the two ranges have been merged into the first
            // one: drop the second.
            let ghost mid = self.ranges@;
            self.ranges.remove(i + 1);

            proof {
                let t = self.ranges@;
                assert(forall|k: int| 0 <= k < mid.len() ==> (#[trigger] mid[k]).spec_start()
                    == pre[k].spec_start());
                lemma_covered_drop_contained(mid, i as int);
                lemma_same_cover_trans(s0, mid, t);
                assert forall|k: int| 0 <= k && k + 1 < t.len() implies (#[trigger] t[k])
                    .spec_start() < t[k + 1].spec_start() by {
                    if k < i {
                        assert(t[k] == mid[k] && t[k + 1] == mid[k + 1]);
                    } else if k == i {
                        assert(t[k] == mid[k] && t[k + 1] == mid[k + 2]);
                        assert(mid[k].spec_start() < mid[k + 1].spec_start());
                        assert(mid[k + 1].spec_start() < mid[k + 2].spec_start());
                    } else {
                        assert(t[k] == mid[k + 1] && t[k + 1] == mid[k + 2]);
                    }
                }
            }
        }
    }

    /// Inserts a `Range` into the `RangeSet`. It takes into account possible
    /// overlaps to create, merge or enlarge existing ranges if necessary.
    ///
    /// After the call the set covers exactly the points it covered before
    /// plus the points of `range`.
    ///
    /// # Errors
    ///
    /// This function returns `Error::FullRangeSet`, and leaves the set
    /// unchanged, exactly when the storage is full and no tracked range
    /// shares its start point with `range`.
    pub fn insert(&mut self, range: Range) -> (r: Result<(), Error>)
        requires
            old(self).inv(),
            range.inv(),
        ensures
            final(self).inv(),
            final(self)@.len() <= old(self)@.len() + 1,
            match r {
                Ok(()) => union_cover(final(self)@, old(self)@, range),
                Err(e) => {
                    &&& e == Error::FullRangeSet
                    &&& final(self)@ == old(self)@
                },
            },
            (r is Err) <==> (old(self)@.len() == RANGE_SET_SIZE && forall|k: int|
                0 <= k < old(self)@.len() ==> (#[trigger] old(self)@[k]).spec_start()
                    != range.spec_start()),
    {
        match self.sort_insert(range) {
            Ok(()) => {
                let ghost mid = *self;
                self.merge();
                proof {
                    lemma_union_then_same(old(self)@, mid@, self@, range);
                }
                Ok(())
            },
            Err(e) => Err(e),
        }
    }

    /// Removes a `Range` from the `RangeSet`. It takes into account possible
    /// overlaps to delete, split or shrink existing ranges if necessary.
    ///
    /// After the call the set covers exactly the points it covered before
    /// minus the points of `range`.
    ///
    /// # Errors
    ///
    /// This function returns `Error::FullRangeSet`, and leaves the set
    /// unchanged, exactly when the storage is full and `range` lies strictly
    /// inside one of the tracked ranges, so that removing it would split that
    /// range into two.
    #[verifier::rlimit(100)]
    pub fn remove(&mut self, range: Range) -> (r: Result<(), Error>)
        requires
            old(self).inv(),
            range.inv(),
        ensures
            final(self).inv(),
            final(self)@.len() <= old(self)@.len() + 1,
            match r {
                Ok(()) => diff_cover(final(self)@, old(self)@, range),
                Err(e) => {
                    &&& e == Error::FullRangeSet
                    &&& final(self)@ == old(self)@
                },
            },
            (r is Err) <==> (old(self)@.len() == RANGE_SET_SIZE && exists|k: int|
                0 <= k < old(self)@.len() && range.spec_strictly_within(
                    #[trigger] old(self)@[k],
                )),
    {
        let ghost s0 = self.ranges@;
        proof {
            lemma_scan_init(s0, range);
        }
        let mut i: usize = 0;
        while i < self.ranges.len()
            invariant
                scan_inv(self.ranges@, s0, i as int, range),
                s0 == old(self)@,
                s0.len() <= RANGE_SET_SIZE,
                range.inv(),
            decreases self.ranges@.len() - i,
        {
            let ghost v = self.ranges@;
            let entry = self.ranges[i];

            // Given that the internal list is sorted, once the start point of
            // an entry is above the end point of the range to remove, it is
            // not necessary to continue iterating.
            if entry.start > range.end {
                proof {
                    assert forall|a: u64| covered(v, a) <==> (covered(s0, a)
                        && !range.spec_contains_point(a)) by {
                                        // Mentioning this term lets the quantifiers of the
                        // scan invariant apply to the point at hand.
                        assert(covered(s0, a) == covered(s0, a));
                        if !below_frontier(v, i as int, a) {
                            assert(!range.spec_contains_point(a));
                        }
                    }
                    if exists|k: int| 0 <= k < s0.len() && range.spec_strictly_within(
                        #[trigger] s0[k],
                    ) {
                        let k = choose|k: int| i <= k < v.len() && range.spec_strictly_within(
                            #[trigger] v[k],
                        );
                        if k > i {
                            lemma_canonical_ordered(v, i as int, k);
                        }
                        assert(false);
                    }
                }
                return Ok(());
            }

            // If the ranges do not overlap, advance.
            if !entry.overlaps(range) {
                proof {
                    lemma_scan_advance_unchanged(v, s0, i as int, range);
                }
                i += 1;
                continue;
            }

            if entry.contains_range(range) {
                // The range to be removed is contained by the existing range.
                if entry == range {
                    // The range to be removed matches the existing range.
                    // Then, the existing range must be removed.
                    proof {
                        lemma_covered_remove_entry(v, i as int);
                    }
                    self.ranges.remove(i);
                    proof {
                        lemma_finish_at_entry(self.ranges@, v, s0, i as int, range);
                        lemma_no_split_elsewhere(v, s0, i as int, range);
                    }
                    return Ok(());
                } else if entry.start == range.start {
                    // The range to be removed and the existing range share the
                    // same start point. Then, it is enough with updating the
                    // start point of the existing range.
                    let m = Range { start: range.end + 1, end: entry.end };
                    proof {
                        lemma_covered_shrink_start(v, i as int, m);
                    }
                    self.ranges.set(i, m);
                    proof {
                        assert forall|a: u64| covered(self.ranges@, a) <==> (covered(v, a)
                            && !range.spec_contains_point(a)) by {
                            assert(covered(self.ranges@, a) <==> (covered(v, a)
                                && !(v[i as int].spec_start() <= a < m.spec_start())));
                        }
                        lemma_finish_at_entry(self.ranges@, v, s0, i as int, range);
                        lemma_no_split_elsewhere(v, s0, i as int, range);
                    }
                    return Ok(());
                } else if entry.end == range.end {
                    // The range to be removed and the existing range share the
                    // same end point. Then, it is enough with updating the end
                    // point of the existing range.
                    let m = Range { start: entry.start, end: range.start - 1 };
                    proof {
                        lemma_covered_shrink_end(v, i as int, m);
                    }
                    self.ranges.set(i, m);
                    proof {
                        assert forall|a: u64| covered(self.ranges@, a) <==> (covered(v, a)
                            && !range.spec_contains_point(a)) by {
                            assert(covered(self.ranges@, a) <==> (covered(v, a)
                                && !(m.spec_end() < a <= v[i as int].spec_end())));
                        }
                        lemma_finish_at_entry(self.ranges@, v, s0, i as int, range);
                        lemma_no_split_elsewhere(v, s0, i as int, range);
                    }
                    return Ok(());
                } else {
                    // The range to be removed is in the middle of the existing
                    // range. Then, the existing range must be split and the
                    // start and end points of the new ranges updated
                    // accordingly.
                    proof {
                        assert(range.spec_strictly_within(v[i as int]));
                        assert(self.ranges@ == s0);
                        assert(range.spec_strictly_within(s0[i as int]));
                    }
                    if self.ranges.len() >= RANGE_SET_SIZE {
                        return Err(Error::FullRangeSet);
                    }
                    let left = Range { start: entry.start, end: range.start - 1 };
                    let right = Range { start: range.end + 1, end: entry.end };
                    proof {
                        lemma_covered_split(v, i as int, range, left, right);
                    }
                    self.ranges.set(i, right);
                    self.ranges.insert(i, left);
                    proof {
                        lemma_finish_at_entry(self.ranges@, v, s0, i as int, range);
                    }
                    return Ok(());
                }
            } else if range.contains_range(entry) {
                // The range to be removed contains the existing range. Then,
                // the existing range must be removed.
                proof {
                    lemma_covered_remove_entry(v, i as int);
                }
                self.ranges.remove(i);
                proof {
                    lemma_scan_delete_contained(self.ranges@, v, s0, i as int, range);
                }
            } else if entry.contains_point(range.start) {
                // The start point of the range to be removed is contained by
                // the existing range. Then, the end point of the existing
                // range must be updated.
                let m = Range { start: entry.start, end: range.start - 1 };
                proof {
                    lemma_covered_shrink_end(v, i as int, m);
                }
                self.ranges.set(i, m);
                proof {
                    assert forall|a: u64| covered(self.ranges@, a) <==> (covered(v, a)
                        && !(v[i as int].spec_contains_point(a)
                            && range.spec_contains_point(a))) by {
                        assert(covered(self.ranges@, a) <==> (covered(v, a)
                            && !(m.spec_end() < a <= v[i as int].spec_end())));
                    }
                    lemma_scan_shrink_advance(self.ranges@, v, s0, i as int, range);
                }
                i += 1;
            } else {
                // The end point of the range to be removed is contained by the
                // existing range. Then, the start point of the existing range
                // must be updated.
                let m = Range { start: range.end + 1, end: entry.end };
                proof {
                    lemma_covered_shrink_start(v, i as int, m);
                }
                self.ranges.set(i, m);
                proof {
                    assert forall|a: u64| covered(self.ranges@, a) <==> (covered(v, a)
                        && !(v[i as int].spec_contains_point(a)
                            && range.spec_contains_point(a))) by {
                        assert(covered(self.ranges@, a) <==> (covered(v, a)
                            && !(v[i as int].spec_start() <= a < m.spec_start())));
                    }
                    lemma_scan_shrink_advance(self.ranges@, v, s0, i as int, range);
                }
                i += 1;
            }
        }

        proof {
            assert forall|a: u64| covered(self.ranges@, a) <==> (covered(s0, a)
                && !range.spec_contains_point(a)) by {
                // Mentioning this term lets the quantifiers of the scan
                // invariant apply to the point at hand.
                assert(covered(s0, a) == covered(s0, a));
                assert(below_frontier(self.ranges@, i as int, a));
            }
            if exists|k: int| 0 <= k < s0.len() && range.spec_strictly_within(
                #[trigger] s0[k],
            ) {
                let k = choose|k: int| i <= k < self.ranges@.len()
                    && range.spec_strictly_within(#[trigger] self.ranges@[k]);
                assert(false);
            }
        }
        Ok(())
    }
}

} // verus!
