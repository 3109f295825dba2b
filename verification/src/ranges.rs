//! Sets of packet numbers, kept as sorted ranges.
use std::ops::Range;
use vstd::prelude::*;

verus! {

/// The packet numbers from `start` up to, but not including, `end`.
pub open spec fn packet_numbers(start: int, end: int) -> Set<u64> {
    Set::new(|pn: u64| start <= pn < end)
}

/// A set of packet numbers.
///
/// The numbers are stored as half-open ranges that are not empty, in ascending order, and with a
/// gap between any two of them, so each set has one representation.
pub struct RangeSet {
    inner: Vec<(u64, u64)>,
}

/// Every range is non-empty, and each ends before the next one starts, with a gap in between.
spec fn separated(inner: Seq<(u64, u64)>) -> bool {
    &&& forall|i: int| 0 <= i < inner.len() ==> (#[trigger] inner[i]).0 < inner[i].1
    &&& forall|i: int, j: int|
        0 <= i < j < inner.len() ==> (#[trigger] inner[i]).1 < (#[trigger] inner[j]).0
}

/// Whether one of the ranges holds `pn`.
spec fn covers(inner: Seq<(u64, u64)>, pn: u64) -> bool {
    exists|i: int| 0 <= i < inner.len() && (#[trigger] inner[i]).0 <= pn < inner[i].1
}

/// Whether one of the ranges from `from` up to `to` holds `pn`.
spec fn covers_between(inner: Seq<(u64, u64)>, from: int, to: int, pn: u64) -> bool {
    exists|i: int| from <= i < to && (#[trigger] inner[i]).0 <= pn < inner[i].1
}

impl View for RangeSet {
    type V = Set<u64>;

    closed spec fn view(&self) -> Set<u64> {
        Set::new(|pn: u64| covers(self.inner@, pn))
    }
}

impl Default for RangeSet {
    /// Creates an empty set.
    fn default() -> (set: RangeSet)
        ensures
            set@ == Set::<u64>::empty(),
    {
        let set = RangeSet { inner: Vec::new() };
        assert(set@ =~= Set::<u64>::empty());
        set
    }
}

impl RangeSet {
    #[verifier::type_invariant]
    spec fn well_formed(self) -> bool {
        separated(self.inner@)
    }

    /// Adds every packet number of `range`. An empty range adds nothing.
    pub fn insert(&mut self, range: Range<u64>)
        ensures
            final(self)@ == old(self)@.union(
                packet_numbers(range.start as int, range.end as int),
            ),
    {
        proof {
            use_type_invariant(&*self);
        }
        if range.start >= range.end {
            assert(self@ =~= self@.union(packet_numbers(range.start as int, range.end as int)));
            return;
        }
        let mut lo: u64 = range.start;
        let mut hi: u64 = range.end;
        let mut merged: Vec<(u64, u64)> = Vec::new();
        let mut i: usize = 0;

        // Ranges that end before the new one starts stay as they are.
        while i < self.inner.len() && self.inner[i].1 < lo
            invariant
                i <= self.inner@.len(),
                separated(self.inner@),
                merged@ == self.inner@.take(i as int),
                forall|j: int| 0 <= j < i ==> (#[trigger] self.inner@[j]).1 < lo,
            decreases self.inner@.len() - i,
        {
            merged.push(self.inner[i]);
            i = i + 1;
        }
        let before: usize = i;

        // Ranges that touch the new one are merged into it.
        while i < self.inner.len() && self.inner[i].0 <= hi
            invariant
                before <= i <= self.inner@.len(),
                separated(self.inner@),
                merged@ == self.inner@.take(before as int),
                forall|j: int| 0 <= j < before ==> (#[trigger] self.inner@[j]).1 < lo,
                before < self.inner@.len() ==> range.start <= self.inner@[before as int].1,
                lo <= range.start < range.end <= hi,
                forall|pn: u64|
                    (lo <= pn < hi) <==> (range.start <= pn < range.end
                        || #[trigger] covers_between(self.inner@, before as int, i as int, pn)),
                forall|j: int|
                    i <= j < self.inner@.len() ==> range.start <= (#[trigger] self.inner@[j]).1,
            decreases self.inner@.len() - i,
        {
            let (first, end) = self.inner[i];
            let ghost (lo0, hi0) = (lo, hi);
            if first < lo {
                lo = first;
            }
            if hi < end {
                hi = end;
            }
            assert forall|pn: u64|
                (lo <= pn < hi) <==> (range.start <= pn < range.end || #[trigger] covers_between(
                    self.inner@,
                    before as int,
                    i + 1,
                    pn,
                )) by {
                assert(self.inner@[i as int] == (first, end));
                assert((lo0 <= pn < hi0) <==> (range.start <= pn < range.end || covers_between(
                    self.inner@,
                    before as int,
                    i as int,
                    pn,
                )));
            }
            i = i + 1;
        }
        let after: usize = i;
        merged.push((lo, hi));

        // Ranges past the new one follow.
        while i < self.inner.len()
            invariant
                before <= after <= i <= self.inner@.len(),
                separated(self.inner@),
                merged@ == self.inner@.take(before as int).push((lo, hi))
                    + self.inner@.subrange(after as int, i as int),
            decreases self.inner@.len() - i,
        {
            merged.push(self.inner[i]);
            i = i + 1;
        }
        let ghost old_inner = self.inner@;
        proof {
            lemma_splice(old_inner, before as int, after as int, lo, hi, range.start, range.end);
        }
        assert(merged@ =~= old_inner.take(before as int).push((lo, hi))
            + old_inner.subrange(after as int, old_inner.len() as int));
        self.inner = merged;
        assert(self@ =~= old(self)@.union(packet_numbers(range.start as int, range.end as int)));
    }

    /// Adds one packet number.
    pub fn push_item(&mut self, pn: u64)
        requires
            pn < u64::MAX,
        ensures
            final(self)@ == old(self)@.insert(pn),
    {
        self.insert(pn..pn + 1);
        assert(old(self)@.union(packet_numbers(pn as int, pn + 1)) =~= old(self)@.insert(pn));
    }

    /// The largest packet number in the set.
    pub fn last(&self) -> (largest: Option<u64>)
        ensures
            match largest {
                Some(pn) => self@.contains(pn) && forall|x: u64| self@.contains(x) ==> x <= pn,
                None => self@ == Set::<u64>::empty(),
            },
    {
        proof {
            use_type_invariant(self);
        }
        let n = self.inner.len();
        if n == 0 {
            assert(self@ =~= Set::<u64>::empty());
            return None;
        }
        let pn = self.inner[n - 1].1 - 1;
        assert(self.inner@[n - 1].0 <= pn < self.inner@[n - 1].1);
        assert forall|x: u64| self@.contains(x) implies x <= pn by {
            let i = choose|i: int|
                0 <= i < self.inner@.len() && (#[trigger] self.inner@[i]).0 <= x < self.inner@[i].1;
            if i < n - 1 {
                assert(self.inner@[i].1 < self.inner@[n - 1].0);
            }
        }
        Some(pn)
    }

    /// Whether the set holds `pn`.
    pub fn contains(&self, pn: u64) -> (found: bool)
        ensures
            found == self@.contains(pn),
    {
        let mut i: usize = 0;
        while i < self.inner.len()
            invariant
                i <= self.inner@.len(),
                forall|j: int|
                    0 <= j < i ==> !((#[trigger] self.inner@[j]).0 <= pn < self.inner@[j].1),
            decreases self.inner@.len() - i,
        {
            if self.inner[i].0 <= pn && pn < self.inner[i].1 {
                assert(covers(self.inner@, pn));
                return true;
            }
            i = i + 1;
        }
        false
    }
}

/// Replacing the ranges from `before` to `after` by `lo..hi` adds `start..end` to the set, when
/// `lo..hi` is made of exactly these ranges and `start..end`.
proof fn lemma_splice(
    inner: Seq<(u64, u64)>,
    before: int,
    after: int,
    lo: u64,
    hi: u64,
    start: u64,
    end: u64,
)
    requires
        0 <= before <= after <= inner.len(),
        separated(inner),
        lo <= start < end <= hi,
        forall|j: int| 0 <= j < before ==> (#[trigger] inner[j]).1 < lo,
        after < inner.len() ==> hi < inner[after].0,
        forall|pn: u64|
            (lo <= pn < hi) <==> (start <= pn < end || #[trigger] covers_between(
                inner,
                before,
                after,
                pn,
            )),
    ensures
        ({
            let spliced = inner.take(before).push((lo, hi)) + inner.subrange(
                after,
                inner.len() as int,
            );
            &&& separated(spliced)
            &&& forall|pn: u64| #[trigger]
                covers(spliced, pn) <==> (covers(inner, pn) || start <= pn < end)
        }),
{
    let spliced = inner.take(before).push((lo, hi)) + inner.subrange(after, inner.len() as int);
    let source = |k: int| if k < before { k } else { k - before - 1 + after };
    assert(forall|k: int|
        0 <= k < spliced.len() && k != before ==> (#[trigger] spliced[k]) == inner[source(k)]);
    assert(spliced[before] == (lo, hi));
    assert forall|i: int, j: int| 0 <= i < j < spliced.len() implies (#[trigger] spliced[i]).1 < (
    #[trigger] spliced[j]).0 by {
        if i == before {
            assert(spliced[j] == inner[source(j)]);
            if source(j) > after {
                assert(inner[after].0 < inner[after].1);
                assert(inner[after].1 < inner[source(j)].0);
            }
        } else if j == before {
            assert(spliced[i] == inner[i]);
        } else {
            assert(inner[source(i)].1 < inner[source(j)].0);
        }
    }
    assert forall|pn: u64| #[trigger]
        covers(spliced, pn) <==> (covers(inner, pn) || start <= pn < end) by {
        assert((lo <= pn < hi) <==> (start <= pn < end || covers_between(
            inner,
            before,
            after,
            pn,
        )));
        if covers(spliced, pn) {
            let k = choose|k: int|
                0 <= k < spliced.len() && (#[trigger] spliced[k]).0 <= pn < spliced[k].1;
            if k != before {
                assert(inner[source(k)].0 <= pn < inner[source(k)].1);
            }
        }
        if covers(inner, pn) {
            let j = choose|j: int| 0 <= j < inner.len() && (#[trigger] inner[j]).0 <= pn < inner[j].1;
            if j < before {
                assert(spliced[j] == inner[j]);
            } else if j < after {
                assert(spliced[before].0 <= pn < spliced[before].1);
            } else {
                assert(spliced[j - after + before + 1] == inner[j]);
            }
        }
        if start <= pn < end {
            assert(spliced[before].0 <= pn < spliced[before].1);
        }
    }
}

} // verus!
