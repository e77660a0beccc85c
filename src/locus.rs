//! Stranded genomic intervals and the overlap relation between them.

use vstd::prelude::*;
use vstd::multiset::Multiset;

verus! {

/// The largest coordinate an interval may reach: alignment positions are
/// 31-bit quantities.
pub const MAX_COORD: u64 = 2147483647;

/// The strand a stored interval lies on.
#[derive(Clone, Copy, Debug, PartialEq, Eq, Structural)]
pub enum Strand {
    Forward,
    Reverse,
}

/// The mathematical picture of a locus: reference name, first position,
/// number of positions covered, strand.
pub type LocusModel = (Seq<char>, int, int, Strand);

/// What a query asks about: reference name, first position, number of
/// positions.
pub type Span = (Seq<char>, int, int);

/// A stranded genomic interval: `length` positions starting at `start` on the
/// reference sequence named `refid`. A length of zero is allowed: such an
/// interval stands for the single position `start`.
#[derive(Debug)]
pub struct Locus {
    pub refid: String,
    pub start: u64,
    pub length: u64,
    pub strand: Strand,
}

impl Locus {
    /// The interval stays within the coordinate range.
    pub open spec fn wf(&self) -> bool {
        self.start + self.length <= MAX_COORD
    }

    pub open spec fn model(&self) -> LocusModel {
        (self.refid@, self.start as int, self.length as int, self.strand)
    }

    pub open spec fn span(&self) -> Span {
        (self.refid@, self.start as int, self.length as int)
    }

    /// One past the last position covered.
    pub open spec fn end_spec(&self) -> int {
        self.start + self.length
    }

    pub fn new(refid: String, start: u64, length: u64, strand: Strand) -> (r: Locus)
        requires
            start + length <= MAX_COORD,
        ensures
            r.refid == refid,
            r.start == start,
            r.length == length,
            r.strand == strand,
            r.wf(),
    {
        Locus { refid, start, length, strand }
    }

    /// The interval covering the single position `pos`.
    pub fn at_position(refid: String, pos: u64, strand: Strand) -> (r: Locus)
        requires
            pos < MAX_COORD,
        ensures
            r.model() == (refid@, pos as int, 1int, strand),
            r.wf(),
    {
        Locus { refid, start: pos, length: 1, strand }
    }
}

/// The number of positions an interval of `length` covers: a zero-length
/// interval covers its start.
pub open spec fn extent(length: int) -> int {
    if length < 1 {
        1
    } else {
        length
    }
}

/// A stored interval `s` and a query `q` overlap when they lie on the same
/// reference and share at least one position. The strands play no part.
pub open spec fn overlaps(s: LocusModel, q: Span) -> bool {
    &&& s.0 == q.0
    &&& s.1 < q.1 + extent(q.2)
    &&& q.1 < s.1 + extent(s.2)
}

/// How many of the intervals in `m` overlap `q`, each copy counted.
pub open spec fn overlap_total(m: Multiset<LocusModel>, q: Span) -> nat {
    m.filter(|s: LocusModel| overlaps(s, q)).len()
}

/// The span of the single position `p` on reference `refid`.
pub open spec fn point_span(refid: Seq<char>, p: int) -> Span {
    (refid, p, 1)
}

pub proof fn lemma_overlap_total_empty(q: Span)
    ensures
        overlap_total(Multiset::empty(), q) == 0,
{
    broadcast use vstd::multiset::group_multiset_axioms;

    assert(Multiset::<LocusModel>::empty().filter(|s: LocusModel| overlaps(s, q))
        =~= Multiset::empty());
}

pub proof fn lemma_overlap_total_insert(m: Multiset<LocusModel>, x: LocusModel, q: Span)
    ensures
        overlap_total(m.insert(x), q) == overlap_total(m, q) + if overlaps(x, q) {
            1nat
        } else {
            0nat
        },
{
    broadcast use vstd::multiset::group_multiset_axioms;

    let f = |s: LocusModel| overlaps(s, q);
    if overlaps(x, q) {
        assert(m.insert(x).filter(f) =~= m.filter(f).insert(x));
    } else {
        assert(m.insert(x).filter(f) =~= m.filter(f));
    }
}

pub proof fn lemma_overlap_total_add(a: Multiset<LocusModel>, b: Multiset<LocusModel>, q: Span)
    ensures
        overlap_total(a.add(b), q) == overlap_total(a, q) + overlap_total(b, q),
{
    broadcast use vstd::multiset::group_multiset_axioms;

    let f = |s: LocusModel| overlaps(s, q);
    assert(a.add(b).filter(f) =~= a.filter(f).add(b.filter(f)));
}

/// Two queries that cover the same positions count alike.
pub proof fn lemma_overlap_total_same_positions(m: Multiset<LocusModel>, a: Span, b: Span)
    requires
        a.0 == b.0,
        a.1 == b.1,
        extent(a.2) == extent(b.2),
    ensures
        overlap_total(m, a) == overlap_total(m, b),
{
    broadcast use vstd::multiset::group_multiset_axioms;

    assert(m.filter(|s: LocusModel| overlaps(s, a)) =~= m.filter(|s: LocusModel| overlaps(s, b)));
}

/// Every stored interval that overlaps `q` is counted.
pub proof fn lemma_overlap_total_member(m: Multiset<LocusModel>, x: LocusModel, q: Span)
    requires
        m.count(x) > 0,
        overlaps(x, q),
    ensures
        overlap_total(m, q) >= 1,
{
    broadcast use vstd::multiset::group_multiset_axioms;

    assert(m =~= m.remove(x).insert(x));
    lemma_overlap_total_insert(m.remove(x), x, q);
}

/// Counting overlaps is monotone in the stored intervals.
pub proof fn lemma_overlap_total_sub_multiset(a: Multiset<LocusModel>, b: Multiset<LocusModel>, q: Span)
    requires
        a.subset_of(b),
    ensures
        overlap_total(a, q) <= overlap_total(b, q),
{
    broadcast use vstd::multiset::group_multiset_axioms;

    assert(b =~= a.add(b.sub(a)));
    lemma_overlap_total_add(a, b.sub(a), q);
}

} // verus!
