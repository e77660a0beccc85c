//! The interval index: bio's `AnnotMap`, keyed by reference name, holding
//! one `Contig` per stored locus.

use vstd::prelude::*;
use vstd::multiset::Multiset;
use bio::data_structures::annot_map::AnnotMap;
use bio_types::annot::contig::Contig;
use bio_types::strand::ReqStrand;
use crate::locus::{Locus, LocusModel, Span, Strand, MAX_COORD, extent, overlap_total, overlaps, lemma_overlap_total_insert, lemma_overlap_total_empty};

verus! {

#[verifier::external_type_specification]
#[verifier::external_body]
#[verifier::reject_recursive_types(R)]
#[verifier::reject_recursive_types(T)]
pub struct ExAnnotMap<R: std::hash::Hash + Eq, T>(AnnotMap<R, T>);

#[verifier::external_type_specification]
#[verifier::external_body]
#[verifier::reject_recursive_types(R)]
#[verifier::reject_recursive_types(S)]
pub struct ExContig<R, S>(Contig<R, S>);

#[verifier::external_type_specification]
#[verifier::external_body]
pub struct ExReqStrand(ReqStrand);

/// The intervals held by an annotation map, each insertion counted once.
pub uninterp spec fn annot_map_loci(m: AnnotMap<String, Contig<String, ReqStrand>>) -> Multiset<LocusModel>;

/// The intersection test of bio's interval tree: same reference, both ranges
/// non-empty, and they share a position.
pub open spec fn ranges_intersect(s: LocusModel, q: Span) -> bool {
    &&& s.0 == q.0
    &&& 0 < s.2
    &&& 0 < q.2
    &&& s.1 < q.1 + q.2
    &&& q.1 < s.1 + s.2
}

/// How many ranges in `m` pass the interval tree's intersection test with `q`.
pub open spec fn intersect_total(m: Multiset<LocusModel>, q: Span) -> nat {
    m.filter(|s: LocusModel| ranges_intersect(s, q)).len()
}

proof fn lemma_intersect_total_insert(m: Multiset<LocusModel>, x: LocusModel, q: Span)
    ensures
        intersect_total(m.insert(x), q) == intersect_total(m, q) + if ranges_intersect(x, q) {
            1nat
        } else {
            0nat
        },
{
    broadcast use vstd::multiset::group_multiset_axioms;

    let f = |s: LocusModel| ranges_intersect(s, q);
    if ranges_intersect(x, q) {
        assert(m.insert(x).filter(f) =~= m.filter(f).insert(x));
    } else {
        assert(m.insert(x).filter(f) =~= m.filter(f));
    }
}

proof fn lemma_intersect_total_empty(q: Span)
    ensures
        intersect_total(Multiset::empty(), q) == 0,
{
    broadcast use vstd::multiset::group_multiset_axioms;

    assert(Multiset::<LocusModel>::empty().filter(|s: LocusModel| ranges_intersect(s, q)) =~= Multiset::empty());
}

/// The range the tree is asked about for a query: at least one position.
pub open spec fn tree_span(q: Span) -> Span {
    (q.0, q.1, extent(q.2))
}

/// Relies on `AnnotMap::new`: a new map holds no interval.
#[verifier::external_body]
fn annot_map_new() -> (m: AnnotMap<String, Contig<String, ReqStrand>>)
    ensures
        annot_map_loci(m) =~= Multiset::empty(),
{
    AnnotMap::new()
}

/// Relies on `AnnotMap::insert_loc`: the contig is added under its reference
/// name with the range `start..start + length`; nothing stored is removed.
#[verifier::external_body]
fn annot_map_insert(
    m: &mut AnnotMap<String, Contig<String, ReqStrand>>,
    refid: String,
    start: u64,
    length: u64,
    strand: Strand,
)
    requires
        start + length <= MAX_COORD + 1,
    ensures
        annot_map_loci(*final(m)) == annot_map_loci(*old(m)).insert(
            (refid@, start as int, length as int, strand),
        ),
{
    let s = match strand {
        Strand::Forward => ReqStrand::Forward,
        Strand::Reverse => ReqStrand::Reverse,
    };
    m.insert_loc(Contig::new(refid, start as isize, length as usize, s));
}

/// Relies on `AnnotMap::find` and `Iterator::count`: `find` looks up the tree
/// of the query's reference name (none: no hit) and yields each stored range
/// that intersects the query range, where both ranges must be non-empty.
#[verifier::external_body]
fn annot_map_count(
    m: &AnnotMap<String, Contig<String, ReqStrand>>,
    refid: &String,
    start: u64,
    length: u64,
) -> (r: usize)
    requires
        start + length <= MAX_COORD + 1,
    ensures
        r == intersect_total(annot_map_loci(*m), (refid@, start as int, length as int)),
{
    let q = Contig::new(refid.clone(), start as isize, length as usize, ReqStrand::Forward);
    m.find(&q).count()
}

/// A multiset of stranded loci that answers overlap counts. The tree stores
/// each locus over at least one position, so that a zero-length locus
/// stands for its start.
pub struct IntervalIndex {
    map: AnnotMap<String, Contig<String, ReqStrand>>,
    loci: Ghost<Multiset<LocusModel>>,
}

impl View for IntervalIndex {
    type V = Multiset<LocusModel>;

    closed spec fn view(&self) -> Multiset<LocusModel> {
        self.loci@
    }
}

impl IntervalIndex {
    #[verifier::type_invariant]
    closed spec fn counts_agree(&self) -> bool {
        forall|q: Span| #[trigger]
            overlap_total(self.loci@, q) == intersect_total(annot_map_loci(self.map), tree_span(q))
    }

    pub fn new() -> (r: IntervalIndex)
        ensures
            r@ =~= Multiset::empty(),
    {
        let map = annot_map_new();
        proof {
            assert forall|q: Span| #[trigger]
                overlap_total(Multiset::empty(), q) == intersect_total(annot_map_loci(map), tree_span(q)) by {
                lemma_overlap_total_empty(q);
                lemma_intersect_total_empty(tree_span(q));
            }
        }
        IntervalIndex { map, loci: Ghost(Multiset::empty()) }
    }

    pub fn insert(&mut self, l: &Locus)
        requires
            l.wf(),
        ensures
            final(self)@ == old(self)@.insert(l.model()),
    {
        let mut taken = IntervalIndex::new();
        std::mem::swap(self, &mut taken);
        proof {
            use_type_invariant(&taken);
        }
        let IntervalIndex { mut map, loci } = taken;
        let ghost before = annot_map_loci(map);
        let stored: u64 = if l.length == 0 {
            1
        } else {
            l.length
        };
        annot_map_insert(&mut map, l.refid.clone(), l.start, stored, l.strand);
        let ghost w = (l.refid@, l.start as int, stored as int, l.strand);
        proof {
            assert forall|q: Span| #[trigger]
                overlap_total(loci@.insert(l.model()), q) == intersect_total(annot_map_loci(map), tree_span(q)) by {
                lemma_overlap_total_insert(loci@, l.model(), q);
                lemma_intersect_total_insert(before, w, tree_span(q));
                assert(ranges_intersect(w, tree_span(q)) == overlaps(l.model(), q));
                assert(overlap_total(loci@, q) == intersect_total(before, tree_span(q)));
            }
        }
        *self = IntervalIndex { map, loci: Ghost(loci@.insert(l.model())) };
    }

    /// The number of stored loci that overlap the span of `length` positions
    /// (one when `length` is zero) at `start` on `refid`, whatever their
    /// strand.
    pub fn count_span(&self, refid: &String, start: u64, length: u64) -> (r: usize)
        requires
            start + extent(length as int) <= MAX_COORD + 1,
        ensures
            r == overlap_total(self@, (refid@, start as int, length as int)),
    {
        proof {
            use_type_invariant(self);
            assert(overlap_total(self.loci@, (refid@, start as int, length as int)) == intersect_total(
                annot_map_loci(self.map),
                tree_span((refid@, start as int, length as int)),
            ));
        }
        let asked: u64 = if length == 0 {
            1
        } else {
            length
        };
        annot_map_count(&self.map, refid, start, asked)
    }

    /// The number of stored loci that overlap `q`, whatever their strand.
    pub fn count_overlapping(&self, q: &Locus) -> (r: usize)
        requires
            q.wf(),
        ensures
            r == overlap_total(self@, q.span()),
    {
        self.count_span(&q.refid, q.start, q.length)
    }
}

} // verus!
