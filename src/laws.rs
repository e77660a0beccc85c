//! Properties of the index and of construction that hold for all inputs.

use vstd::prelude::*;
use vstd::multiset::Multiset;
use crate::convert::AlignedRead;
use crate::hooks::{Identity, LocusTransform, ReadFilter};
use crate::locus::{
    Locus, LocusModel, Span, lemma_overlap_total_empty, lemma_overlap_total_insert,
    lemma_overlap_total_sub_multiset, lemma_overlap_total_member, lemma_overlap_total_same_positions,
    extent, overlap_total, overlaps, point_span,
};
use crate::rqmap::{RQMap, ScanConfig, accepts_opt, region_scan_spec, scan_spec, step_spec};
use crate::scaffold::first_index_of;

verus! {

/// Every position inside a stored interval has coverage of at least one,
/// whatever else is stored.
pub proof fn law_stored_interval_covers_its_positions(m: Multiset<LocusModel>, l: LocusModel, p: int)
    requires
        m.count(l) > 0,
        l.1 <= p < l.1 + extent(l.2),
    ensures
        overlap_total(m, point_span(l.0, p)) >= 1,
{
    lemma_overlap_total_member(m, l, point_span(l.0, p));
}

/// The coverage at a position is the overlap count of the zero-length
/// interval at that position (and of the one-position interval there).
pub proof fn law_point_coverage_is_point_overlap(m: Multiset<LocusModel>, q: Locus)
    requires
        q.length <= 1,
    ensures
        overlap_total(m, point_span(q.refid@, q.start as int)) == overlap_total(m, q.span()),
{
    lemma_overlap_total_same_positions(m, point_span(q.refid@, q.start as int), q.span());
}

/// A filter that rejects every record gives an empty index, in which every
/// overlap count is zero.
pub proof fn law_rejecting_filter_indexes_nothing<F: ReadFilter, T: LocusTransform>(
    reads: Seq<AlignedRead>,
    c: ScanConfig<F, T>,
    q: Span,
)
    requires
        forall|r: AlignedRead| !accepts_opt(c.filter, r),
    ensures
        scan_spec(reads, c) == Ok::<Multiset<LocusModel>, crate::convert::RecordError>(Multiset::empty()),
        overlap_total(Multiset::empty(), q) == 0,
    decreases reads.len(),
{
    lemma_overlap_total_empty(q);
    if reads.len() > 0 {
        law_rejecting_filter_indexes_nothing(reads.drop_last(), c, q);
        assert(step_spec(reads.last(), c) is Ok);
    }
}

/// The identity transform indexes exactly what no transform indexes.
pub proof fn law_identity_transform_is_no_transform<F: ReadFilter>(
    reads: Seq<AlignedRead>,
    c: ScanConfig<F, Identity>,
)
    ensures
        scan_spec(reads, ScanConfig { transform: Some(Identity), ..c }) == scan_spec(
            reads,
            ScanConfig { transform: None, ..c },
        ),
    decreases reads.len(),
{
    if reads.len() > 0 {
        law_identity_transform_is_no_transform(reads.drop_last(), c);
    }
}

/// Two maps built from the same records, dictionary, filter and transform
/// answer every overlap query alike.
pub proof fn law_construction_is_deterministic<F: ReadFilter, T: LocusTransform>(
    a: RQMap,
    b: RQMap,
    reads: Seq<AlignedRead>,
    c: ScanConfig<F, T>,
    q: Span,
)
    requires
        scan_spec(reads, c) == Ok::<Multiset<LocusModel>, crate::convert::RecordError>(a@),
        scan_spec(reads, c) == Ok::<Multiset<LocusModel>, crate::convert::RecordError>(b@),
    ensures
        overlap_total(a@, q) == overlap_total(b@, q),
{
}

/// `a` is `b` with some elements left out, order kept.
pub open spec fn is_subsequence<A>(a: Seq<A>, b: Seq<A>) -> bool
    decreases b.len(),
{
    if a.len() == 0 {
        true
    } else if b.len() == 0 {
        false
    } else if a.last() == b.last() {
        is_subsequence(a.drop_last(), b.drop_last())
    } else {
        is_subsequence(a, b.drop_last())
    }
}

proof fn lemma_scan_of_subsequence<F: ReadFilter, T: LocusTransform>(
    a: Seq<AlignedRead>,
    b: Seq<AlignedRead>,
    c: ScanConfig<F, T>,
)
    requires
        is_subsequence(a, b),
        scan_spec(b, c) is Ok,
    ensures
        scan_spec(a, c) is Ok,
        (scan_spec(a, c)->Ok_0).subset_of(scan_spec(b, c)->Ok_0),
    decreases b.len(),
{
    broadcast use vstd::multiset::group_multiset_axioms;

    if a.len() == 0 {
    } else if a.last() == b.last() {
        lemma_scan_of_subsequence(a.drop_last(), b.drop_last(), c);
    } else {
        lemma_scan_of_subsequence(a, b.drop_last(), c);
    }
}

/// Scanning one region whose records are fetched from the full stream (a
/// subsequence of it) counts no more overlaps, for any query, than scanning
/// the whole stream.
pub proof fn law_region_scan_within_full_scan<F: ReadFilter, T: LocusTransform>(
    region: Seq<char>,
    fetched: Seq<AlignedRead>,
    reads: Seq<AlignedRead>,
    c: ScanConfig<F, T>,
    q: Span,
)
    requires
        is_subsequence(fetched, reads),
        scan_spec(reads, c) is Ok,
    ensures
        region_scan_spec(seq![region], seq![fetched], c) is Ok,
        overlap_total(region_scan_spec(seq![region], seq![fetched], c)->Ok_0, q) <= overlap_total(
            scan_spec(reads, c)->Ok_0,
            q,
        ),
{
    broadcast use vstd::multiset::group_multiset_axioms;

    reveal(region_scan_spec);
    lemma_scan_of_subsequence(fetched, reads, c);
    let ms = scan_spec(fetched, c)->Ok_0;
    assert(seq![region].drop_last() =~= Seq::<Seq<char>>::empty());
    assert(seq![fetched].drop_last() =~= Seq::<Seq<AlignedRead>>::empty());
    assert(Multiset::<LocusModel>::empty().add(ms) =~= ms);
    assert(region_scan_spec(Seq::<Seq<char>>::empty(), Seq::<Seq<AlignedRead>>::empty(), c)
        == Ok::<Multiset<LocusModel>, crate::convert::RecordError>(Multiset::empty()));
    assert(seq![region].last() == region);
    assert(seq![fetched].last() == fetched);
    assert(Multiset::<LocusModel>::empty().subset_of(scan_spec(reads, c)->Ok_0));
    let rs = region_scan_spec(seq![region], seq![fetched], c)->Ok_0;
    assert(rs.subset_of(scan_spec(reads, c)->Ok_0));
    lemma_overlap_total_sub_multiset(rs, scan_spec(reads, c)->Ok_0, q);
}

/// The record adds no locus that overlaps `q`.
pub open spec fn misses<F: ReadFilter, T: LocusTransform>(r: AlignedRead, c: ScanConfig<F, T>, q: Span) -> bool {
    match step_spec(r, c) {
        Ok(Some(l)) => !overlaps(l, q),
        _ => true,
    }
}

proof fn lemma_scan_of_selection<F: ReadFilter, T: LocusTransform>(
    reads: Seq<AlignedRead>,
    sel: spec_fn(AlignedRead) -> bool,
    c: ScanConfig<F, T>,
    q: Span,
)
    requires
        scan_spec(reads, c) is Ok,
        forall|r: AlignedRead| !sel(r) ==> misses(r, c, q),
    ensures
        scan_spec(reads.filter(sel), c) is Ok,
        overlap_total(scan_spec(reads.filter(sel), c)->Ok_0, q) == overlap_total(scan_spec(reads, c)->Ok_0, q),
    decreases reads.len(),
{
    reveal_with_fuel(Seq::filter, 1);
    if reads.len() > 0 {
        let d = reads.drop_last();
        let r = reads.last();
        lemma_scan_of_selection(d, sel, c, q);
        let md = scan_spec(d, c)->Ok_0;
        let mf = scan_spec(d.filter(sel), c)->Ok_0;
        if sel(r) {
            let f = d.filter(sel).push(r);
            assert(f.drop_last() =~= d.filter(sel));
            assert(f.last() == r);
            assert(reads.filter(sel) == f);
            match step_spec(r, c) {
                Ok(Some(l)) => {
                    lemma_overlap_total_insert(md, l, q);
                    lemma_overlap_total_insert(mf, l, q);
                },
                _ => {},
            }
        } else {
            assert(misses(r, c, q));
            assert(reads.filter(sel) == d.filter(sel));
            match step_spec(r, c) {
                Ok(Some(l)) => {
                    lemma_overlap_total_insert(md, l, q);
                },
                _ => {},
            }
        }
    }
}

/// When the records fetched for a region on a known reference are those of
/// the full stream that the fetch selects, and every record it leaves out
/// adds no locus overlapping `q`, the region scan counts exactly what the
/// full scan counts at `q`.
pub proof fn law_complete_region_scan_matches_full_scan<F: ReadFilter, T: LocusTransform>(
    region: Seq<char>,
    reads: Seq<AlignedRead>,
    sel: spec_fn(AlignedRead) -> bool,
    c: ScanConfig<F, T>,
    q: Span,
)
    requires
        first_index_of(c.names, region) is Some,
        scan_spec(reads, c) is Ok,
        forall|r: AlignedRead| !sel(r) ==> misses(r, c, q),
    ensures
        region_scan_spec(seq![region], seq![reads.filter(sel)], c) is Ok,
        overlap_total(region_scan_spec(seq![region], seq![reads.filter(sel)], c)->Ok_0, q) == overlap_total(
            scan_spec(reads, c)->Ok_0,
            q,
        ),
{
    broadcast use vstd::multiset::group_multiset_axioms;

    reveal(region_scan_spec);
    lemma_scan_of_selection(reads, sel, c, q);
    let fetched = reads.filter(sel);
    let ms = scan_spec(fetched, c)->Ok_0;
    assert(seq![region].drop_last() =~= Seq::<Seq<char>>::empty());
    assert(seq![fetched].drop_last() =~= Seq::<Seq<AlignedRead>>::empty());
    assert(region_scan_spec(Seq::<Seq<char>>::empty(), Seq::<Seq<AlignedRead>>::empty(), c)
        == Ok::<Multiset<LocusModel>, crate::convert::RecordError>(Multiset::empty()));
    assert(seq![region].last() == region);
    assert(seq![fetched].last() == fetched);
    assert(Multiset::<LocusModel>::empty().add(ms) =~= ms);
}

} // verus!
