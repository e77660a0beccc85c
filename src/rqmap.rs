//! The read quantification map: construction from alignment records and the
//! overlap and coverage queries.

use vstd::prelude::*;
use vstd::multiset::Multiset;
use crate::convert::{AlignedRead, RecordError, LibraryType, convert_spec, locus_from_read};
use crate::hooks::{LocusTransform, ReadFilter};
use crate::index::IntervalIndex;
use crate::locus::{Locus, LocusModel, MAX_COORD, Span, extent, overlap_total, point_span};
use crate::scaffold::{ScaffoldDict, first_index_of};

verus! {

pub open spec fn accepts_opt<F: ReadFilter>(filter: Option<F>, r: AlignedRead) -> bool {
    match filter {
        None => true,
        Some(f) => f.accepts_spec(r),
    }
}

pub open spec fn apply_opt<T: LocusTransform>(transform: Option<T>, l: LocusModel) -> LocusModel {
    match transform {
        None => l,
        Some(t) => t.apply_spec(l),
    }
}

/// How records are turned into indexed loci.
pub struct ScanConfig<F, T> {
    pub as_frags: bool,
    pub lt: LibraryType,
    pub names: Seq<Seq<char>>,
    pub filter: Option<F>,
    pub transform: Option<T>,
}

/// What one record adds to the index: nothing when the filter rejects it,
/// else its converted and transformed locus; or the conversion error.
pub open spec fn step_spec<F: ReadFilter, T: LocusTransform>(r: AlignedRead, c: ScanConfig<F, T>) -> Result<
    Option<LocusModel>,
    RecordError,
> {
    if !accepts_opt(c.filter, r) {
        Ok(None)
    } else {
        match convert_spec(r, c.as_frags, c.lt, c.names) {
            Ok(l) => Ok(Some(apply_opt(c.transform, l))),
            Err(e) => Err(RecordError { record: r, kind: e }),
        }
    }
}

/// The loci that scanning `reads` in order indexes, or the error of the
/// first record that fails conversion.
pub open spec fn scan_spec<F: ReadFilter, T: LocusTransform>(reads: Seq<AlignedRead>, c: ScanConfig<F, T>) -> Result<
    Multiset<LocusModel>,
    RecordError,
>
    decreases reads.len(),
{
    if reads.len() == 0 {
        Ok(Multiset::empty())
    } else {
        match scan_spec(reads.drop_last(), c) {
            Err(e) => Err(e),
            Ok(m) => match step_spec(reads.last(), c) {
                Err(e) => Err(e),
                Ok(None) => Ok(m),
                Ok(Some(l)) => Ok(m.insert(l)),
            },
        }
    }
}

#[verifier::opaque]
/// The loci that a region scan indexes: for each requested region in turn
/// whose reference the dictionary knows, the scan of the records fetched for
/// it; regions on unknown references add nothing.
pub open spec fn region_scan_spec<F: ReadFilter, T: LocusTransform>(
    regions: Seq<Seq<char>>,
    batches: Seq<Seq<AlignedRead>>,
    c: ScanConfig<F, T>,
) -> Result<Multiset<LocusModel>, RecordError>
    decreases regions.len(),
{
    if regions.len() == 0 || batches.len() == 0 {
        Ok(Multiset::empty())
    } else {
        match region_scan_spec(regions.drop_last(), batches.drop_last(), c) {
            Err(e) => Err(e),
            Ok(m) => if first_index_of(c.names, regions.last()) is None {
                Ok(m)
            } else {
                match scan_spec(batches.last(), c) {
                    Err(e) => Err(e),
                    Ok(m2) => Ok(m.add(m2)),
                }
            },
        }
    }
}


/// What to fetch from an indexed source for one requested region: the
/// records on reference `tid` that overlap `start..end`.
#[derive(Clone, Copy, Debug, PartialEq, Eq, Structural)]
pub struct FetchBounds {
    pub tid: usize,
    pub start: u64,
    pub end: u64,
}

/// The region's reference id and the half-open range of the positions it
/// covers (its start alone when it has length zero), or nothing when the
/// reference is unknown.
pub open spec fn fetch_bounds_spec(region: Span, names: Seq<Seq<char>>) -> Option<(nat, int, int)> {
    match first_index_of(names, region.0) {
        None => None,
        Some(i) => Some((i, region.1, region.1 + extent(region.2))),
    }
}

/// Where to fetch the records of one requested region.
pub fn fetch_bounds(region: &Locus, sd: &ScaffoldDict) -> (r: Option<FetchBounds>)
    requires
        region.wf(),
    ensures
        match r {
            None => fetch_bounds_spec(region.span(), sd.names_spec()) is None,
            Some(b) => fetch_bounds_spec(region.span(), sd.names_spec()) == Some(
                (b.tid as nat, b.start as int, b.end as int),
            ),
        },
{
    match sd.str_to_id(&region.refid) {
        None => None,
        Some(tid) => {
            let end = if region.length == 0 {
                region.start + 1
            } else {
                region.start + region.length
            };
            Some(FetchBounds { tid, start: region.start, end })
        },
    }
}

/// One requested region and the records an indexed source returned for it.
pub struct RegionBatch {
    pub region: Locus,
    pub reads: Vec<AlignedRead>,
}

pub open spec fn batch_names(batches: Seq<RegionBatch>) -> Seq<Seq<char>> {
    batches.map_values(|b: RegionBatch| b.region.refid@)
}

pub open spec fn batch_reads(batches: Seq<RegionBatch>) -> Seq<Seq<AlignedRead>> {
    batches.map_values(|b: RegionBatch| b.reads@)
}

/// Collects loci during construction; `finish` freezes them into an `RQMap`.
pub struct RQMapBuilder<F, T> {
    as_frags: bool,
    lt: LibraryType,
    dict: ScaffoldDict,
    filter: Option<F>,
    transform: Option<T>,
    index: IntervalIndex,
}

impl<F: ReadFilter, T: LocusTransform> RQMapBuilder<F, T> {
    pub closed spec fn config(&self) -> ScanConfig<F, T> {
        ScanConfig {
            as_frags: self.as_frags,
            lt: self.lt,
            names: self.dict.names_spec(),
            filter: self.filter,
            transform: self.transform,
        }
    }

    /// The loci collected so far.
    pub closed spec fn loci(&self) -> Multiset<LocusModel> {
        self.index@
    }

    pub fn new(dict: ScaffoldDict, as_frags: bool, lt: LibraryType, rf: Option<F>, pf: Option<T>) -> (b: Self)
        ensures
            b.loci() =~= Multiset::empty(),
            b.config() == (ScanConfig { as_frags, lt, names: dict.names_spec(), filter: rf, transform: pf }),
    {
        RQMapBuilder { as_frags, lt, dict, filter: rf, transform: pf, index: IntervalIndex::new() }
    }

    /// Filters, converts, transforms and indexes one record.
    pub fn push(&mut self, r: &AlignedRead) -> (res: Result<(), RecordError>)
        ensures
            final(self).config() == old(self).config(),
            match step_spec(*r, old(self).config()) {
                Err(e) => res == Err::<(), RecordError>(e) && final(self).loci() == old(self).loci(),
                Ok(None) => res is Ok && final(self).loci() == old(self).loci(),
                Ok(Some(l)) => res is Ok && final(self).loci() == old(self).loci().insert(l),
            },
    {
        let keep = match &self.filter {
            None => true,
            Some(f) => f.accepts(r),
        };
        if !keep {
            return Ok(());
        }
        let l = match locus_from_read(r, self.as_frags, self.lt, &self.dict) {
            Ok(l) => l,
            Err(e) => {
                return Err(RecordError { record: *r, kind: e });
            },
        };
        let l = match &self.transform {
            None => l,
            Some(t) => t.apply(l),
        };
        self.index.insert(&l);
        Ok(())
    }

    /// Like `push`, but a record that fails conversion is dropped instead of
    /// failing: returns whether it was dropped, so that callers can count.
    pub fn push_or_skip(&mut self, r: &AlignedRead) -> (dropped: bool)
        ensures
            final(self).config() == old(self).config(),
            dropped == step_spec(*r, old(self).config()) is Err,
            match step_spec(*r, old(self).config()) {
                Ok(Some(l)) => final(self).loci() == old(self).loci().insert(l),
                _ => final(self).loci() == old(self).loci(),
            },
    {
        self.push(r).is_err()
    }

    /// Pushes each record of `reads` in order, stopping at the first error.
    pub fn push_all(&mut self, reads: &Vec<AlignedRead>) -> (res: Result<(), RecordError>)
        ensures
            final(self).config() == old(self).config(),
            match scan_spec(reads@, old(self).config()) {
                Err(e) => res == Err::<(), RecordError>(e),
                Ok(m) => res is Ok && final(self).loci() == old(self).loci().add(m),
            },
    {
        broadcast use vstd::multiset::group_multiset_axioms;

        let ghost c = self.config();
        let ghost base = self.loci();
        let mut i: usize = 0;
        while i < reads.len()
            invariant
                i <= reads@.len(),
                self.config() == c,
                c == old(self).config(),
                base == old(self).loci(),
                scan_spec(reads@.take(i as int), c) is Ok,
                self.loci() =~= base.add(scan_spec(reads@.take(i as int), c)->Ok_0),
            decreases reads@.len() - i,
        {
            let ghost before = self.loci();
            let ghost m = scan_spec(reads@.take(i as int), c)->Ok_0;
            assert(reads@.take(i + 1).drop_last() =~= reads@.take(i as int));
            assert(reads@.take(i + 1).last() == reads@[i as int]);
            let res = self.push(&reads[i]);
            match res {
                Err(e) => {
                    proof {
                        assert(scan_spec(reads@.take(i + 1), c) == Err::<Multiset<LocusModel>, RecordError>(e));
                        lemma_scan_error_sticks(reads@, (i + 1) as int, c);
                        assert(reads@.take(reads@.len() as int) =~= reads@);
                    }
                    return Err(e);
                },
                Ok(()) => {
                    proof {
                        match step_spec(reads@[i as int], c) {
                            Ok(Some(l)) => {
                                assert(base.add(m).insert(l) =~= base.add(m.insert(l)));
                            },
                            _ => {},
                        }
                    }
                },
            }
            i += 1;
        }
        assert(reads@.take(reads@.len() as int) =~= reads@);
        Ok(())
    }

    /// Indexes the records fetched for one region, or nothing when the
    /// dictionary does not know the region's reference.
    pub fn push_region(&mut self, batch: &RegionBatch) -> (res: Result<(), RecordError>)
        ensures
            final(self).config() == old(self).config(),
            if first_index_of(old(self).config().names, batch.region.refid@) is None {
                res is Ok && final(self).loci() == old(self).loci()
            } else {
                match scan_spec(batch.reads@, old(self).config()) {
                    Err(e) => res == Err::<(), RecordError>(e),
                    Ok(m) => res is Ok && final(self).loci() == old(self).loci().add(m),
                }
            },
    {
        match self.dict.str_to_id(&batch.region.refid) {
            None => Ok(()),
            Some(_) => self.push_all(&batch.reads),
        }
    }

    pub fn finish(self) -> (m: RQMap)
        ensures
            m@ == self.loci(),
            m.library_type_spec() == self.config().lt,
    {
        RQMap { construction: self.lt, map: self.index }
    }
}

/// Once a scan has failed, scanning more records fails with the same error.
proof fn lemma_scan_error_sticks<F: ReadFilter, T: LocusTransform>(reads: Seq<AlignedRead>, i: int, c: ScanConfig<F, T>)
    requires
        0 <= i <= reads.len(),
        scan_spec(reads.take(i), c) is Err,
    ensures
        scan_spec(reads.take(reads.len() as int), c) == scan_spec(reads.take(i), c),
    decreases reads.len() - i,
{
    if i < reads.len() {
        assert(reads.take(i + 1).drop_last() =~= reads.take(i));
        lemma_scan_error_sticks(reads, i + 1, c);
    }
}

proof fn lemma_region_step<F: ReadFilter, T: LocusTransform>(
    names: Seq<Seq<char>>,
    reads: Seq<Seq<AlignedRead>>,
    i: int,
    c: ScanConfig<F, T>,
)
    requires
        0 <= i < names.len(),
        names.len() == reads.len(),
    ensures
        region_scan_spec(names.take(i + 1), reads.take(i + 1), c) == match region_scan_spec(
            names.take(i),
            reads.take(i),
            c,
        ) {
            Err(e) => Err(e),
            Ok(m) => if first_index_of(c.names, names[i]) is None {
                Ok(m)
            } else {
                match scan_spec(reads[i], c) {
                    Err(e) => Err(e),
                    Ok(m2) => Ok(m.add(m2)),
                }
            },
        },
{
    reveal(region_scan_spec);
    assert(names.take(i + 1).drop_last() =~= names.take(i));
    assert(reads.take(i + 1).drop_last() =~= reads.take(i));
}

/// Once a region scan has failed, scanning more regions fails with the same
/// error.
proof fn lemma_region_error_sticks<F: ReadFilter, T: LocusTransform>(
    names: Seq<Seq<char>>,
    reads: Seq<Seq<AlignedRead>>,
    i: int,
    c: ScanConfig<F, T>,
)
    requires
        0 <= i <= names.len(),
        names.len() == reads.len(),
        region_scan_spec(names.take(i), reads.take(i), c) is Err,
    ensures
        region_scan_spec(names.take(names.len() as int), reads.take(reads.len() as int), c)
            == region_scan_spec(names.take(i), reads.take(i), c),
    decreases names.len() - i,
{
    reveal(region_scan_spec);
    if i < names.len() {
        assert(names.take(i + 1).drop_last() =~= names.take(i));
        assert(reads.take(i + 1).drop_last() =~= reads.take(i));
        lemma_region_error_sticks(names, reads, i + 1, c);
    }
}

/// A library of aligned reads held as an interval index, with the library
/// type it was built under.
pub struct RQMap {
    construction: LibraryType,
    map: IntervalIndex,
}

impl View for RQMap {
    type V = Multiset<LocusModel>;

    closed spec fn view(&self) -> Multiset<LocusModel> {
        self.map@
    }
}

impl RQMap {
    pub closed spec fn library_type_spec(&self) -> LibraryType {
        self.construction
    }

    pub fn library_type(&self) -> (r: LibraryType)
        ensures
            r == self.library_type_spec(),
    {
        self.construction
    }

    /// The number of indexed loci that overlap `p`, each copy counted.
    pub fn counts_within(&self, p: &Locus) -> (r: usize)
        requires
            p.wf(),
        ensures
            r == overlap_total(self@, p.span()),
    {
        self.map.count_overlapping(p)
    }

    /// The number of indexed loci that cover position `pos` of `refid`.
    pub fn coverage_at(&self, refid: &String, pos: u64) -> (r: usize)
        requires
            pos <= MAX_COORD,
        ensures
            r == overlap_total(self@, point_span(refid@, pos as int)),
    {
        self.map.count_span(refid, pos, 1)
    }

    /// The coverage of each position of `c`, in coordinate order; a
    /// zero-length `c` has the one position `c.start`.
    pub fn coverage_across(&self, c: &Locus) -> (r: Vec<usize>)
        requires
            c.wf(),
        ensures
            r@.len() == extent(c.length as int),
            forall|i: int|
                0 <= i < r@.len() ==> r@[i] == overlap_total(self@, point_span(c.refid@, c.start + i)),
    {
        let n: u64 = if c.length == 0 {
            1
        } else {
            c.length
        };
        let mut out: Vec<usize> = Vec::new();
        let mut i: u64 = 0;
        while i < n
            invariant
                c.wf(),
                n == extent(c.length as int),
                i <= n,
                out@.len() == i,
                forall|j: int|
                    0 <= j < i ==> out@[j] == overlap_total(self@, point_span(c.refid@, c.start + j)),
            decreases n - i,
        {
            let v = self.coverage_at(&c.refid, c.start + i);
            out.push(v);
            i += 1;
        }
        out
    }

    /// Builds a map from the records of a full scan, in source order. The
    /// first record that fails conversion fails the whole construction.
    pub fn from_reader<F: ReadFilter, T: LocusTransform>(
        reads: &Vec<AlignedRead>,
        dict: ScaffoldDict,
        as_frags: bool,
        lt: LibraryType,
        rf: Option<F>,
        pf: Option<T>,
    ) -> (res: Result<RQMap, RecordError>)
        ensures
            match res {
                Ok(q) => scan_spec(
                    reads@,
                    ScanConfig { as_frags, lt, names: dict.names_spec(), filter: rf, transform: pf },
                ) == Ok::<Multiset<LocusModel>, RecordError>(q@) && q.library_type_spec() == lt,
                Err(e) => scan_spec(
                    reads@,
                    ScanConfig { as_frags, lt, names: dict.names_spec(), filter: rf, transform: pf },
                ) == Err::<Multiset<LocusModel>, RecordError>(e),
            },
    {
        broadcast use vstd::multiset::group_multiset_axioms;

        let mut b = RQMapBuilder::new(dict, as_frags, lt, rf, pf);
        match b.push_all(reads) {
            Err(e) => Err(e),
            Ok(()) => {
                let q = b.finish();
                assert(q@ =~= scan_spec(reads@, b.config())->Ok_0);
                Ok(q)
            },
        }
    }

    /// Builds a map from the records fetched for each requested region, in
    /// request order, into one index. Regions on references the dictionary
    /// does not know are skipped; a record fetched for two regions is indexed
    /// twice. The first record that fails conversion fails the construction.
    pub fn from_indexed<F: ReadFilter, T: LocusTransform>(
        batches: &Vec<RegionBatch>,
        dict: ScaffoldDict,
        as_frags: bool,
        lt: LibraryType,
        rf: Option<F>,
        pf: Option<T>,
    ) -> (res: Result<RQMap, RecordError>)
        ensures
            match res {
                Ok(q) => region_scan_spec(
                    batch_names(batches@),
                    batch_reads(batches@),
                    ScanConfig { as_frags, lt, names: dict.names_spec(), filter: rf, transform: pf },
                ) == Ok::<Multiset<LocusModel>, RecordError>(q@) && q.library_type_spec() == lt,
                Err(e) => region_scan_spec(
                    batch_names(batches@),
                    batch_reads(batches@),
                    ScanConfig { as_frags, lt, names: dict.names_spec(), filter: rf, transform: pf },
                ) == Err::<Multiset<LocusModel>, RecordError>(e),
            },
    {
        let ghost names = batch_names(batches@);
        let ghost reads = batch_reads(batches@);
        let ghost c0 = ScanConfig { as_frags, lt, names: dict.names_spec(), filter: rf, transform: pf };
        let mut b = RQMapBuilder::new(dict, as_frags, lt, rf, pf);
        let ghost c = b.config();
        proof {
            reveal(region_scan_spec);
            assert(region_scan_spec(names.take(0), reads.take(0), c) == Ok::<Multiset<LocusModel>, RecordError>(Multiset::empty()));
        }
        let mut i: usize = 0;
        while i < batches.len()
            invariant
                i <= batches@.len(),
                names == batch_names(batches@),
                reads == batch_reads(batches@),
                b.config() == c,
                c == c0,
                c0 == (ScanConfig { as_frags, lt, names: dict.names_spec(), filter: rf, transform: pf }),
                b.lt == lt,
                region_scan_spec(names.take(i as int), reads.take(i as int), c) is Ok,
                b.loci() =~= region_scan_spec(names.take(i as int), reads.take(i as int), c)->Ok_0,
            decreases batches@.len() - i,
        {
            proof {
                lemma_region_step(names, reads, i as int, c);
                assert(names[i as int] == batches@[i as int].region.refid@);
                assert(reads[i as int] == batches@[i as int].reads@);
            }
            match b.push_region(&batches[i]) {
                Ok(()) => {},
                Err(e) => {
                    proof {
                        lemma_region_error_sticks(names, reads, (i + 1) as int, c);
                        assert(names.take(names.len() as int) =~= names);
                        assert(reads.take(reads.len() as int) =~= reads);
                    }
                    return Err(e);
                },
            }
            i += 1;
        }
        proof {
            assert(names.take(names.len() as int) =~= names);
            assert(reads.take(reads.len() as int) =~= reads);
        }
        Ok(b.finish())
    }
}

} // verus!
