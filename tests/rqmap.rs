use rqmap::convert::{locus_from_read, strand_of, AlignedRead, ConvertError, LibraryType, RecordError};
use rqmap::hooks::{Identity, InsertionShift, LocusTransform, MinMapq, ReadFilter};
use rqmap::index::IntervalIndex;
use rqmap::locus::{Locus, Strand, MAX_COORD};
use rqmap::rqmap::{fetch_bounds, FetchBounds, RQMap, RQMapBuilder, RegionBatch};
use rqmap::scaffold::ScaffoldDict;

fn dict() -> ScaffoldDict {
    ScaffoldDict::new(vec!["chr1".to_string(), "chr2".to_string()])
}

fn read(tid: i32, pos: i64, end_pos: i64) -> AlignedRead {
    AlignedRead {
        tid,
        pos,
        end_pos,
        mapq: 60,
        is_unmapped: false,
        is_reverse: false,
        is_paired: false,
        is_last_in_template: false,
        is_mate_unmapped: false,
        mtid: -1,
        mpos: -1,
        insert_size: 0,
    }
}

fn mate(pos: i64, end_pos: i64, mpos: i64, insert_size: i64, last: bool) -> AlignedRead {
    AlignedRead {
        is_paired: true,
        is_last_in_template: last,
        mtid: 0,
        mpos,
        insert_size,
        ..read(0, pos, end_pos)
    }
}

fn locus(name: &str, start: u64, length: u64) -> Locus {
    Locus::new(name.to_string(), start, length, Strand::Forward)
}

fn three_records() -> Vec<AlignedRead> {
    vec![read(0, 100, 150), read(0, 120, 170), read(0, 200, 210)]
}

fn build(reads: &Vec<AlignedRead>) -> RQMap {
    RQMap::from_reader(reads, dict(), false, LibraryType::Unstranded, None::<MinMapq>, None::<Identity>).unwrap()
}

#[test]
fn three_records_scenario() {
    let m = build(&three_records());
    assert_eq!(m.counts_within(&locus("chr1", 100, 110)), 3);
    assert_eq!(m.coverage_at(&"chr1".to_string(), 125), 2);
    assert_eq!(m.coverage_across(&locus("chr1", 100, 5)), vec![1, 1, 1, 1, 1]);
}

#[test]
fn overlapping_regions_insert_twice() {
    let inside = read(0, 142, 148);
    let batches = vec![
        RegionBatch { region: locus("chr1", 100, 50), reads: vec![inside] },
        RegionBatch { region: locus("chr1", 140, 60), reads: vec![inside] },
    ];
    let m = RQMap::from_indexed(&batches, dict(), false, LibraryType::Unstranded, None::<MinMapq>, None::<Identity>)
        .unwrap();
    assert_eq!(m.counts_within(&locus("chr1", 140, 10)), 2);
    assert_eq!(m.coverage_at(&"chr1".to_string(), 145), 2);
}

#[test]
fn region_on_unknown_reference_is_skipped() {
    let batches = vec![
        RegionBatch { region: locus("chrZ", 100, 50), reads: vec![read(0, 100, 120)] },
        RegionBatch { region: locus("chr1", 100, 50), reads: vec![read(0, 110, 130)] },
    ];
    let m = RQMap::from_indexed(&batches, dict(), false, LibraryType::Unstranded, None::<MinMapq>, None::<Identity>)
        .unwrap();
    assert_eq!(m.counts_within(&locus("chr1", 0, 1000)), 1);
    assert_eq!(m.coverage_at(&"chr1".to_string(), 105), 0);
}

#[test]
fn region_scan_counts_at_most_full_scan() {
    let all = three_records();
    let full = build(&all);
    let batches = vec![RegionBatch { region: locus("chr1", 100, 30), reads: vec![all[0], all[1]] }];
    let part = RQMap::from_indexed(&batches, dict(), false, LibraryType::Unstranded, None::<MinMapq>, None::<Identity>)
        .unwrap();
    let q = locus("chr1", 100, 30);
    assert_eq!(part.counts_within(&q), 2);
    assert!(part.counts_within(&q) <= full.counts_within(&q));
    let wide = locus("chr1", 100, 200);
    assert_eq!(part.counts_within(&wide), 2);
    assert_eq!(full.counts_within(&wide), 3);
}

#[test]
fn stored_interval_covers_each_position() {
    let m = build(&vec![read(0, 10, 14)]);
    for p in 10..14 {
        assert!(m.coverage_at(&"chr1".to_string(), p) >= 1);
    }
    assert_eq!(m.coverage_at(&"chr1".to_string(), 9), 0);
    assert_eq!(m.coverage_at(&"chr1".to_string(), 14), 0);
}

#[test]
fn point_coverage_equals_one_position_overlap() {
    let m = build(&three_records());
    for p in [99u64, 100, 125, 149, 150, 169, 170, 205, 210] {
        let one = Locus::at_position("chr1".to_string(), p, Strand::Reverse);
        assert_eq!(m.coverage_at(&"chr1".to_string(), p), m.counts_within(&one));
        let zero = Locus::new("chr1".to_string(), p, 0, Strand::Forward);
        assert_eq!(m.coverage_at(&"chr1".to_string(), p), m.counts_within(&zero));
    }
}

#[test]
fn coverage_profile_has_one_value_per_position() {
    let m = build(&three_records());
    assert_eq!(m.coverage_across(&locus("chr1", 145, 10)), vec![2, 2, 2, 2, 2, 1, 1, 1, 1, 1]);
    assert_eq!(m.coverage_across(&locus("chr1", 0, 0)), vec![0]);
    assert_eq!(m.coverage_across(&locus("chr1", 149, 0)), vec![2]);
    assert_eq!(m.coverage_across(&locus("chr2", 0, 7)), vec![0; 7]);
}

#[test]
fn rejecting_filter_gives_empty_map() {
    let m = RQMap::from_reader(
        &three_records(),
        dict(),
        false,
        LibraryType::Unstranded,
        Some(MinMapq { above: 255 }),
        None::<Identity>,
    )
    .unwrap();
    assert_eq!(m.counts_within(&locus("chr1", 0, 1000)), 0);
    assert_eq!(m.coverage_at(&"chr1".to_string(), 125), 0);
}

#[test]
fn mapq_filter_keeps_records_above_threshold() {
    let mut low = read(0, 100, 150);
    low.mapq = 30;
    let mut high = read(0, 100, 150);
    high.mapq = 31;
    let f = MinMapq { above: 30 };
    assert!(!f.accepts(&low));
    assert!(f.accepts(&high));
    let m = RQMap::from_reader(&vec![low, high], dict(), false, LibraryType::Unstranded, Some(f), None::<Identity>)
        .unwrap();
    assert_eq!(m.counts_within(&locus("chr1", 100, 50)), 1);
}

#[test]
fn identity_transform_matches_no_transform() {
    let reads = three_records();
    let a = build(&reads);
    let b = RQMap::from_reader(&reads, dict(), false, LibraryType::Unstranded, None::<MinMapq>, Some(Identity))
        .unwrap();
    for (s, l) in [(0u64, 1000u64), (100, 1), (149, 2), (170, 30), (205, 1)] {
        let q = locus("chr1", s, l);
        assert_eq!(a.counts_within(&q), b.counts_within(&q));
    }
}

#[test]
fn construction_is_deterministic() {
    let reads = three_records();
    let a = build(&reads);
    let b = build(&reads);
    for p in 95..215u64 {
        assert_eq!(a.coverage_at(&"chr1".to_string(), p), b.coverage_at(&"chr1".to_string(), p));
    }
}

#[test]
fn conversion_error_aborts_construction() {
    let mut bad = read(0, 100, 150);
    bad.is_unmapped = true;
    let reads = vec![read(0, 10, 20), bad, read(5, 10, 20)];
    let r = RQMap::from_reader(&reads, dict(), false, LibraryType::Unstranded, None::<MinMapq>, None::<Identity>);
    assert_eq!(r.err(), Some(RecordError { record: bad, kind: ConvertError::Unmapped }));
    let batches = vec![RegionBatch { region: locus("chr1", 0, 500), reads: vec![read(0, 1, 2), read(5, 10, 20)] }];
    let r = RQMap::from_indexed(&batches, dict(), false, LibraryType::Unstranded, None::<MinMapq>, None::<Identity>);
    assert_eq!(r.err(), Some(RecordError { record: read(5, 10, 20), kind: ConvertError::UnknownReference }));
}

#[test]
fn filtered_out_records_are_not_converted() {
    let mut bad = read(0, 100, 150);
    bad.is_unmapped = true;
    bad.mapq = 0;
    let r = RQMap::from_reader(
        &vec![bad, read(0, 10, 20)],
        dict(),
        false,
        LibraryType::Unstranded,
        Some(MinMapq { above: 10 }),
        None::<Identity>,
    );
    assert_eq!(r.unwrap().counts_within(&locus("chr1", 0, 200)), 1);
}

#[test]
fn conversion_errors() {
    let d = dict();
    let mut unmapped = read(0, 1, 2);
    unmapped.is_unmapped = true;
    assert_eq!(locus_from_read(&unmapped, false, LibraryType::Unstranded, &d).err(), Some(ConvertError::Unmapped));
    assert_eq!(
        locus_from_read(&read(2, 1, 2), false, LibraryType::Unstranded, &d).err(),
        Some(ConvertError::UnknownReference)
    );
    assert_eq!(
        locus_from_read(&read(-1, 1, 2), false, LibraryType::Unstranded, &d).err(),
        Some(ConvertError::UnknownReference)
    );
    assert_eq!(
        locus_from_read(&read(0, 1, 2), true, LibraryType::Unstranded, &d).err(),
        Some(ConvertError::MateUnavailable)
    );
    let mut mate_unmapped = mate(100, 150, 300, 250, false);
    mate_unmapped.is_mate_unmapped = true;
    assert_eq!(
        locus_from_read(&mate_unmapped, true, LibraryType::Unstranded, &d).err(),
        Some(ConvertError::MateUnavailable)
    );
    assert_eq!(
        locus_from_read(&mate(100, 150, 300, 0, false), true, LibraryType::Unstranded, &d).err(),
        Some(ConvertError::MateUnavailable)
    );
    assert_eq!(
        locus_from_read(&read(0, 150, 100), false, LibraryType::Unstranded, &d).err(),
        Some(ConvertError::OutOfRange)
    );
    assert_eq!(
        locus_from_read(&read(0, 10, MAX_COORD as i64 + 1), false, LibraryType::Unstranded, &d).err(),
        Some(ConvertError::OutOfRange)
    );
}

#[test]
fn single_read_locus() {
    let l = locus_from_read(&read(1, 100, 150), false, LibraryType::Unstranded, &dict()).unwrap();
    assert_eq!(l.refid, "chr2");
    assert_eq!((l.start, l.length, l.strand), (100, 50, Strand::Forward));
}

#[test]
fn fragment_spans_whole_insert() {
    let d = dict();
    let left = locus_from_read(&mate(100, 150, 300, 250, false), true, LibraryType::Unstranded, &d).unwrap();
    assert_eq!((left.start, left.length), (100, 250));
    let right = locus_from_read(&mate(300, 350, 100, -250, true), true, LibraryType::Unstranded, &d).unwrap();
    assert_eq!((right.start, right.length), (100, 250));
}

#[test]
fn strand_table() {
    let mut r1 = mate(100, 150, 300, 250, false);
    let mut r2 = mate(300, 350, 100, -250, true);
    assert_eq!(strand_of(LibraryType::R1Sense, &r1), Strand::Forward);
    assert_eq!(strand_of(LibraryType::R1Sense, &r2), Strand::Reverse);
    assert_eq!(strand_of(LibraryType::R2Sense, &r1), Strand::Reverse);
    assert_eq!(strand_of(LibraryType::R2Sense, &r2), Strand::Forward);
    r1.is_reverse = true;
    r2.is_reverse = true;
    assert_eq!(strand_of(LibraryType::R1Sense, &r1), Strand::Reverse);
    assert_eq!(strand_of(LibraryType::R1Sense, &r2), Strand::Forward);
    assert_eq!(strand_of(LibraryType::R2Sense, &r1), Strand::Forward);
    assert_eq!(strand_of(LibraryType::R2Sense, &r2), Strand::Reverse);
    assert_eq!(strand_of(LibraryType::Unstranded, &r1), Strand::Forward);
    assert_eq!(strand_of(LibraryType::Unstranded, &r2), Strand::Forward);
    let mut single = read(0, 1, 2);
    single.is_reverse = true;
    single.is_last_in_template = true;
    assert_eq!(strand_of(LibraryType::R1Sense, &single), Strand::Reverse);
}

#[test]
fn insertion_shift_collapses_to_one_position() {
    let t = InsertionShift { forward: 4, reverse: 5 };
    let f = t.apply(Locus::new("chr1".to_string(), 100, 50, Strand::Forward));
    assert_eq!((f.start, f.length, f.strand), (104, 1, Strand::Forward));
    let r = t.apply(Locus::new("chr1".to_string(), 100, 50, Strand::Reverse));
    assert_eq!((r.start, r.length, r.strand), (144, 1, Strand::Reverse));
    assert_eq!(r.refid, "chr1");
    let low = t.apply(Locus::new("chr1".to_string(), 0, 2, Strand::Reverse));
    assert_eq!(low.start, 0);
    let high = t.apply(Locus::new("chr1".to_string(), MAX_COORD - 2, 1, Strand::Forward));
    assert_eq!(high.start, MAX_COORD - 1);
    let same = Identity.apply(Locus::new("chr1".to_string(), 7, 3, Strand::Reverse));
    assert_eq!((same.start, same.length, same.strand), (7, 3, Strand::Reverse));
}

#[test]
fn transform_applies_before_indexing() {
    let mut rev = read(0, 200, 210);
    rev.is_reverse = true;
    rev.is_paired = true;
    let m = RQMap::from_reader(
        &vec![read(0, 100, 150), rev],
        dict(),
        false,
        LibraryType::R1Sense,
        None::<MinMapq>,
        Some(InsertionShift { forward: 4, reverse: 5 }),
    )
    .unwrap();
    assert_eq!(m.library_type(), LibraryType::R1Sense);
    assert_eq!(m.counts_within(&locus("chr1", 0, 1000)), 2);
    assert_eq!(m.coverage_at(&"chr1".to_string(), 104), 1);
    assert_eq!(m.coverage_at(&"chr1".to_string(), 204), 1);
    assert_eq!(m.coverage_at(&"chr1".to_string(), 100), 0);
}

#[test]
fn queries_on_absent_or_empty_spans_count_zero() {
    let m = build(&three_records());
    assert_eq!(m.counts_within(&locus("chr2", 0, 1000)), 0);
    assert_eq!(m.counts_within(&locus("chrZ", 0, 1000)), 0);
    assert_eq!(m.counts_within(&locus("chr1", 120, 0)), 2);
    assert_eq!(m.counts_within(&locus("chr1", 150, 20)), 1);
    assert_eq!(m.counts_within(&locus("chr1", 170, 30)), 0);
}

#[test]
fn zero_length_locus_is_one_position() {
    let m = build(&vec![read(0, 50, 50), read(0, 100, 150)]);
    assert_eq!(m.counts_within(&locus("chr1", 0, 1000)), 2);
    assert_eq!(m.coverage_at(&"chr1".to_string(), 50), 1);
    assert_eq!(m.coverage_at(&"chr1".to_string(), 49), 0);
    assert_eq!(m.coverage_at(&"chr1".to_string(), 51), 0);
    assert_eq!(m.counts_within(&locus("chr1", 50, 0)), 1);
    assert_eq!(m.counts_within(&locus("chr1", 125, 0)), 1);
    assert_eq!(m.counts_within(&locus("chr1", 150, 0)), 0);
    assert_eq!(m.coverage_across(&locus("chr1", 50, 0)), vec![1]);
    assert_eq!(m.coverage_across(&locus("chr1", 125, 1)), vec![1]);
}

#[test]
fn builder_streams_records() {
    let mut b = RQMapBuilder::new(dict(), false, LibraryType::Unstranded, None::<MinMapq>, None::<Identity>);
    for r in three_records() {
        assert!(b.push(&r).is_ok());
    }
    assert!(b.push_region(&RegionBatch { region: locus("chrZ", 0, 10), reads: vec![read(0, 0, 10)] }).is_ok());
    assert!(b.push_region(&RegionBatch { region: locus("chr2", 0, 10), reads: vec![read(1, 0, 10)] }).is_ok());
    assert_eq!(b.push(&read(9, 0, 1)), Err(RecordError { record: read(9, 0, 1), kind: ConvertError::UnknownReference }));
    let m = b.finish();
    assert_eq!(m.counts_within(&locus("chr1", 0, 1000)), 3);
    assert_eq!(m.counts_within(&locus("chr2", 0, 1000)), 1);
}

#[test]
fn fetch_bounds_of_regions() {
    let d = dict();
    assert_eq!(fetch_bounds(&locus("chr2", 1000000, 1000000), &d), Some(FetchBounds { tid: 1, start: 1000000, end: 2000000 }));
    assert_eq!(fetch_bounds(&locus("chr1", 564475, 0), &d), Some(FetchBounds { tid: 0, start: 564475, end: 564476 }));
    assert_eq!(fetch_bounds(&locus("chrM", 1, 2), &d), None);
}

#[test]
fn scaffold_dictionary_lookups() {
    let d = ScaffoldDict::new(vec!["a".to_string(), "b".to_string(), "a".to_string()]);
    assert_eq!(d.len(), 3);
    assert_eq!(d.str_to_id(&"a".to_string()), Some(0));
    assert_eq!(d.str_to_id(&"b".to_string()), Some(1));
    assert_eq!(d.str_to_id(&"c".to_string()), None);
    assert_eq!(d.id_to_str(1), Some("b".to_string()));
    assert_eq!(d.id_to_str(3), None);
}

#[test]
fn interval_index_counts_copies() {
    let mut ix = IntervalIndex::new();
    let l = locus("chr1", 10, 5);
    ix.insert(&l);
    ix.insert(&l);
    ix.insert(&Locus::new("chr1".to_string(), 12, 1, Strand::Reverse));
    assert_eq!(ix.count_overlapping(&locus("chr1", 12, 1)), 3);
    assert_eq!(ix.count_overlapping(&locus("chr1", 14, 10)), 2);
    assert_eq!(ix.count_overlapping(&locus("chr1", 15, 10)), 0);
}

#[test]
fn skipping_policy_drops_bad_records() {
    let mut bad = read(0, 100, 150);
    bad.is_unmapped = true;
    let mut b = RQMapBuilder::new(dict(), false, LibraryType::Unstranded, None::<MinMapq>, None::<Identity>);
    let mut dropped = 0;
    for r in [read(0, 10, 20), bad, read(7, 1, 2), read(0, 15, 30)] {
        if b.push_or_skip(&r) {
            dropped += 1;
        }
    }
    assert_eq!(dropped, 2);
    let m = b.finish();
    assert_eq!(m.coverage_at(&"chr1".to_string(), 17), 2);
    assert_eq!(m.coverage_at(&"chr1".to_string(), 120), 0);
}

fn paired_records() -> Vec<AlignedRead> {
    let mut low_quality = mate(1000100, 1000150, 1000300, 250, false);
    low_quality.mapq = 20;
    vec![
        mate(1000100, 1000150, 1000300, 250, false),
        mate(1000300, 1000350, 1000100, -250, true),
        low_quality,
        read(0, 564480, 564530),
        read(1, 10, 60),
    ]
}

#[test]
fn rqmap_from_reader() {
    let _r = RQMap::from_reader(&paired_records(), dict(), false, LibraryType::Unstranded, None::<MinMapq>, None::<Identity>)
        .unwrap();
    assert_eq!(_r.counts_within(&locus("chr1", 0, 2000000)), 4);
    assert_eq!(_r.counts_within(&locus("chr2", 0, 100)), 1);
}

#[test]
fn rqmap_from_reader_filt() {
    let _r = RQMap::from_reader(
        &paired_records(),
        dict(),
        false,
        LibraryType::Unstranded,
        Some(MinMapq { above: 30 }),
        None::<Identity>,
    )
    .unwrap();
    assert_eq!(_r.counts_within(&locus("chr1", 0, 2000000)), 3);
}

fn fetched_for(c1: &Locus) -> Vec<AlignedRead> {
    let b = fetch_bounds(c1, &dict()).unwrap();
    paired_records()
        .into_iter()
        .filter(|r| r.tid as usize == b.tid && (r.pos as u64) < b.end && (r.end_pos as u64) > b.start)
        .collect()
}

#[test]
fn rqmap_from_indexed() {
    let c1 = Locus::new("chr1".to_string(), 1000000, 1000000, Strand::Forward);
    let reads = fetched_for(&c1);
    let _r = RQMap::from_indexed(
        &vec![RegionBatch { region: c1, reads }],
        dict(),
        false,
        LibraryType::Unstranded,
        None::<MinMapq>,
        None::<Identity>,
    )
    .unwrap();
    assert_eq!(_r.counts_within(&locus("chr1", 0, 2000000)), 3);
}

#[test]
fn rqmap_from_indexed_filt() {
    let c1 = Locus::new("chr1".to_string(), 1000000, 1000000, Strand::Forward);
    let reads = fetched_for(&c1);
    let _r = RQMap::from_indexed(
        &vec![RegionBatch { region: c1, reads }],
        dict(),
        false,
        LibraryType::Unstranded,
        Some(MinMapq { above: 30 }),
        None::<Identity>,
    )
    .unwrap();
    assert_eq!(_r.counts_within(&locus("chr1", 0, 2000000)), 2);
}

#[test]
fn coverage_across_region() {
    let c0 = Locus::new("chr1".to_string(), 564475, 60, Strand::Forward);
    let reads = fetched_for(&c0);
    let r = RQMap::from_indexed(
        &vec![RegionBatch { region: Locus::new("chr1".to_string(), 564475, 60, Strand::Forward), reads }],
        dict(),
        false,
        LibraryType::Unstranded,
        None::<MinMapq>,
        None::<Identity>,
    )
    .unwrap();
    let cov = r.coverage_across(&c0);
    assert_eq!(cov.len(), 60);
    assert_eq!(cov.iter().sum::<usize>(), 50);
    assert_eq!(cov[4], 0);
    assert_eq!(cov[5], 1);
    assert_eq!(cov[54], 1);
    assert_eq!(cov[55], 0);
}
