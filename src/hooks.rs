//! Caller-chosen read filters and locus transforms.

use vstd::prelude::*;
use crate::convert::AlignedRead;
use crate::locus::{Locus, LocusModel, Strand, MAX_COORD};

verus! {

/// Decides, before conversion, whether a record is indexed at all.
pub trait ReadFilter {
    spec fn accepts_spec(&self, r: AlignedRead) -> bool;

    fn accepts(&self, r: &AlignedRead) -> (b: bool)
        ensures
            b == self.accepts_spec(*r),
    ;
}

/// Rewrites a converted locus before it is indexed. The reference never
/// changes.
pub trait LocusTransform {
    spec fn apply_spec(&self, l: LocusModel) -> LocusModel;

    fn apply(&self, l: Locus) -> (r: Locus)
        requires
            l.wf(),
        ensures
            r.wf(),
            r.model() == self.apply_spec(l.model()),
            r.model().0 == l.model().0,
    ;
}

/// Keeps the records whose mapping quality is strictly above `above`.
#[derive(Clone, Copy, Debug)]
pub struct MinMapq {
    pub above: u8,
}

impl ReadFilter for MinMapq {
    open spec fn accepts_spec(&self, r: AlignedRead) -> bool {
        r.mapq > self.above
    }

    fn accepts(&self, r: &AlignedRead) -> (b: bool) {
        r.mapq > self.above
    }
}

/// Leaves every locus as it is.
#[derive(Clone, Copy, Debug)]
pub struct Identity;

impl LocusTransform for Identity {
    open spec fn apply_spec(&self, l: LocusModel) -> LocusModel {
        l
    }

    fn apply(&self, l: Locus) -> (r: Locus) {
        l
    }
}

/// Moves a locus to the single position where a transposase cut: its first
/// position on its own strand, moved `forward` positions right on the forward
/// strand or `reverse` positions left on the reverse strand. The position is
/// kept within `0..MAX_COORD`.
#[derive(Clone, Copy, Debug)]
pub struct InsertionShift {
    pub forward: u64,
    pub reverse: u64,
}

/// The first position of `l` read along its strand.
pub open spec fn first_position(l: LocusModel) -> int {
    if l.3 == Strand::Reverse && l.2 > 0 {
        l.1 + l.2 - 1
    } else {
        l.1
    }
}

pub open spec fn clamp_position(p: int) -> int {
    if p < 0 {
        0
    } else if p >= MAX_COORD {
        MAX_COORD - 1
    } else {
        p
    }
}

impl LocusTransform for InsertionShift {
    open spec fn apply_spec(&self, l: LocusModel) -> LocusModel {
        let p = if l.3 == Strand::Forward {
            first_position(l) + self.forward
        } else {
            first_position(l) - self.reverse
        };
        (l.0, clamp_position(p), 1, l.3)
    }

    fn apply(&self, l: Locus) -> (r: Locus) {
        let first: u64 = if l.strand == Strand::Reverse && l.length > 0 {
            l.start + l.length - 1
        } else {
            l.start
        };
        let p: u64 = match l.strand {
            Strand::Forward => if self.forward >= MAX_COORD - first {
                MAX_COORD - 1
            } else {
                first + self.forward
            },
            Strand::Reverse => if self.reverse > first {
                0
            } else if first - self.reverse >= MAX_COORD {
                MAX_COORD - 1
            } else {
                first - self.reverse
            },
        };
        Locus::at_position(l.refid, p, l.strand)
    }
}

} // verus!
