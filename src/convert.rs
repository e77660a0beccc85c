//! Turning one alignment record into a stranded locus.

use vstd::prelude::*;
use crate::locus::{Locus, LocusModel, Strand, MAX_COORD};
use crate::scaffold::ScaffoldDict;

verus! {

/// How a read's orientation and mate identity give the strand of the
/// molecule it came from.
#[derive(Clone, Copy, Debug, PartialEq, Eq, Structural)]
pub enum LibraryType {
    /// The first mate reads the sense strand.
    R1Sense,
    /// The second mate reads the sense strand.
    R2Sense,
    /// No strand information: every locus is put on the forward strand.
    Unstranded,
}

/// The fields of an alignment record that the conversion reads. Positions are
/// 0-based; `end_pos` is one past the last aligned reference position.
#[derive(Clone, Copy, Debug, PartialEq, Eq, Structural)]
pub struct AlignedRead {
    pub tid: i32,
    pub pos: i64,
    pub end_pos: i64,
    pub mapq: u8,
    pub is_unmapped: bool,
    pub is_reverse: bool,
    pub is_paired: bool,
    pub is_last_in_template: bool,
    pub is_mate_unmapped: bool,
    pub mtid: i32,
    pub mpos: i64,
    pub insert_size: i64,
}

/// Why a record could not be turned into a locus.
#[derive(Clone, Copy, Debug, PartialEq, Eq, Structural)]
pub enum ConvertError {
    /// The record is not aligned.
    Unmapped,
    /// The record's reference id is not in the scaffold dictionary.
    UnknownReference,
    /// Fragment mode, but the record has no usable mate: not paired, mate
    /// unmapped or on another reference, or no template length.
    MateUnavailable,
    /// The span starts before 0, has negative length or passes `MAX_COORD`.
    OutOfRange,
}

/// A record that could not be turned into a locus, and why.
#[derive(Clone, Copy, Debug, PartialEq, Eq, Structural)]
pub struct RecordError {
    pub record: AlignedRead,
    pub kind: ConvertError,
}

/// The record is the second mate of a pair.
pub open spec fn is_second_mate(r: AlignedRead) -> bool {
    r.is_paired && r.is_last_in_template
}

/// The strand given to a record by the library type.
pub open spec fn strand_spec(lt: LibraryType, is_reverse: bool, second_mate: bool) -> Strand {
    match lt {
        LibraryType::Unstranded => Strand::Forward,
        LibraryType::R1Sense => if is_reverse != second_mate {
            Strand::Reverse
        } else {
            Strand::Forward
        },
        LibraryType::R2Sense => if is_reverse != second_mate {
            Strand::Forward
        } else {
            Strand::Reverse
        },
    }
}

/// First position and length of what a record stands for: its own aligned
/// span, or in fragment mode the whole insert, which starts at the leftmost
/// of the two mates and spans the absolute template length.
pub open spec fn span_spec(r: AlignedRead, as_frags: bool) -> (int, int) {
    if !as_frags {
        (r.pos as int, r.end_pos - r.pos)
    } else {
        let start = if r.pos <= r.mpos { r.pos as int } else { r.mpos as int };
        let len = if r.insert_size < 0 { -r.insert_size } else { r.insert_size as int };
        (start, len)
    }
}

pub open spec fn mate_unusable(r: AlignedRead) -> bool {
    !r.is_paired || r.is_mate_unmapped || r.mtid != r.tid || r.insert_size == 0
}

/// The locus of a record, or why there is none.
pub open spec fn convert_spec(
    r: AlignedRead,
    as_frags: bool,
    lt: LibraryType,
    names: Seq<Seq<char>>,
) -> Result<LocusModel, ConvertError> {
    let (start, len) = span_spec(r, as_frags);
    if r.is_unmapped {
        Err(ConvertError::Unmapped)
    } else if r.tid < 0 || r.tid >= names.len() {
        Err(ConvertError::UnknownReference)
    } else if as_frags && mate_unusable(r) {
        Err(ConvertError::MateUnavailable)
    } else if start < 0 || len < 0 || start + len > MAX_COORD {
        Err(ConvertError::OutOfRange)
    } else {
        Ok((names[r.tid as int], start, len, strand_spec(lt, r.is_reverse, is_second_mate(r))))
    }
}

/// The strand a record's locus lies on.
pub fn strand_of(lt: LibraryType, r: &AlignedRead) -> (s: Strand)
    ensures
        s == strand_spec(lt, r.is_reverse, is_second_mate(*r)),
{
    let second = r.is_paired && r.is_last_in_template;
    match lt {
        LibraryType::Unstranded => Strand::Forward,
        LibraryType::R1Sense => if r.is_reverse != second {
            Strand::Reverse
        } else {
            Strand::Forward
        },
        LibraryType::R2Sense => if r.is_reverse != second {
            Strand::Forward
        } else {
            Strand::Reverse
        },
    }
}

/// Converts a record into a locus on the reference that `sd` names for it.
pub fn locus_from_read(r: &AlignedRead, as_frags: bool, lt: LibraryType, sd: &ScaffoldDict) -> (res:
    Result<Locus, ConvertError>)
    ensures
        match res {
            Ok(l) => l.wf() && convert_spec(*r, as_frags, lt, sd.names_spec()) == Ok::<
                LocusModel,
                ConvertError,
            >(l.model()),
            Err(e) => convert_spec(*r, as_frags, lt, sd.names_spec()) == Err::<LocusModel, ConvertError>(e),
        },
{
    if r.is_unmapped {
        return Err(ConvertError::Unmapped);
    }
    if r.tid < 0 || r.tid as usize >= sd.len() {
        return Err(ConvertError::UnknownReference);
    }
    if as_frags && (!r.is_paired || r.is_mate_unmapped || r.mtid != r.tid || r.insert_size == 0) {
        return Err(ConvertError::MateUnavailable);
    }
    let (start, len): (i128, i128) = if !as_frags {
        (r.pos as i128, r.end_pos as i128 - r.pos as i128)
    } else {
        let s: i128 = if r.pos <= r.mpos { r.pos as i128 } else { r.mpos as i128 };
        let n: i128 = if r.insert_size < 0 { -(r.insert_size as i128) } else { r.insert_size as i128 };
        (s, n)
    };
    if start < 0 || len < 0 || start + len > MAX_COORD as i128 {
        return Err(ConvertError::OutOfRange);
    }
    let name = match sd.id_to_str(r.tid as usize) {
        Some(n) => n,
        None => {
            return Err(ConvertError::UnknownReference);
        },
    };
    let strand = strand_of(lt, r);
    Ok(Locus::new(name, start as u64, len as u64, strand))
}

} // verus!
