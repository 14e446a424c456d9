//! Histogram and detector descriptors, and arrays of them.
use vstd::prelude::*;

use crate::cursor::{
    fixed_text, int_in_bounds, lemma_terminated_text_advances, read_terminated_string, terminated_text_field, text_in_slot,
    word_at, word_in_bounds, TEXT_WIDTH, WORD_WIDTH,
};
use crate::error::{decoded, Encoding, ParsingError};

verus! {

/// Width in bytes of the five words that follow a descriptor's name.
pub const COUNTS_WIDTH: usize = 40;

/// Width in bytes of a descriptor in the fixed-stride encoding.
pub const DETECTOR_WIDTH: usize = 56;

/// What a descriptor holds, with its name as characters.
pub struct DetectorView {
    pub name: Seq<char>,
    pub histo_number: i64,
    pub histo_length: i64,
    pub time_zero_bin: u64,
    pub first_good_bin: i64,
    pub last_good_bin: i64,
}

/// One detector of the instrument, or one histogram of the decay module.
#[derive(Debug, PartialEq, Eq)]
pub struct Detector {
    /// Detector name, e.g. Left-NPP.
    pub name: String,
    /// Number of the histogram of this detector in the decay module.
    pub histo_number: i64,
    /// Length of the histogram in bins.
    pub histo_length: i64,
    /// Bin of time zero: the bit pattern of an IEEE-754 double, since some
    /// spectrometers need a resolution finer than one bin.
    pub time_zero_bin: u64,
    pub first_good_bin: i64,
    pub last_good_bin: i64,
}

/// A histogram of the decay module is described by the same fields as a
/// detector.
pub type HDecay = Detector;

impl View for Detector {
    type V = DetectorView;

    open spec fn view(&self) -> DetectorView {
        DetectorView {
            name: self.name@,
            histo_number: self.histo_number,
            histo_length: self.histo_length,
            time_zero_bin: self.time_zero_bin,
            first_good_bin: self.first_good_bin,
            last_good_bin: self.last_good_bin,
        }
    }
}

/// A descriptor named `name` whose five words start at `pos`.
pub open spec fn detector_counts(b: Seq<u8>, name: Seq<char>, pos: int) -> DetectorView {
    DetectorView {
        name,
        histo_number: word_at(b, pos) as i64,
        histo_length: word_at(b, pos + 8) as i64,
        time_zero_bin: word_at(b, pos + 16),
        first_good_bin: word_at(b, pos + 24) as i64,
        last_good_bin: word_at(b, pos + 32) as i64,
    }
}

/// The fixed-stride descriptor at `pos`: a text slot, then five words.
pub open spec fn detector_fixed(b: Seq<u8>, pos: int) -> DetectorView {
    detector_counts(b, fixed_text(b, pos, 16), pos + 16)
}

/// Decoding one descriptor at `pos`.
pub open spec fn detector_at(b: Seq<u8>, pos: int, enc: Encoding) -> Result<(DetectorView, int), ParsingError> {
    match enc {
        Encoding::FixedStride => if pos + 56 <= b.len() {
            Ok((detector_fixed(b, pos), pos + 56))
        } else {
            Err(ParsingError::InsufficientBuffer { offset: pos as usize, needed: 56 })
        },
        Encoding::Streaming => match terminated_text_field(b, pos) {
            Err(e) => Err(e),
            Ok((name, p)) => if p + 40 <= b.len() {
                Ok((detector_counts(b, name, p), p + 40))
            } else {
                Err(ParsingError::InsufficientBuffer { offset: p as usize, needed: 40 })
            },
        },
    }
}

/// How many fixed-stride descriptors fit in what remains after `pos`.
pub open spec fn fixed_count(b: Seq<u8>, pos: int) -> int {
    if pos <= b.len() { (b.len() - pos) / 56 } else { 0 }
}

/// The fixed-stride descriptors that fill what remains after `pos`; the
/// remainder shorter than one descriptor is left unread.
pub open spec fn detectors_fixed(b: Seq<u8>, pos: int) -> Seq<DetectorView> {
    Seq::new(fixed_count(b, pos) as nat, |i: int| detector_fixed(b, pos + 56 * i))
}

/// The streaming descriptors from `pos` on, up to the end of the buffer or
/// the first descriptor that fails to decode, with the offset where they stop.
pub open spec fn detectors_streaming(b: Seq<u8>, pos: int) -> (Seq<DetectorView>, int)
    decreases b.len() - pos,
    via detectors_streaming_decreases
{
    if pos >= b.len() {
        (seq![], pos)
    } else {
        match detector_at(b, pos, Encoding::Streaming) {
            Ok((d, next)) => {
                let (rest, end) = detectors_streaming(b, next);
                (seq![d] + rest, end)
            },
            Err(_) => (seq![], pos),
        }
    }
}

/// A streaming descriptor that decodes ends after its start.
#[via_fn]
proof fn detectors_streaming_decreases(b: Seq<u8>, pos: int) {
    if pos < b.len() {
        lemma_terminated_text_advances(b, pos);
    }
}

/// Decoding an array of descriptors at `pos`, with the offset after it.
pub open spec fn detector_array(b: Seq<u8>, pos: int, enc: Encoding) -> (Seq<DetectorView>, int) {
    match enc {
        Encoding::FixedStride => (detectors_fixed(b, pos), pos + 56 * fixed_count(b, pos)),
        Encoding::Streaming => detectors_streaming(b, pos),
    }
}

/// The views of the descriptors in `v`.
pub open spec fn detector_views(v: Seq<Detector>) -> Seq<DetectorView> {
    v.map_values(|d: Detector| d@)
}

impl Detector {
    /// Decodes one descriptor at `pos`: its name, histogram number and
    /// length, time-zero bin, and first and last good bins.
    pub fn parse(bytes: &[u8], pos: usize, encoding: Encoding) -> (r: Result<(Detector, usize), ParsingError>)
        ensures
            decoded(r) == detector_at(bytes@, pos as int, encoding),
            encoding == Encoding::FixedStride ==> (r is Ok <==> pos + DETECTOR_WIDTH <= bytes@.len()),
    {
        match encoding {
            Encoding::FixedStride => {
                if pos > bytes.len() || bytes.len() - pos < DETECTOR_WIDTH {
                    return Err(ParsingError::InsufficientBuffer { offset: pos, needed: DETECTOR_WIDTH });
                }
                Ok((Detector::fixed_in_bounds(bytes, pos), pos + DETECTOR_WIDTH))
            },
            Encoding::Streaming => {
                let (name, p) = read_terminated_string(bytes, pos)?;
                if bytes.len() - p < COUNTS_WIDTH {
                    return Err(ParsingError::InsufficientBuffer { offset: p, needed: COUNTS_WIDTH });
                }
                let d = Detector::counts(bytes, name, p);
                Ok((d, p + COUNTS_WIDTH))
            },
        }
    }

    /// The fixed-stride descriptor at `pos`, which the caller knows to lie
    /// inside the buffer.
    fn fixed_in_bounds(bytes: &[u8], pos: usize) -> (d: Detector)
        requires
            pos + 56 <= bytes.len(),
        ensures
            d@ == detector_fixed(bytes@, pos as int),
    {
        let name = text_in_slot(bytes, pos, TEXT_WIDTH);
        Detector::counts(bytes, name, pos + TEXT_WIDTH)
    }

    /// The descriptor named `name` whose five words start at `pos`.
    fn counts(bytes: &[u8], name: String, pos: usize) -> (d: Detector)
        requires
            pos + 40 <= bytes.len(),
        ensures
            d@ == detector_counts(bytes@, name@, pos as int),
    {
        Detector {
            name,
            histo_number: int_in_bounds(bytes, pos),
            histo_length: int_in_bounds(bytes, pos + WORD_WIDTH),
            time_zero_bin: word_in_bounds(bytes, pos + 2 * WORD_WIDTH),
            first_good_bin: int_in_bounds(bytes, pos + 3 * WORD_WIDTH),
            last_good_bin: int_in_bounds(bytes, pos + 4 * WORD_WIDTH),
        }
    }
}

/// Decodes an array of descriptors at `pos`. In the fixed-stride encoding it
/// holds as many descriptors as fit in the rest of the buffer; in the
/// streaming encoding it ends at the end of the buffer or before the first
/// descriptor that fails to decode. Either way the array itself never fails.
pub(crate) fn parse_detectors(bytes: &[u8], pos: usize, encoding: Encoding) -> (r: (Vec<Detector>, usize))
    ensures
        (detector_views(r.0@), r.1 as int) == detector_array(bytes@, pos as int, encoding),
{
    let mut v: Vec<Detector> = Vec::new();
    match encoding {
        Encoding::FixedStride => {
            let count: usize = if pos <= bytes.len() { (bytes.len() - pos) / DETECTOR_WIDTH } else { 0 };
            let mut i: usize = 0;
            let mut p: usize = pos;
            while i < count
                invariant
                    count == fixed_count(bytes@, pos as int),
                    i <= count,
                    p == pos + 56 * i,
                    p + 56 * (count - i) <= bytes.len() || count == 0,
                    v@.len() == i,
                    forall|j: int| 0 <= j < i ==> #[trigger] v@[j]@ == detector_fixed(bytes@, pos + 56 * j),
                decreases count - i,
            {
                v.push(Detector::fixed_in_bounds(bytes, p));
                p = p + DETECTOR_WIDTH;
                i = i + 1;
            }
            assert(detector_views(v@) =~= detectors_fixed(bytes@, pos as int));
            (v, p)
        },
        Encoding::Streaming => {
            let mut p: usize = pos;
            while p < bytes.len()
                invariant
                    encoding == Encoding::Streaming,
                    pos <= p,
                    detectors_streaming(bytes@, pos as int) == (
                        detector_views(v@) + detectors_streaming(bytes@, p as int).0,
                        detectors_streaming(bytes@, p as int).1,
                    ),
                decreases bytes@.len() - p,
            {
                proof {
                    lemma_terminated_text_advances(bytes@, p as int);
                }
                match Detector::parse(bytes, p, Encoding::Streaming) {
                    Ok((d, next)) => {
                        proof {
                            let ghost before = detector_views(v@);
                            assert(detector_views(v@.push(d)) =~= before.push(d@));
                            assert(before.push(d@) + detectors_streaming(bytes@, next as int).0
                                =~= before + (seq![d@] + detectors_streaming(bytes@, next as int).0));
                        }
                        v.push(d);
                        p = next;
                    },
                    Err(_) => {
                        assert(detectors_streaming(bytes@, p as int) == (Seq::<DetectorView>::empty(), p as int));
                        assert(detector_views(v@) + Seq::<DetectorView>::empty() =~= detector_views(v@));
                        return (v, p);
                    },
                }
            }
            assert(detectors_streaming(bytes@, p as int) == (Seq::<DetectorView>::empty(), p as int));
            assert(detector_views(v@) + seq![] =~= detector_views(v@));
            (v, p)
        },
    }
}

} // verus!
