//! The whole file: the histogram section, then the run header.
use vstd::prelude::*;

use crate::cursor::terminated_text_field;
use crate::detector::{detectors_streaming, DetectorView, DETECTOR_WIDTH};
use crate::error::{Encoding, ParsingError};
use crate::histos::{histos_at, Histos, HistosView, SC_WIDTH};
use crate::run_header::{run_header_at, RunHeader, RunHeaderView, RUN_INFO_WIDTH};

verus! {

/// What a decoded file holds.
pub struct MusrRootFileView {
    pub histos: HistosView,
    pub run_header: RunHeaderView,
}

/// A decoded MusrRoot file.
#[derive(Debug, PartialEq, Eq)]
pub struct MusrRootFile {
    pub histos: Histos,
    pub run_header: RunHeader,
}

impl View for MusrRootFile {
    type V = MusrRootFileView;

    open spec fn view(&self) -> MusrRootFileView {
        MusrRootFileView { histos: self.histos@, run_header: self.run_header@ }
    }
}

/// Width in bytes of the fixed-width sections of a fixed-stride file: the
/// slow-control module, the run info, and the sample, magnet and beamline
/// slots.
pub const FIXED_SECTIONS_WIDTH: usize = 328;

/// Number of histograms in a fixed-stride file of `len` bytes. Nothing on
/// disk counts them: the decay module and the detector table describe the
/// same histograms, one 56-byte descriptor each (a detector's histogram
/// number names its histogram in the decay module), beside the fixed-width
/// sections.
pub open spec fn fixed_histogram_count(len: int) -> int {
    if len >= 328 { (len - 328) / 112 } else { 0 }
}

/// Where the histogram section of a fixed-stride file of `len` bytes ends:
/// after its descriptors and the slow-control module, or at the end of a
/// buffer too short for them.
pub open spec fn fixed_histos_end(len: int) -> int {
    if len >= 328 {
        56 * fixed_histogram_count(len) + 16
    } else if len >= 16 {
        16
    } else {
        len
    }
}

/// The bytes in which the histogram section is decoded: in the fixed-stride
/// encoding its own region, so that the decay module leaves room for the run
/// header; in the streaming encoding the whole buffer, where the decay module
/// ends at its first descriptor that fails.
pub open spec fn histos_region(b: Seq<u8>, enc: Encoding) -> Seq<u8> {
    match enc {
        Encoding::FixedStride => b.subrange(0, fixed_histos_end(b.len() as int)),
        Encoding::Streaming => b,
    }
}

/// Decoding a whole buffer: the histogram section from its start, then the
/// run header where the histogram section ends.
pub open spec fn musr_root_file_of(b: Seq<u8>, enc: Encoding) -> Result<MusrRootFileView, ParsingError> {
    match histos_at(histos_region(b, enc), 0, enc) { Err(e) => Err(e), Ok((histos, p)) =>
    match run_header_at(b, p, enc) { Err(e) => Err(e), Ok((run_header, _)) =>
        Ok(MusrRootFileView { histos, run_header })
    }}
}

impl MusrRootFile {
    /// Decodes a whole buffer, or returns the first failure met.
    ///
    /// In the streaming encoding the sample environment has no known layout,
    /// so a whole buffer fails there explicitly (see
    /// `streaming_buffer_never_decodes`); its sections decode on their own.
    pub fn parse(bytes: &[u8], encoding: Encoding) -> (r: Result<MusrRootFile, ParsingError>)
        ensures
            match r {
                Ok(file) => musr_root_file_of(bytes@, encoding) == Ok::<MusrRootFileView, ParsingError>(file@),
                Err(e) => musr_root_file_of(bytes@, encoding) == Err::<MusrRootFileView, ParsingError>(e),
            },
    {
        let histos_end: usize = match encoding {
            Encoding::FixedStride => {
                if bytes.len() >= FIXED_SECTIONS_WIDTH {
                    let count: usize = (bytes.len() - FIXED_SECTIONS_WIDTH) / (2 * DETECTOR_WIDTH);
                    assert(56 * count <= bytes.len()) by (nonlinear_arith)
                        requires
                            count == (bytes.len() - 328) / 112,
                            bytes.len() >= 328,
                    ;
                    DETECTOR_WIDTH * count + SC_WIDTH
                } else if bytes.len() >= SC_WIDTH {
                    SC_WIDTH
                } else {
                    bytes.len()
                }
            },
            Encoding::Streaming => bytes.len(),
        };
        let region = &bytes[0..histos_end];
        assert(region@ =~= histos_region(bytes@, encoding));
        let (histos, p) = Histos::parse(region, 0, encoding)?;
        let (run_header, _) = RunHeader::parse(bytes, p, encoding)?;
        Ok(MusrRootFile { histos, run_header })
    }
}

/// Decoding an empty buffer fails in either encoding: it never yields a
/// file of zero values.
pub proof fn empty_buffer_never_decodes(enc: Encoding)
    ensures
        musr_root_file_of(Seq::empty(), enc) is Err,
{
    let b = Seq::<u8>::empty();
    reveal(terminated_text_field);
    assert(detectors_streaming(b, 0) == (Seq::<DetectorView>::empty(), 0int));
}

/// In the fixed-stride encoding, a buffer shorter than a run info fails to
/// decode for want of bytes.
pub proof fn short_buffer_is_insufficient(b: Seq<u8>)
    requires
        b.len() < RUN_INFO_WIDTH,
    ensures
        musr_root_file_of(b, Encoding::FixedStride) matches Err(ParsingError::InsufficientBuffer { .. }),
{
}

/// In the streaming encoding, decoding a whole buffer fails: if nothing
/// fails before it, the sample environment does.
pub proof fn streaming_buffer_never_decodes(b: Seq<u8>)
    ensures
        musr_root_file_of(b, Encoding::Streaming) is Err,
{
}

} // verus!
