//! The run header: run metadata, the detector table, and the sample,
//! magnet and beamline descriptions.
use vstd::prelude::*;

use crate::cursor::{
    fixed_text, fixed_text_field, int_in_bounds, read_fixed_string, read_i64, read_terminated_string,
    int_field, terminated_text_field, text_in_slot, word_at, TEXT_WIDTH, WORD_WIDTH,
};
use crate::detector::{detector_array, detector_views, parse_detectors, Detector, DetectorView};
use crate::error::{decoded, Encoding, ParsingError};

verus! {

/// Width in bytes of the run info in the fixed-stride encoding.
pub const RUN_INFO_WIDTH: usize = 264;

/// Offset, inside a fixed-stride run info, of the slot of the muon beam
/// momentum. Its quantity type is not decoded; the slot is skipped.
pub const MOMENTUM_SLOT: usize = 168;

/// What a run info holds, with its text as characters.
pub struct RunInfoView {
    pub version: Seq<char>,
    pub generic_validator_url: Seq<char>,
    pub specific_validator_url: Seq<char>,
    pub generator: Seq<char>,
    pub file_name: Seq<char>,
    pub run_title: Seq<char>,
    pub run_number: i64,
    pub run_start_time: Seq<char>,
    pub run_stop_time: Seq<char>,
    pub laboratory: Seq<char>,
    pub instrument: Seq<char>,
    pub muon_species: Seq<char>,
    pub muon_source: Seq<char>,
    pub setup: Seq<char>,
    pub comment: Seq<char>,
    pub sample_name: Seq<char>,
    pub no_of_histos: i64,
}

/// Metadata of one run.
#[derive(Debug, PartialEq, Eq)]
pub struct RunInfo {
    /// Version of the writer of the run header.
    pub version: String,
    pub generic_validator_url: String,
    pub specific_validator_url: String,
    /// Program that wrote the file, e.g. nemu_analyzer.
    pub generator: String,
    /// Name of the file, e.g. deltat_tdc_gps_4295.root.
    pub file_name: String,
    pub run_title: String,
    pub run_number: i64,
    /// ISO 8601 date and time.
    pub run_start_time: String,
    /// ISO 8601 date and time.
    pub run_stop_time: String,
    /// Laboratory, e.g. PSI.
    pub laboratory: String,
    /// Instrument, e.g. GPS.
    pub instrument: String,
    /// Positive or negative muon.
    pub muon_species: String,
    /// Muon source, e.g. Target M.
    pub muon_source: String,
    pub setup: String,
    pub comment: String,
    pub sample_name: String,
    /// Number of histograms.
    pub no_of_histos: i64,
}

impl View for RunInfo {
    type V = RunInfoView;

    open spec fn view(&self) -> RunInfoView {
        RunInfoView {
            version: self.version@,
            generic_validator_url: self.generic_validator_url@,
            specific_validator_url: self.specific_validator_url@,
            generator: self.generator@,
            file_name: self.file_name@,
            run_title: self.run_title@,
            run_number: self.run_number,
            run_start_time: self.run_start_time@,
            run_stop_time: self.run_stop_time@,
            laboratory: self.laboratory@,
            instrument: self.instrument@,
            muon_species: self.muon_species@,
            muon_source: self.muon_source@,
            setup: self.setup@,
            comment: self.comment@,
            sample_name: self.sample_name@,
            no_of_histos: self.no_of_histos,
        }
    }
}

/// The fixed-stride run info at `pos`: text slots of sixteen bytes and
/// eight-byte integers, at the offsets below.
pub open spec fn run_info_fixed(b: Seq<u8>, pos: int) -> RunInfoView {
    RunInfoView {
        version: fixed_text(b, pos, 16),
        generic_validator_url: fixed_text(b, pos + 16, 16),
        specific_validator_url: fixed_text(b, pos + 32, 16),
        generator: fixed_text(b, pos + 48, 16),
        file_name: fixed_text(b, pos + 64, 16),
        run_title: fixed_text(b, pos + 80, 16),
        run_number: word_at(b, pos + 96) as i64,
        run_start_time: fixed_text(b, pos + 104, 16),
        run_stop_time: fixed_text(b, pos + 120, 16),
        laboratory: fixed_text(b, pos + 136, 16),
        instrument: fixed_text(b, pos + 152, 16),
        muon_species: fixed_text(b, pos + 176, 16),
        muon_source: fixed_text(b, pos + 192, 16),
        setup: fixed_text(b, pos + 208, 16),
        comment: fixed_text(b, pos + 224, 16),
        sample_name: fixed_text(b, pos + 240, 16),
        no_of_histos: word_at(b, pos + 256) as i64,
    }
}

/// The streaming run info at `pos`: the same fields in the same order, text
/// terminated by a zero byte, with no slot for the muon beam momentum.
pub open spec fn run_info_streaming(b: Seq<u8>, pos: int) -> Result<(RunInfoView, int), ParsingError> {
    match terminated_text_field(b, pos) { Err(e) => Err(e), Ok((version, p)) =>
    match terminated_text_field(b, p) { Err(e) => Err(e), Ok((generic_validator_url, p)) =>
    match terminated_text_field(b, p) { Err(e) => Err(e), Ok((specific_validator_url, p)) =>
    match terminated_text_field(b, p) { Err(e) => Err(e), Ok((generator, p)) =>
    match terminated_text_field(b, p) { Err(e) => Err(e), Ok((file_name, p)) =>
    match terminated_text_field(b, p) { Err(e) => Err(e), Ok((run_title, p)) =>
    match int_field(b, p) { Err(e) => Err(e), Ok((run_number, p)) =>
    match terminated_text_field(b, p) { Err(e) => Err(e), Ok((run_start_time, p)) =>
    match terminated_text_field(b, p) { Err(e) => Err(e), Ok((run_stop_time, p)) =>
    match terminated_text_field(b, p) { Err(e) => Err(e), Ok((laboratory, p)) =>
    match terminated_text_field(b, p) { Err(e) => Err(e), Ok((instrument, p)) =>
    match terminated_text_field(b, p) { Err(e) => Err(e), Ok((muon_species, p)) =>
    match terminated_text_field(b, p) { Err(e) => Err(e), Ok((muon_source, p)) =>
    match terminated_text_field(b, p) { Err(e) => Err(e), Ok((setup, p)) =>
    match terminated_text_field(b, p) { Err(e) => Err(e), Ok((comment, p)) =>
    match terminated_text_field(b, p) { Err(e) => Err(e), Ok((sample_name, p)) =>
    match int_field(b, p) { Err(e) => Err(e), Ok((no_of_histos, p)) =>
        Ok((RunInfoView {
            version,
            generic_validator_url,
            specific_validator_url,
            generator,
            file_name,
            run_title,
            run_number,
            run_start_time,
            run_stop_time,
            laboratory,
            instrument,
            muon_species,
            muon_source,
            setup,
            comment,
            sample_name,
            no_of_histos,
        }, p))
    }}}}}}}}}}}}}}}}}
}

/// Decoding a run info at `pos`.
pub open spec fn run_info_at(b: Seq<u8>, pos: int, enc: Encoding) -> Result<(RunInfoView, int), ParsingError> {
    match enc {
        Encoding::FixedStride => if pos + 264 <= b.len() {
            Ok((run_info_fixed(b, pos), pos + 264))
        } else {
            Err(ParsingError::InsufficientBuffer { offset: pos as usize, needed: 264 })
        },
        Encoding::Streaming => run_info_streaming(b, pos),
    }
}

impl RunInfo {
    /// Decodes the run info at `pos`.
    pub fn parse(bytes: &[u8], pos: usize, encoding: Encoding) -> (r: Result<(RunInfo, usize), ParsingError>)
        ensures
            decoded(r) == run_info_at(bytes@, pos as int, encoding),
            encoding == Encoding::FixedStride ==> (r is Ok <==> pos + RUN_INFO_WIDTH <= bytes@.len()),
    {
        match encoding {
            Encoding::FixedStride => {
                if pos > bytes.len() || bytes.len() - pos < RUN_INFO_WIDTH {
                    return Err(ParsingError::InsufficientBuffer { offset: pos, needed: RUN_INFO_WIDTH });
                }
                let info = RunInfo {
                    version: text_in_slot(bytes, pos, TEXT_WIDTH),
                    generic_validator_url: text_in_slot(bytes, pos + 16, TEXT_WIDTH),
                    specific_validator_url: text_in_slot(bytes, pos + 32, TEXT_WIDTH),
                    generator: text_in_slot(bytes, pos + 48, TEXT_WIDTH),
                    file_name: text_in_slot(bytes, pos + 64, TEXT_WIDTH),
                    run_title: text_in_slot(bytes, pos + 80, TEXT_WIDTH),
                    run_number: int_in_bounds(bytes, pos + 96),
                    run_start_time: text_in_slot(bytes, pos + 104, TEXT_WIDTH),
                    run_stop_time: text_in_slot(bytes, pos + 120, TEXT_WIDTH),
                    laboratory: text_in_slot(bytes, pos + 136, TEXT_WIDTH),
                    instrument: text_in_slot(bytes, pos + 152, TEXT_WIDTH),
                    muon_species: text_in_slot(bytes, pos + MOMENTUM_SLOT + WORD_WIDTH, TEXT_WIDTH),
                    muon_source: text_in_slot(bytes, pos + 192, TEXT_WIDTH),
                    setup: text_in_slot(bytes, pos + 208, TEXT_WIDTH),
                    comment: text_in_slot(bytes, pos + 224, TEXT_WIDTH),
                    sample_name: text_in_slot(bytes, pos + 240, TEXT_WIDTH),
                    no_of_histos: int_in_bounds(bytes, pos + 256),
                };
                Ok((info, pos + RUN_INFO_WIDTH))
            },
            Encoding::Streaming => {
                let (version, p) = read_terminated_string(bytes, pos)?;
                let (generic_validator_url, p) = read_terminated_string(bytes, p)?;
                let (specific_validator_url, p) = read_terminated_string(bytes, p)?;
                let (generator, p) = read_terminated_string(bytes, p)?;
                let (file_name, p) = read_terminated_string(bytes, p)?;
                let (run_title, p) = read_terminated_string(bytes, p)?;
                let (run_number, p) = read_i64(bytes, p)?;
                let (run_start_time, p) = read_terminated_string(bytes, p)?;
                let (run_stop_time, p) = read_terminated_string(bytes, p)?;
                let (laboratory, p) = read_terminated_string(bytes, p)?;
                let (instrument, p) = read_terminated_string(bytes, p)?;
                let (muon_species, p) = read_terminated_string(bytes, p)?;
                let (muon_source, p) = read_terminated_string(bytes, p)?;
                let (setup, p) = read_terminated_string(bytes, p)?;
                let (comment, p) = read_terminated_string(bytes, p)?;
                let (sample_name, p) = read_terminated_string(bytes, p)?;
                let (no_of_histos, p) = read_i64(bytes, p)?;
                let info = RunInfo {
                    version,
                    generic_validator_url,
                    specific_validator_url,
                    generator,
                    file_name,
                    run_title,
                    run_number,
                    run_start_time,
                    run_stop_time,
                    laboratory,
                    instrument,
                    muon_species,
                    muon_source,
                    setup,
                    comment,
                    sample_name,
                    no_of_histos,
                };
                Ok((info, p))
            },
        }
    }
}

/// The table of detectors of the instrument.
#[derive(Debug, PartialEq, Eq)]
pub struct DetectorInfo {
    pub detectors: Vec<Detector>,
}

impl View for DetectorInfo {
    type V = Seq<DetectorView>;

    open spec fn view(&self) -> Seq<DetectorView> {
        detector_views(self.detectors@)
    }
}

impl DetectorInfo {
    /// Decodes the detector table at `pos`, which never fails: in the
    /// fixed-stride encoding it holds as many detectors as fit in the rest of
    /// the buffer, in the streaming encoding those before the end of the
    /// buffer or the first detector that fails to decode.
    pub fn parse(bytes: &[u8], pos: usize, encoding: Encoding) -> (r: (DetectorInfo, usize))
        ensures
            (r.0@, r.1 as int) == detector_array(bytes@, pos as int, encoding),
    {
        let (detectors, next) = parse_detectors(bytes, pos, encoding);
        (DetectorInfo { detectors }, next)
    }
}

/// Decoding a section made of one text slot at `pos`: the streaming encoding
/// has no known layout for it.
pub open spec fn slot_section_at(b: Seq<u8>, pos: int, enc: Encoding) -> Result<(Seq<char>, int), ParsingError> {
    match enc {
        Encoding::FixedStride => fixed_text_field(b, pos, 16),
        Encoding::Streaming => Err(ParsingError::UnspecifiedSchema { offset: pos as usize }),
    }
}

/// Decodes a section made of one text slot at `pos`.
fn parse_slot_section(bytes: &[u8], pos: usize, encoding: Encoding) -> (r: Result<(String, usize), ParsingError>)
    ensures
        decoded(r) == slot_section_at(bytes@, pos as int, encoding),
{
    match encoding {
        Encoding::FixedStride => read_fixed_string(bytes, pos, TEXT_WIDTH),
        Encoding::Streaming => Err(ParsingError::UnspecifiedSchema { offset: pos }),
    }
}

/// The sample environment.
#[derive(Debug, PartialEq, Eq)]
pub struct SampleEnvironmentInfo {
    /// Name of the cryostat or oven, e.g. Konti-2.
    pub cryo: String,
}

impl View for SampleEnvironmentInfo {
    type V = Seq<char>;

    open spec fn view(&self) -> Seq<char> {
        self.cryo@
    }
}

impl SampleEnvironmentInfo {
    /// Decodes the sample environment at `pos`.
    pub fn parse(bytes: &[u8], pos: usize, encoding: Encoding) -> (r: Result<(SampleEnvironmentInfo, usize), ParsingError>)
        ensures
            decoded(r) == slot_section_at(bytes@, pos as int, encoding),
            encoding == Encoding::FixedStride ==> (r is Ok <==> pos + TEXT_WIDTH <= bytes@.len()),
            encoding == Encoding::Streaming ==> r is Err,
    {
        let (cryo, next) = parse_slot_section(bytes, pos, encoding)?;
        Ok((SampleEnvironmentInfo { cryo }, next))
    }
}

/// The magnetic field environment.
#[derive(Debug, PartialEq, Eq)]
pub struct MagneticFieldEnvironmentInfo {
    /// Name of the magnet, e.g. WEW; ZF for zero-field measurements.
    pub magnet_name: String,
}

impl View for MagneticFieldEnvironmentInfo {
    type V = Seq<char>;

    open spec fn view(&self) -> Seq<char> {
        self.magnet_name@
    }
}

impl MagneticFieldEnvironmentInfo {
    /// Decodes the magnetic field environment at `pos`.
    pub fn parse(bytes: &[u8], pos: usize, encoding: Encoding) -> (r: Result<(MagneticFieldEnvironmentInfo, usize), ParsingError>)
        ensures
            decoded(r) == slot_section_at(bytes@, pos as int, encoding),
            encoding == Encoding::FixedStride ==> (r is Ok <==> pos + TEXT_WIDTH <= bytes@.len()),
            encoding == Encoding::Streaming ==> r is Err,
    {
        let (magnet_name, next) = parse_slot_section(bytes, pos, encoding)?;
        Ok((MagneticFieldEnvironmentInfo { magnet_name }, next))
    }
}

/// The beamline.
#[derive(Debug, PartialEq, Eq)]
pub struct BeamlineInfo {
    /// Name of the beamline, e.g. piM3.2.
    pub name: String,
}

impl View for BeamlineInfo {
    type V = Seq<char>;

    open spec fn view(&self) -> Seq<char> {
        self.name@
    }
}

impl BeamlineInfo {
    /// Decodes the beamline at `pos`.
    pub fn parse(bytes: &[u8], pos: usize, encoding: Encoding) -> (r: Result<(BeamlineInfo, usize), ParsingError>)
        ensures
            decoded(r) == slot_section_at(bytes@, pos as int, encoding),
            encoding == Encoding::FixedStride ==> (r is Ok <==> pos + TEXT_WIDTH <= bytes@.len()),
            encoding == Encoding::Streaming ==> r is Err,
    {
        let (name, next) = parse_slot_section(bytes, pos, encoding)?;
        Ok((BeamlineInfo { name }, next))
    }
}

/// What a run header holds.
pub struct RunHeaderView {
    pub run_info: RunInfoView,
    pub detectors: Seq<DetectorView>,
    pub cryo: Seq<char>,
    pub magnet_name: Seq<char>,
    pub beamline: Seq<char>,
}

/// The metadata block of a run.
#[derive(Debug, PartialEq, Eq)]
pub struct RunHeader {
    pub run_info: RunInfo,
    pub detector_info: DetectorInfo,
    pub sample_environment_info: SampleEnvironmentInfo,
    pub magnetic_field_environment_info: MagneticFieldEnvironmentInfo,
    pub beamline_info: BeamlineInfo,
}

impl View for RunHeader {
    type V = RunHeaderView;

    open spec fn view(&self) -> RunHeaderView {
        RunHeaderView {
            run_info: self.run_info@,
            detectors: self.detector_info@,
            cryo: self.sample_environment_info@,
            magnet_name: self.magnetic_field_environment_info@,
            beamline: self.beamline_info@,
        }
    }
}

/// Decoding a run header at `pos`: run info, detector table, sample
/// environment, magnetic field environment and beamline, in that order.
pub open spec fn run_header_at(b: Seq<u8>, pos: int, enc: Encoding) -> Result<(RunHeaderView, int), ParsingError> {
    match run_info_at(b, pos, enc) { Err(e) => Err(e), Ok((run_info, p)) =>
    match detector_array(b, p, enc) { (detectors, p) =>
    match slot_section_at(b, p, enc) { Err(e) => Err(e), Ok((cryo, p)) =>
    match slot_section_at(b, p, enc) { Err(e) => Err(e), Ok((magnet_name, p)) =>
    match slot_section_at(b, p, enc) { Err(e) => Err(e), Ok((beamline, p)) =>
        Ok((RunHeaderView { run_info, detectors, cryo, magnet_name, beamline }, p))
    }}}}}
}

impl RunHeader {
    /// Decodes the run header at `pos`, stopping at the first section that
    /// fails.
    pub fn parse(bytes: &[u8], pos: usize, encoding: Encoding) -> (r: Result<(RunHeader, usize), ParsingError>)
        ensures
            decoded(r) == run_header_at(bytes@, pos as int, encoding),
    {
        let (run_info, p) = RunInfo::parse(bytes, pos, encoding)?;
        let (detector_info, p) = DetectorInfo::parse(bytes, p, encoding);
        let (sample_environment_info, p) = SampleEnvironmentInfo::parse(bytes, p, encoding)?;
        let (magnetic_field_environment_info, p) = MagneticFieldEnvironmentInfo::parse(bytes, p, encoding)?;
        let (beamline_info, p) = BeamlineInfo::parse(bytes, p, encoding)?;
        let header = RunHeader {
            run_info,
            detector_info,
            sample_environment_info,
            magnetic_field_environment_info,
            beamline_info,
        };
        Ok((header, p))
    }
}

} // verus!
