//! The histogram section: the decay module, which describes the decay
//! histograms, and the slow-control module, which holds two environmental
//! readings.
use vstd::prelude::*;

use crate::cursor::{read_terminated_string, terminated_text_field, word_at, word_in_bounds, WORD_WIDTH};
use crate::detector::{detector_array, detector_views, parse_detectors, DetectorView, HDecay};
use crate::error::{decoded, Encoding, ParsingError};

verus! {

/// Width in bytes of the slow-control module in the fixed-stride encoding.
pub const SC_WIDTH: usize = 16;

/// The descriptors of the decay histograms.
#[derive(Debug, PartialEq, Eq)]
pub struct DecayAnaModule {
    pub h_decay: Vec<HDecay>,
}

impl View for DecayAnaModule {
    type V = Seq<DetectorView>;

    open spec fn view(&self) -> Seq<DetectorView> {
        detector_views(self.h_decay@)
    }
}

impl DecayAnaModule {
    /// Decodes the decay module at `pos`, which never fails: in the
    /// fixed-stride encoding it holds as many descriptors as fit in the rest
    /// of the buffer, in the streaming encoding those before the end of the
    /// buffer or the first descriptor that fails to decode.
    pub fn parse(bytes: &[u8], pos: usize, encoding: Encoding) -> (r: (DecayAnaModule, usize))
        ensures
            (r.0@, r.1 as int) == detector_array(bytes@, pos as int, encoding),
    {
        let (h_decay, next) = parse_detectors(bytes, pos, encoding);
        (DecayAnaModule { h_decay }, next)
    }
}

/// An environmental reading as the encoding stores it.
#[derive(Debug, PartialEq, Eq)]
pub enum Reading {
    /// The bit pattern of an IEEE-754 double (fixed-stride encoding).
    Raw(u64),
    /// A description in words (streaming encoding).
    Text(String),
}

/// What a reading holds, with text as characters.
pub enum ReadingView {
    Raw(u64),
    Text(Seq<char>),
}

impl View for Reading {
    type V = ReadingView;

    open spec fn view(&self) -> ReadingView {
        match self {
            Reading::Raw(bits) => ReadingView::Raw(*bits),
            Reading::Text(s) => ReadingView::Text(s@),
        }
    }
}

/// What a slow-control module holds.
pub struct SCAnaModuleView {
    pub temperature: ReadingView,
    pub magnetic_field: ReadingView,
}

/// The slow-control readings of the sample.
#[derive(Debug, PartialEq, Eq)]
pub struct SCAnaModule {
    pub h_sample_temperature: Reading,
    pub h_sample_magnetic_field: Reading,
}

impl View for SCAnaModule {
    type V = SCAnaModuleView;

    open spec fn view(&self) -> SCAnaModuleView {
        SCAnaModuleView {
            temperature: self.h_sample_temperature@,
            magnetic_field: self.h_sample_magnetic_field@,
        }
    }
}

/// Decoding a slow-control module at `pos`: two raw doubles in the
/// fixed-stride encoding, two terminated texts in the streaming encoding.
pub open spec fn sc_ana_module_at(b: Seq<u8>, pos: int, enc: Encoding) -> Result<(SCAnaModuleView, int), ParsingError> {
    match enc {
        Encoding::FixedStride => if pos + 16 <= b.len() {
            Ok((SCAnaModuleView {
                temperature: ReadingView::Raw(word_at(b, pos)),
                magnetic_field: ReadingView::Raw(word_at(b, pos + 8)),
            }, pos + 16))
        } else {
            Err(ParsingError::InsufficientBuffer { offset: pos as usize, needed: 16 })
        },
        Encoding::Streaming =>
            match terminated_text_field(b, pos) { Err(e) => Err(e), Ok((temperature, p)) =>
            match terminated_text_field(b, p) { Err(e) => Err(e), Ok((magnetic_field, p)) =>
                Ok((SCAnaModuleView {
                    temperature: ReadingView::Text(temperature),
                    magnetic_field: ReadingView::Text(magnetic_field),
                }, p))
            }},
    }
}

impl SCAnaModule {
    /// Decodes the slow-control module at `pos`.
    pub fn parse(bytes: &[u8], pos: usize, encoding: Encoding) -> (r: Result<(SCAnaModule, usize), ParsingError>)
        ensures
            decoded(r) == sc_ana_module_at(bytes@, pos as int, encoding),
            encoding == Encoding::FixedStride ==> (r is Ok <==> pos + SC_WIDTH <= bytes@.len()),
    {
        match encoding {
            Encoding::FixedStride => {
                if pos > bytes.len() || bytes.len() - pos < SC_WIDTH {
                    return Err(ParsingError::InsufficientBuffer { offset: pos, needed: SC_WIDTH });
                }
                let module = SCAnaModule {
                    h_sample_temperature: Reading::Raw(word_in_bounds(bytes, pos)),
                    h_sample_magnetic_field: Reading::Raw(word_in_bounds(bytes, pos + WORD_WIDTH)),
                };
                Ok((module, pos + SC_WIDTH))
            },
            Encoding::Streaming => {
                let (temperature, p) = read_terminated_string(bytes, pos)?;
                let (magnetic_field, p) = read_terminated_string(bytes, p)?;
                let module = SCAnaModule {
                    h_sample_temperature: Reading::Text(temperature),
                    h_sample_magnetic_field: Reading::Text(magnetic_field),
                };
                Ok((module, p))
            },
        }
    }
}

/// What a histogram section holds.
pub struct HistosView {
    pub decays: Seq<DetectorView>,
    pub slow_control: SCAnaModuleView,
}

/// The histogram section.
#[derive(Debug, PartialEq, Eq)]
pub struct Histos {
    pub decay_ana_module: DecayAnaModule,
    pub sc_ana_module: SCAnaModule,
}

impl View for Histos {
    type V = HistosView;

    open spec fn view(&self) -> HistosView {
        HistosView { decays: self.decay_ana_module@, slow_control: self.sc_ana_module@ }
    }
}

/// Decoding a histogram section at `pos`: the decay module, then the
/// slow-control module.
pub open spec fn histos_at(b: Seq<u8>, pos: int, enc: Encoding) -> Result<(HistosView, int), ParsingError> {
    match detector_array(b, pos, enc) { (decays, p) =>
    match sc_ana_module_at(b, p, enc) { Err(e) => Err(e), Ok((slow_control, p)) =>
        Ok((HistosView { decays, slow_control }, p))
    }}
}

impl Histos {
    /// Decodes the histogram section at `pos`.
    pub fn parse(bytes: &[u8], pos: usize, encoding: Encoding) -> (r: Result<(Histos, usize), ParsingError>)
        ensures
            decoded(r) == histos_at(bytes@, pos as int, encoding),
    {
        let (decay_ana_module, p) = DecayAnaModule::parse(bytes, pos, encoding);
        let (sc_ana_module, p) = SCAnaModule::parse(bytes, p, encoding)?;
        Ok((Histos { decay_ana_module, sc_ana_module }, p))
    }
}

} // verus!
