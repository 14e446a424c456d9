use musr_root::cursor::{read_f64_bits, read_fixed_string, read_i64, read_terminated_string};
use musr_root::detector::Detector;
use musr_root::error::{Encoding, ParsingError};
use musr_root::histos::{DecayAnaModule, Histos, Reading, SCAnaModule};
use musr_root::musr_root_file::MusrRootFile;
use musr_root::run_header::{
    BeamlineInfo, DetectorInfo, MagneticFieldEnvironmentInfo, RunHeader, RunInfo,
    SampleEnvironmentInfo,
};

fn slot(text: &str) -> Vec<u8> {
    let mut v = text.as_bytes().to_vec();
    assert!(v.len() <= 16);
    v.resize(16, 0);
    v
}

fn terminated(text: &str) -> Vec<u8> {
    let mut v = text.as_bytes().to_vec();
    v.push(0);
    v
}

fn le_int(v: i64) -> Vec<u8> {
    v.to_le_bytes().to_vec()
}

fn detector_fixed(name: &str, number: i64, t0: f64) -> Vec<u8> {
    let mut v = slot(name);
    v.extend(le_int(number));
    v.extend(le_int(66_000));
    v.extend(t0.to_bits().to_le_bytes());
    v.extend(le_int(10));
    v.extend(le_int(65_000));
    v
}

fn detector_streaming(name: &str, number: i64, t0: f64) -> Vec<u8> {
    let mut v = terminated(name);
    v.extend(le_int(number));
    v.extend(le_int(66_000));
    v.extend(t0.to_bits().to_le_bytes());
    v.extend(le_int(10));
    v.extend(le_int(65_000));
    v
}

const RUN_INFO_TEXT: [&str; 15] = [
    "v5092",
    "http://a.ch/x",
    "http://a.ch/y",
    "nemu_analyzer",
    "gps_4295.root",
    "LCO T=170K",
    "2011-10-05T01:30",
    "2011-10-05T02:02",
    "PSI",
    "GPS",
    "positive muon",
    "Target M",
    "standard",
    "no comment",
    "LCO",
];

fn run_info_fixed() -> Vec<u8> {
    let t = RUN_INFO_TEXT;
    let mut v = Vec::new();
    for s in &t[0..6] {
        v.extend(slot(s));
    }
    v.extend(le_int(2856));
    for s in &t[6..10] {
        v.extend(slot(s));
    }
    v.extend([0xAA; 8]);
    for s in &t[10..15] {
        v.extend(slot(s));
    }
    v.extend(le_int(8));
    v
}

fn run_info_streaming() -> Vec<u8> {
    let t = RUN_INFO_TEXT;
    let mut v = Vec::new();
    for s in &t[0..6] {
        v.extend(terminated(s));
    }
    v.extend(le_int(2856));
    for s in &t[6..15] {
        v.extend(terminated(s));
    }
    v.extend(le_int(8));
    v
}

fn check_run_info(info: &RunInfo) {
    assert_eq!(info.version, "v5092");
    assert_eq!(info.generic_validator_url, "http://a.ch/x");
    assert_eq!(info.specific_validator_url, "http://a.ch/y");
    assert_eq!(info.generator, "nemu_analyzer");
    assert_eq!(info.file_name, "gps_4295.root");
    assert_eq!(info.run_title, "LCO T=170K");
    assert_eq!(info.run_number, 2856);
    assert_eq!(info.run_start_time, "2011-10-05T01:30");
    assert_eq!(info.run_stop_time, "2011-10-05T02:02");
    assert_eq!(info.laboratory, "PSI");
    assert_eq!(info.instrument, "GPS");
    assert_eq!(info.muon_species, "positive muon");
    assert_eq!(info.muon_source, "Target M");
    assert_eq!(info.setup, "standard");
    assert_eq!(info.comment, "no comment");
    assert_eq!(info.sample_name, "LCO");
    assert_eq!(info.no_of_histos, 8);
}

#[test]
fn fixed_slot_drops_trailing_zeros() {
    let bytes = b"GPS\0\0\0\0\0\0\0\0\0\0\0\0\0".to_vec();
    assert_eq!(read_fixed_string(&bytes, 0, 16), Ok(("GPS".to_string(), 16)));
}

#[test]
fn fixed_slot_keeps_inner_zeros_and_replaces_malformed_bytes() {
    let mut bytes = vec![b'a', 0, b'b', 0xFF, b'c'];
    bytes.resize(16, 0);
    let (text, next) = read_fixed_string(&bytes, 0, 16).unwrap();
    assert_eq!(text, "a\0b\u{FFFD}c");
    assert_eq!(next, 16);
}

#[test]
fn fixed_slot_needs_its_width() {
    let bytes = vec![b'x'; 20];
    assert_eq!(
        read_fixed_string(&bytes, 5, 16),
        Err(ParsingError::InsufficientBuffer { offset: 5, needed: 16 })
    );
}

#[test]
fn terminated_text_moves_past_terminator() {
    let bytes = b"GPS\0rest".to_vec();
    assert_eq!(read_terminated_string(&bytes, 0), Ok(("GPS".to_string(), 4)));
}

#[test]
fn terminated_text_without_zero_is_missing_terminator() {
    let bytes = b"xxGPS".to_vec();
    assert_eq!(
        read_terminated_string(&bytes, 2),
        Err(ParsingError::MissingTerminator { offset: 2 })
    );
}

#[test]
fn terminated_text_must_be_valid_utf8() {
    let bytes = vec![b'a', 0xC3, 0x28, 0];
    assert_eq!(
        read_terminated_string(&bytes, 0),
        Err(ParsingError::InvalidText { offset: 0 })
    );
}

#[test]
fn terminated_text_decodes_multibyte_utf8() {
    let bytes = terminated("µSR");
    assert_eq!(read_terminated_string(&bytes, 0), Ok(("µSR".to_string(), 5)));
}

#[test]
fn integers_are_little_endian_twos_complement() {
    let mut bytes = vec![9u8];
    bytes.extend(le_int(-2));
    bytes.extend(le_int(0x0102_0304_0506_0708));
    assert_eq!(read_i64(&bytes, 1), Ok((-2, 9)));
    assert_eq!(read_i64(&bytes, 9), Ok((0x0102_0304_0506_0708, 17)));
}

#[test]
fn integer_needs_eight_bytes() {
    let bytes = vec![0u8; 7];
    assert_eq!(
        read_i64(&bytes, 0),
        Err(ParsingError::InsufficientBuffer { offset: 0, needed: 8 })
    );
    assert_eq!(
        read_f64_bits(&bytes, 3),
        Err(ParsingError::InsufficientBuffer { offset: 3, needed: 8 })
    );
}

#[test]
fn double_is_read_as_its_bits() {
    let bytes = 1.5f64.to_bits().to_le_bytes().to_vec();
    let (bits, next) = read_f64_bits(&bytes, 0).unwrap();
    assert_eq!(f64::from_bits(bits), 1.5);
    assert_eq!(next, 8);
}

#[test]
fn fixed_detector_fields() {
    let mut bytes = vec![0xEE; 3];
    bytes.extend(detector_fixed("Left-NPP", 11, 2900.5));
    let (d, next) = Detector::parse(&bytes, 3, Encoding::FixedStride).unwrap();
    assert_eq!(next, 59);
    assert_eq!(d.name, "Left-NPP");
    assert_eq!(d.histo_number, 11);
    assert_eq!(d.histo_length, 66_000);
    assert_eq!(f64::from_bits(d.time_zero_bin), 2900.5);
    assert_eq!(d.first_good_bin, 10);
    assert_eq!(d.last_good_bin, 65_000);
}

#[test]
fn streaming_detector_fields() {
    let bytes = detector_streaming("Right", 2, 0.25);
    let (d, next) = Detector::parse(&bytes, 0, Encoding::Streaming).unwrap();
    assert_eq!(next, 46);
    assert_eq!(d.name, "Right");
    assert_eq!(d.histo_number, 2);
    assert_eq!(f64::from_bits(d.time_zero_bin), 0.25);
}

#[test]
fn streaming_detector_needs_its_counts() {
    let mut bytes = terminated("Right");
    bytes.extend([0u8; 39]);
    assert_eq!(
        Detector::parse(&bytes, 0, Encoding::Streaming),
        Err(ParsingError::InsufficientBuffer { offset: 6, needed: 40 })
    );
}

#[test]
fn fixed_array_ignores_trailing_remainder() {
    let mut bytes = detector_fixed("Left", 1, 1.0);
    bytes.extend(detector_fixed("Top", 2, 2.0));
    bytes.extend([7u8; 10]);
    assert_eq!(bytes.len(), 2 * 56 + 10);
    let (info, next) = DetectorInfo::parse(&bytes, 0, Encoding::FixedStride);
    assert_eq!(info.detectors.len(), 2);
    assert_eq!(info.detectors[0].name, "Left");
    assert_eq!(info.detectors[1].name, "Top");
    assert_eq!(next, 112);
}

#[test]
fn fixed_array_shorter_than_one_element_is_empty() {
    let bytes = vec![1u8; 55];
    let (module, next) = DecayAnaModule::parse(&bytes, 0, Encoding::FixedStride);
    assert!(module.h_decay.is_empty());
    assert_eq!(next, 0);
}

#[test]
fn streaming_array_stops_at_first_failed_element() {
    let mut bytes = detector_streaming("A", 1, 1.0);
    bytes.extend(detector_streaming("B", 2, 2.0));
    let end = bytes.len();
    bytes.extend(terminated("C"));
    bytes.extend([0u8; 12]);
    let (module, next) = DecayAnaModule::parse(&bytes, 0, Encoding::Streaming);
    assert_eq!(module.h_decay.len(), 2);
    assert_eq!(module.h_decay[1].name, "B");
    assert_eq!(next, end);
}

#[test]
fn streaming_array_runs_to_end_of_buffer() {
    let mut bytes = detector_streaming("A", 1, 1.0);
    bytes.extend(detector_streaming("B", 2, 2.0));
    bytes.extend(detector_streaming("C", 3, 3.0));
    let (info, next) = DetectorInfo::parse(&bytes, 0, Encoding::Streaming);
    assert_eq!(info.detectors.len(), 3);
    assert_eq!(next, bytes.len());
}

#[test]
fn run_info_fixed_layout() {
    let bytes = run_info_fixed();
    assert_eq!(bytes.len(), 264);
    let (info, next) = RunInfo::parse(&bytes, 0, Encoding::FixedStride).unwrap();
    check_run_info(&info);
    assert_eq!(next, 264);
}

#[test]
fn run_info_streaming_layout() {
    let bytes = run_info_streaming();
    let (info, next) = RunInfo::parse(&bytes, 0, Encoding::Streaming).unwrap();
    check_run_info(&info);
    assert_eq!(next, bytes.len());
}

#[test]
fn run_info_fixed_needs_its_width() {
    let bytes = vec![0u8; 263];
    assert_eq!(
        RunInfo::parse(&bytes, 0, Encoding::FixedStride),
        Err(ParsingError::InsufficientBuffer { offset: 0, needed: 264 })
    );
}

#[test]
fn run_info_streaming_reports_first_failure() {
    let mut bytes = run_info_streaming();
    bytes.truncate(bytes.len() - 3);
    let start = bytes.len() - 5;
    assert_eq!(
        RunInfo::parse(&bytes, 0, Encoding::Streaming),
        Err(ParsingError::InsufficientBuffer { offset: start, needed: 8 })
    );
}

#[test]
fn slot_sections_fixed() {
    let mut bytes = slot("Konti-2");
    bytes.extend(slot("WEW"));
    bytes.extend(slot("piM3.2"));
    let (s, p) = SampleEnvironmentInfo::parse(&bytes, 0, Encoding::FixedStride).unwrap();
    let (m, p) = MagneticFieldEnvironmentInfo::parse(&bytes, p, Encoding::FixedStride).unwrap();
    let (b, p) = BeamlineInfo::parse(&bytes, p, Encoding::FixedStride).unwrap();
    assert_eq!(s.cryo, "Konti-2");
    assert_eq!(m.magnet_name, "WEW");
    assert_eq!(b.name, "piM3.2");
    assert_eq!(p, 48);
}

#[test]
fn slot_sections_have_no_streaming_layout() {
    let bytes = terminated("Konti-2");
    assert_eq!(
        SampleEnvironmentInfo::parse(&bytes, 0, Encoding::Streaming),
        Err(ParsingError::UnspecifiedSchema { offset: 0 })
    );
    assert_eq!(
        MagneticFieldEnvironmentInfo::parse(&bytes, 3, Encoding::Streaming),
        Err(ParsingError::UnspecifiedSchema { offset: 3 })
    );
    assert_eq!(
        BeamlineInfo::parse(&bytes, 1, Encoding::Streaming),
        Err(ParsingError::UnspecifiedSchema { offset: 1 })
    );
}

#[test]
fn slow_control_fixed_is_raw() {
    let mut bytes = 170.02f64.to_bits().to_le_bytes().to_vec();
    bytes.extend(30.0f64.to_bits().to_le_bytes());
    let (sc, next) = SCAnaModule::parse(&bytes, 0, Encoding::FixedStride).unwrap();
    assert_eq!(sc.h_sample_temperature, Reading::Raw(170.02f64.to_bits()));
    assert_eq!(sc.h_sample_magnetic_field, Reading::Raw(30.0f64.to_bits()));
    assert_eq!(next, 16);
}

#[test]
fn slow_control_streaming_is_text() {
    let mut bytes = terminated("T=170.02(K)");
    bytes.extend(terminated("30(G)"));
    let (sc, next) = SCAnaModule::parse(&bytes, 0, Encoding::Streaming).unwrap();
    assert_eq!(sc.h_sample_temperature, Reading::Text("T=170.02(K)".to_string()));
    assert_eq!(sc.h_sample_magnetic_field, Reading::Text("30(G)".to_string()));
    assert_eq!(next, bytes.len());
}

#[test]
fn histos_streaming_decays_then_slow_control() {
    let mut bytes = detector_streaming("A", 1, 1.0);
    bytes.extend(terminated("T=5(K)"));
    bytes.extend(terminated("0(G)"));
    let (h, next) = Histos::parse(&bytes, 0, Encoding::Streaming).unwrap();
    assert_eq!(h.decay_ana_module.h_decay.len(), 1);
    assert_eq!(h.sc_ana_module.h_sample_temperature, Reading::Text("T=5(K)".to_string()));
    assert_eq!(next, bytes.len());
}

#[test]
fn run_header_fixed_fixture() {
    let mut bytes = run_info_fixed();
    for (i, name) in ["Left", "Top", "Right", "Bottom"].iter().enumerate() {
        bytes.extend(detector_fixed(name, i as i64 + 1, 2900.0));
    }
    bytes.extend(slot("Konti-2"));
    bytes.extend(slot("WEW"));
    bytes.extend(slot("piM3.2"));
    let (header, next) = RunHeader::parse(&bytes, 0, Encoding::FixedStride).unwrap();
    assert_eq!(header.run_info.instrument, "GPS");
    assert_eq!(header.detector_info.detectors.len(), 4);
    assert_eq!(header.detector_info.detectors[3].name, "Bottom");
    assert_eq!(header.sample_environment_info.cryo, "Konti-2");
    assert_eq!(header.magnetic_field_environment_info.magnet_name, "WEW");
    assert_eq!(header.beamline_info.name, "piM3.2");
    assert_eq!(next, bytes.len());
}

#[test]
fn run_header_streaming_stops_at_sample_environment() {
    let mut bytes = run_info_streaming();
    let detectors_start = bytes.len();
    bytes.extend(detector_streaming("Left", 1, 1.0));
    let end = bytes.len();
    assert_eq!(
        RunHeader::parse(&bytes, 0, Encoding::Streaming),
        Err(ParsingError::UnspecifiedSchema { offset: end })
    );
    assert!(end > detectors_start);
}

#[test]
fn empty_buffer_fails_in_both_encodings() {
    let bytes: Vec<u8> = Vec::new();
    assert_eq!(
        MusrRootFile::parse(&bytes, Encoding::FixedStride),
        Err(ParsingError::InsufficientBuffer { offset: 0, needed: 16 })
    );
    assert_eq!(
        MusrRootFile::parse(&bytes, Encoding::Streaming),
        Err(ParsingError::MissingTerminator { offset: 0 })
    );
}

#[test]
fn short_fixed_buffer_is_insufficient() {
    for len in [0usize, 15, 16, 55, 56, 100, 263] {
        let bytes = vec![0u8; len];
        let r = MusrRootFile::parse(&bytes, Encoding::FixedStride);
        assert!(matches!(r, Err(ParsingError::InsufficientBuffer { .. })), "{len}");
    }
}

fn fixed_fixture() -> Vec<u8> {
    let names = ["Left", "Top", "Right", "Bottom"];
    let mut bytes = Vec::new();
    for (i, name) in names.iter().enumerate() {
        bytes.extend(detector_fixed(name, i as i64 + 1, 2900.0 + i as f64));
    }
    bytes.extend(170.02f64.to_bits().to_le_bytes());
    bytes.extend(30.0f64.to_bits().to_le_bytes());
    bytes.extend(run_info_fixed());
    for (i, name) in names.iter().enumerate() {
        bytes.extend(detector_fixed(name, i as i64 + 1, 2900.0 + i as f64));
    }
    bytes.extend(slot("Konti-2"));
    bytes.extend(slot("WEW"));
    bytes.extend(slot("piM3.2"));
    bytes
}

#[test]
fn fixed_file_fixture_decodes() {
    let bytes = fixed_fixture();
    assert_eq!(bytes.len(), 8 * 56 + 16 + 264 + 48);
    let file = MusrRootFile::parse(&bytes, Encoding::FixedStride).unwrap();
    let decays = &file.histos.decay_ana_module.h_decay;
    assert_eq!(decays.len(), 4);
    assert_eq!(decays[0].name, "Left");
    assert_eq!(decays[3].name, "Bottom");
    assert_eq!(decays[2].histo_number, 3);
    assert_eq!(f64::from_bits(decays[1].time_zero_bin), 2901.0);
    let sc = &file.histos.sc_ana_module;
    assert_eq!(sc.h_sample_temperature, Reading::Raw(170.02f64.to_bits()));
    assert_eq!(sc.h_sample_magnetic_field, Reading::Raw(30.0f64.to_bits()));
    check_run_info(&file.run_header.run_info);
    assert_eq!(file.run_header.run_info.instrument, "GPS");
    let detectors = &file.run_header.detector_info.detectors;
    assert_eq!(detectors.len(), 4);
    assert_eq!(detectors[1].name, "Top");
    assert_eq!(detectors[3].last_good_bin, 65_000);
    assert_eq!(file.run_header.sample_environment_info.cryo, "Konti-2");
    assert_eq!(file.run_header.magnetic_field_environment_info.magnet_name, "WEW");
    assert_eq!(file.run_header.beamline_info.name, "piM3.2");
}

#[test]
fn fixed_file_without_histograms_decodes() {
    let mut bytes = 1.0f64.to_bits().to_le_bytes().to_vec();
    bytes.extend(2.0f64.to_bits().to_le_bytes());
    bytes.extend(run_info_fixed());
    bytes.extend(slot("Konti-2"));
    bytes.extend(slot("ZF"));
    bytes.extend(slot("piM3.2"));
    let file = MusrRootFile::parse(&bytes, Encoding::FixedStride).unwrap();
    assert!(file.histos.decay_ana_module.h_decay.is_empty());
    assert!(file.run_header.detector_info.detectors.is_empty());
    assert_eq!(file.run_header.magnetic_field_environment_info.magnet_name, "ZF");
}

#[test]
fn fixed_file_with_stray_bytes_is_insufficient() {
    let mut bytes = fixed_fixture();
    bytes.extend([0u8; 10]);
    let end = bytes.len();
    assert_eq!(
        MusrRootFile::parse(&bytes, Encoding::FixedStride),
        Err(ParsingError::InsufficientBuffer { offset: end - 2, needed: 16 })
    );
}

#[test]
fn fixed_file_odd_descriptor_joins_detector_table() {
    let mut bytes = fixed_fixture();
    let tail = bytes.split_off(bytes.len() - 48);
    bytes.extend(detector_fixed("Extra", 9, 1.0));
    bytes.extend(tail);
    let file = MusrRootFile::parse(&bytes, Encoding::FixedStride).unwrap();
    assert_eq!(file.histos.decay_ana_module.h_decay.len(), 4);
    assert_eq!(file.run_header.detector_info.detectors.len(), 5);
    assert_eq!(file.run_header.detector_info.detectors[4].name, "Extra");
}

#[test]
fn streaming_file_fails_at_unknown_sections() {
    let mut bytes = detector_streaming("A", 1, 1.0);
    bytes.extend(terminated("T=5(K)"));
    bytes.extend(terminated("0(G)"));
    bytes.extend(run_info_streaming());
    bytes.extend(detector_streaming("Left", 1, 1.0));
    assert!(MusrRootFile::parse(&bytes, Encoding::Streaming).is_err());
}

#[test]
fn full_slot_keeps_all_sixteen_bytes() {
    let bytes = b"ABCDEFGHIJKLMNOP".to_vec();
    assert_eq!(
        read_fixed_string(&bytes, 0, 16),
        Ok(("ABCDEFGHIJKLMNOP".to_string(), 16))
    );
}

#[test]
fn all_zero_slot_is_empty_text() {
    let bytes = vec![0u8; 16];
    assert_eq!(read_fixed_string(&bytes, 0, 16), Ok((String::new(), 16)));
}

#[test]
fn offsets_past_the_end_fail() {
    let bytes = vec![0u8; 4];
    assert_eq!(
        read_i64(&bytes, 100),
        Err(ParsingError::InsufficientBuffer { offset: 100, needed: 8 })
    );
    assert_eq!(
        read_terminated_string(&bytes, 100),
        Err(ParsingError::MissingTerminator { offset: 100 })
    );
    let (info, next) = DetectorInfo::parse(&bytes, 100, Encoding::FixedStride);
    assert!(info.detectors.is_empty());
    assert_eq!(next, 100);
}

#[test]
fn empty_terminated_text() {
    let bytes = vec![0u8, b'x'];
    assert_eq!(read_terminated_string(&bytes, 0), Ok((String::new(), 1)));
}
