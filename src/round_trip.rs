//! Encoders, as specifications only, for the records that each encoding can
//! represent, and proofs that decoding what they produce gives the record
//! back. The library itself never writes a file.
use vstd::bytes::*;
use vstd::prelude::*;
use vstd::utf8::*;

use crate::cursor::{first_zero, fixed_text, terminated_text_field, word_at, zero_trimmed};
use crate::detector::{
    detector_array, detector_at, detector_fixed, detectors_fixed, fixed_count, DetectorView,
};
use crate::histos::{sc_ana_module_at, HistosView, ReadingView, SCAnaModuleView};
use crate::histos::histos_at;
use crate::musr_root_file::{histos_region, musr_root_file_of, MusrRootFileView};
use crate::error::{Encoding, ParsingError};
use crate::run_header::{run_header_at, run_info_at, slot_section_at, RunHeaderView, RunInfoView};

verus! {

/// The eight little-endian bytes of a word.
pub open spec fn word_bytes(w: u64) -> Seq<u8> {
    spec_u64_to_le_bytes(w)
}

/// The eight bytes of a signed integer, in two's complement.
pub open spec fn int_bytes(v: i64) -> Seq<u8> {
    spec_u64_to_le_bytes(v as u64)
}

/// `n` zero bytes.
pub open spec fn zeros(n: nat) -> Seq<u8> {
    Seq::new(n, |i: int| 0u8)
}

/// Text that a fixed-stride slot can hold: its UTF-8 encoding fits in the
/// slot and does not end with U+0000, which decoding would drop.
pub open spec fn fits_slot(s: Seq<char>) -> bool {
    &&& encode_utf8(s).len() <= 16
    &&& (s.len() == 0 || s.last() != '\0')
}

/// A slot of sixteen bytes holding `s`, padded with zero bytes.
pub open spec fn slot_bytes(s: Seq<char>) -> Seq<u8> {
    encode_utf8(s) + zeros((16 - encode_utf8(s).len()) as nat)
}

/// Text that the streaming encoding can hold: no U+0000, which would end it.
pub open spec fn terminable(s: Seq<char>) -> bool {
    forall|i: int| 0 <= i < s.len() ==> s[i] != '\0'
}

/// `s` in UTF-8 followed by a zero byte.
pub open spec fn terminated_bytes(s: Seq<char>) -> Seq<u8> {
    encode_utf8(s) + seq![0u8]
}

/// No byte of the UTF-8 encoding of a character other than U+0000 is zero.
proof fn lemma_scalar_bytes_nonzero(c: u32)
    requires
        is_scalar(c),
        c != 0,
    ensures
        forall|i: int| 0 <= i < encode_scalar(c).len() ==> encode_scalar(c)[i] != 0,
        encode_scalar(c).len() > 0,
{
    if has_width_1_encoding(c) {
        assert(leading_byte_width_1(c) != 0) by (bit_vector)
            requires
                0 < c <= 0x7F,
        ;
    } else {
        assert(0xC0 | ((c >> 6) & 0x1F) as u8 != 0) by (bit_vector);
        assert(0xE0 | ((c >> 12) & 0x0F) as u8 != 0) by (bit_vector);
        assert(0xF0 | ((c >> 18) & 0x7) as u8 != 0) by (bit_vector);
        assert(0x80 | (c & 0x3F) as u8 != 0) by (bit_vector);
        assert(0x80 | ((c >> 6) & 0x3F) as u8 != 0) by (bit_vector);
        assert(0x80 | ((c >> 12) & 0x3F) as u8 != 0) by (bit_vector);
    }
}

/// A character other than U+0000 is a nonzero scalar.
proof fn lemma_char_nonzero(c: char)
    requires
        c != '\0',
    ensures
        is_scalar(c as u32),
        c as u32 != 0,
{
    char_is_scalar(c);
    if c as u32 == 0 {
        char_u32_cast(c, 0);
        char_u32_cast('\0', 0);
    }
}

/// Text without U+0000 encodes to bytes without zero.
proof fn lemma_encode_nonzero(s: Seq<char>)
    requires
        terminable(s),
    ensures
        forall|i: int| 0 <= i < encode_utf8(s).len() ==> encode_utf8(s)[i] != 0,
    decreases s.len(),
{
    if s.len() > 0 {
        lemma_char_nonzero(s[0]);
        lemma_scalar_bytes_nonzero(s[0] as u32);
        let rest = s.drop_first();
        assert(terminable(rest)) by {
            assert forall|i: int| 0 <= i < rest.len() implies rest[i] != '\0' by {
                assert(rest[i] == s[i + 1]);
            }
        }
        lemma_encode_nonzero(rest);
        let head = encode_scalar(s[0] as u32);
        let tail = encode_utf8(rest);
        assert forall|i: int| 0 <= i < encode_utf8(s).len() implies encode_utf8(s)[i] != 0 by {
            if i < head.len() {
                assert((head + tail)[i] == head[i]);
            } else {
                assert((head + tail)[i] == tail[i - head.len()]);
            }
        }
    }
}

/// Text whose last character is not U+0000 encodes to bytes whose last byte
/// is not zero.
proof fn lemma_encode_last_nonzero(s: Seq<char>)
    requires
        s.len() > 0,
        s.last() != '\0',
    ensures
        encode_utf8(s).len() > 0,
        encode_utf8(s).last() != 0,
    decreases s.len(),
{
    if s.len() == 1 {
        lemma_char_nonzero(s[0]);
        lemma_scalar_bytes_nonzero(s[0] as u32);
        assert(encode_utf8(s.drop_first()) =~= Seq::<u8>::empty());
    } else {
        let rest = s.drop_first();
        assert(rest.last() == s.last());
        lemma_encode_last_nonzero(rest);
    }
}

/// Zero padding after bytes that do not end in zero is trimmed away exactly.
proof fn lemma_trim_padding(t: Seq<u8>, n: nat)
    requires
        t.len() == 0 || t.last() != 0,
    ensures
        zero_trimmed(t + zeros(n)) == t,
    decreases n,
{
    if n == 0 {
        assert(t + zeros(0) =~= t);
    } else {
        assert((t + zeros(n)).drop_last() =~= t + zeros((n - 1) as nat));
        lemma_trim_padding(t, (n - 1) as nat);
    }
}

/// A word decodes from its eight bytes.
pub proof fn lemma_word_round_trip(b: Seq<u8>, pos: int, w: u64)
    requires
        0 <= pos,
        pos + 8 <= b.len(),
        b.subrange(pos, pos + 8) == word_bytes(w),
    ensures
        word_at(b, pos) == w,
{
    lemma_auto_spec_u64_to_from_le_bytes();
}

/// A signed integer decodes from its eight bytes.
pub proof fn lemma_int_round_trip(b: Seq<u8>, pos: int, v: i64)
    requires
        0 <= pos,
        pos + 8 <= b.len(),
        b.subrange(pos, pos + 8) == int_bytes(v),
    ensures
        word_at(b, pos) as i64 == v,
{
    lemma_auto_spec_u64_to_from_le_bytes();
    assert((v as u64) as i64 == v) by (bit_vector);
}

/// Text that fits a slot decodes from the slot.
pub proof fn lemma_slot_round_trip(b: Seq<u8>, pos: int, s: Seq<char>)
    requires
        0 <= pos,
        pos + 16 <= b.len(),
        fits_slot(s),
        b.subrange(pos, pos + 16) == slot_bytes(s),
    ensures
        fixed_text(b, pos, 16) == s,
{
    let t = encode_utf8(s);
    if s.len() > 0 {
        lemma_encode_last_nonzero(s);
    } else {
        assert(t =~= Seq::<u8>::empty());
    }
    lemma_trim_padding(t, (16 - t.len()) as nat);
    encode_utf8_valid_utf8(s);
    encode_utf8_decode_utf8(s);
}

/// The first zero byte at or after `i` is `z` when nothing between them is
/// zero.
proof fn lemma_first_zero_is(b: Seq<u8>, i: int, z: int)
    requires
        0 <= i <= z < b.len(),
        b[z] == 0,
        forall|k: int| i <= k < z ==> b[k] != 0,
    ensures
        first_zero(b, i) == z,
    decreases z - i,
{
    if i < z {
        lemma_first_zero_is(b, i + 1, z);
    }
}

/// Text without U+0000 decodes from its terminated bytes.
pub proof fn lemma_terminated_round_trip(b: Seq<u8>, pos: int, s: Seq<char>)
    requires
        0 <= pos,
        pos + terminated_bytes(s).len() <= b.len(),
        terminable(s),
        b.subrange(pos, pos + terminated_bytes(s).len()) == terminated_bytes(s),
    ensures
        terminated_text_field(b, pos) == Ok::<(Seq<char>, int), ParsingError>((s, pos + terminated_bytes(s).len())),
{
    let t = encode_utf8(s);
    let z = pos + t.len();
    lemma_encode_nonzero(s);
    assert forall|k: int| pos <= k < z implies b[k] != 0 by {
        assert(b[k] == b.subrange(pos, pos + terminated_bytes(s).len())[k - pos]);
    }
    assert(b[z] == b.subrange(pos, pos + terminated_bytes(s).len())[t.len() as int]);
    lemma_first_zero_is(b, pos, z);
    reveal(terminated_text_field);
    assert(b.subrange(pos, z) =~= t);
    encode_utf8_valid_utf8(s);
    encode_utf8_decode_utf8(s);
}

/// Where the bytes `e` stand at `off` in `b`, a part of `e` stands at the
/// same place shifted by `off`.
proof fn lemma_part(b: Seq<u8>, off: int, e: Seq<u8>, x: int, part: Seq<u8>)
    requires
        0 <= off,
        off + e.len() <= b.len(),
        b.subrange(off, off + e.len()) == e,
        0 <= x,
        x + part.len() <= e.len(),
        e.subrange(x, x + part.len()) == part,
    ensures
        b.subrange(off + x, off + x + part.len()) == part,
{
    assert(b.subrange(off + x, off + x + part.len()) =~= e.subrange(x, x + part.len()));
}

/// Text that the encoding can hold.
pub open spec fn text_encodable(s: Seq<char>, enc: Encoding) -> bool {
    match enc {
        Encoding::FixedStride => fits_slot(s),
        Encoding::Streaming => terminable(s),
    }
}

/// The bytes of a text field in the encoding.
pub open spec fn text_bytes(s: Seq<char>, enc: Encoding) -> Seq<u8> {
    match enc {
        Encoding::FixedStride => slot_bytes(s),
        Encoding::Streaming => terminated_bytes(s),
    }
}

/// The bytes of a descriptor in the encoding.
pub open spec fn detector_bytes(d: DetectorView, enc: Encoding) -> Seq<u8> {
    text_bytes(d.name, enc) + int_bytes(d.histo_number) + int_bytes(d.histo_length) + word_bytes(
        d.time_zero_bin,
    ) + int_bytes(d.first_good_bin) + int_bytes(d.last_good_bin)
}

/// The byte lengths of the fields.
proof fn lemma_field_lengths(s: Seq<char>, enc: Encoding)
    requires
        text_encodable(s, enc),
    ensures
        enc == Encoding::FixedStride ==> text_bytes(s, enc).len() == 16,
        enc == Encoding::Streaming ==> text_bytes(s, enc).len() == encode_utf8(s).len() + 1,
        forall|w: u64| #[trigger] word_bytes(w).len() == 8,
        forall|v: i64| #[trigger] int_bytes(v).len() == 8,
{
    lemma_auto_spec_u64_to_from_le_bytes();
}

/// A text field that the encoding can hold decodes from its bytes.
proof fn lemma_text_round_trip(b: Seq<u8>, pos: int, s: Seq<char>, enc: Encoding)
    requires
        0 <= pos,
        pos + text_bytes(s, enc).len() <= b.len(),
        text_encodable(s, enc),
        b.subrange(pos, pos + text_bytes(s, enc).len()) == text_bytes(s, enc),
    ensures
        enc == Encoding::FixedStride ==> fixed_text(b, pos, 16) == s,
        enc == Encoding::Streaming ==> terminated_text_field(b, pos) == Ok::<(Seq<char>, int), ParsingError>(
            (s, (pos + text_bytes(s, enc).len()) as int),
        ),
{
    lemma_field_lengths(s, enc);
    match enc {
        Encoding::FixedStride => lemma_slot_round_trip(b, pos, s),
        Encoding::Streaming => lemma_terminated_round_trip(b, pos, s),
    }
}

/// A descriptor whose name the encoding can hold decodes from its bytes,
/// wherever they stand in a buffer.
pub proof fn detector_round_trip(pre: Seq<u8>, d: DetectorView, post: Seq<u8>, enc: Encoding)
    requires
        text_encodable(d.name, enc),
    ensures
        detector_at(pre + detector_bytes(d, enc) + post, pre.len() as int, enc)
            == Ok::<(DetectorView, int), ParsingError>((d, (pre.len() + detector_bytes(d, enc).len()) as int)),
{
    let e = detector_bytes(d, enc);
    let b = pre + e + post;
    let off = pre.len() as int;
    lemma_field_lengths(d.name, enc);
    let n = text_bytes(d.name, enc).len() as int;
    assert(b.subrange(off, off + e.len()) =~= e);
    assert(e.subrange(0, n) =~= text_bytes(d.name, enc));
    assert(e.subrange(n, n + 8) =~= int_bytes(d.histo_number));
    assert(e.subrange(n + 8, n + 16) =~= int_bytes(d.histo_length));
    assert(e.subrange(n + 16, n + 24) =~= word_bytes(d.time_zero_bin));
    assert(e.subrange(n + 24, n + 32) =~= int_bytes(d.first_good_bin));
    assert(e.subrange(n + 32, n + 40) =~= int_bytes(d.last_good_bin));
    lemma_part(b, off, e, 0, text_bytes(d.name, enc));
    lemma_part(b, off, e, n, int_bytes(d.histo_number));
    lemma_part(b, off, e, n + 8, int_bytes(d.histo_length));
    lemma_part(b, off, e, n + 16, word_bytes(d.time_zero_bin));
    lemma_part(b, off, e, n + 24, int_bytes(d.first_good_bin));
    lemma_part(b, off, e, n + 32, int_bytes(d.last_good_bin));
    lemma_text_round_trip(b, off, d.name, enc);
    lemma_int_round_trip(b, off + n, d.histo_number);
    lemma_int_round_trip(b, off + n + 8, d.histo_length);
    lemma_word_round_trip(b, off + n + 16, d.time_zero_bin);
    lemma_int_round_trip(b, off + n + 24, d.first_good_bin);
    lemma_int_round_trip(b, off + n + 32, d.last_good_bin);
}

/// Where `x + y` stands at `off` in `b`, `x` stands at `off` and `y` right
/// after it.
proof fn lemma_split(b: Seq<u8>, off: int, x: Seq<u8>, y: Seq<u8>)
    requires
        0 <= off,
        off + x.len() + y.len() <= b.len(),
        b.subrange(off, off + x.len() + y.len()) == x + y,
    ensures
        b.subrange(off, off + x.len()) == x,
        b.subrange(off + x.len(), off + x.len() + y.len()) == y,
{
    assert(b.subrange(off, off + x.len()) =~= (x + y).subrange(0, x.len() as int));
    assert(b.subrange(off + x.len(), off + x.len() + y.len()) =~= (x + y).subrange(x.len() as int, (x.len() + y.len()) as int));
}

/// The slot of the muon beam momentum: eight bytes in the fixed-stride
/// encoding, none in the streaming encoding.
pub open spec fn momentum_bytes(enc: Encoding) -> Seq<u8> {
    match enc {
        Encoding::FixedStride => zeros(8),
        Encoding::Streaming => seq![],
    }
}

/// Text of a run info that the encoding can hold.
pub open spec fn run_info_encodable(r: RunInfoView, enc: Encoding) -> bool {
    &&& text_encodable(r.version, enc)
    &&& text_encodable(r.generic_validator_url, enc)
    &&& text_encodable(r.specific_validator_url, enc)
    &&& text_encodable(r.generator, enc)
    &&& text_encodable(r.file_name, enc)
    &&& text_encodable(r.run_title, enc)
    &&& text_encodable(r.run_start_time, enc)
    &&& text_encodable(r.run_stop_time, enc)
    &&& text_encodable(r.laboratory, enc)
    &&& text_encodable(r.instrument, enc)
    &&& text_encodable(r.muon_species, enc)
    &&& text_encodable(r.muon_source, enc)
    &&& text_encodable(r.setup, enc)
    &&& text_encodable(r.comment, enc)
    &&& text_encodable(r.sample_name, enc)
}

/// The bytes of a run info in the encoding.
pub open spec fn run_info_bytes(r: RunInfoView, enc: Encoding) -> Seq<u8> {
    text_bytes(r.version, enc)
        + text_bytes(r.generic_validator_url, enc)
        + text_bytes(r.specific_validator_url, enc)
        + text_bytes(r.generator, enc)
        + text_bytes(r.file_name, enc)
        + text_bytes(r.run_title, enc)
        + int_bytes(r.run_number)
        + text_bytes(r.run_start_time, enc)
        + text_bytes(r.run_stop_time, enc)
        + text_bytes(r.laboratory, enc)
        + text_bytes(r.instrument, enc)
        + momentum_bytes(enc)
        + text_bytes(r.muon_species, enc)
        + text_bytes(r.muon_source, enc)
        + text_bytes(r.setup, enc)
        + text_bytes(r.comment, enc)
        + text_bytes(r.sample_name, enc)
        + int_bytes(r.no_of_histos)
}

/// A run info whose text the encoding can hold decodes from its bytes,
/// wherever they stand in a buffer.
#[verifier::rlimit(40)]
pub proof fn run_info_round_trip(pre: Seq<u8>, r: RunInfoView, post: Seq<u8>, enc: Encoding)
    requires
        run_info_encodable(r, enc),
    ensures
        run_info_at(pre + run_info_bytes(r, enc) + post, pre.len() as int, enc)
            == Ok::<(RunInfoView, int), ParsingError>((r, (pre.len() + run_info_bytes(r, enc).len()) as int)),
{
    let e = run_info_bytes(r, enc);
    let b = pre + e + post;
    let off = pre.len() as int;
    lemma_auto_spec_u64_to_from_le_bytes();
    lemma_field_lengths(r.version, enc);
    lemma_field_lengths(r.generic_validator_url, enc);
    lemma_field_lengths(r.specific_validator_url, enc);
    lemma_field_lengths(r.generator, enc);
    lemma_field_lengths(r.file_name, enc);
    lemma_field_lengths(r.run_title, enc);
    lemma_field_lengths(r.run_start_time, enc);
    lemma_field_lengths(r.run_stop_time, enc);
    lemma_field_lengths(r.laboratory, enc);
    lemma_field_lengths(r.instrument, enc);
    lemma_field_lengths(r.muon_species, enc);
    lemma_field_lengths(r.muon_source, enc);
    lemma_field_lengths(r.setup, enc);
    lemma_field_lengths(r.comment, enc);
    lemma_field_lengths(r.sample_name, enc);
    assert(b.subrange(off, off + e.len()) =~= e);
    let a1 = text_bytes(r.version, enc);
    let a2 = a1 + text_bytes(r.generic_validator_url, enc);
    let a3 = a2 + text_bytes(r.specific_validator_url, enc);
    let a4 = a3 + text_bytes(r.generator, enc);
    let a5 = a4 + text_bytes(r.file_name, enc);
    let a6 = a5 + text_bytes(r.run_title, enc);
    let a7 = a6 + int_bytes(r.run_number);
    let a8 = a7 + text_bytes(r.run_start_time, enc);
    let a9 = a8 + text_bytes(r.run_stop_time, enc);
    let a10 = a9 + text_bytes(r.laboratory, enc);
    let a11 = a10 + text_bytes(r.instrument, enc);
    let a12 = a11 + momentum_bytes(enc);
    let a13 = a12 + text_bytes(r.muon_species, enc);
    let a14 = a13 + text_bytes(r.muon_source, enc);
    let a15 = a14 + text_bytes(r.setup, enc);
    let a16 = a15 + text_bytes(r.comment, enc);
    let a17 = a16 + text_bytes(r.sample_name, enc);
    let a18 = a17 + int_bytes(r.no_of_histos);
    assert(e == a18);
    lemma_split(b, off, a17, int_bytes(r.no_of_histos));
    lemma_split(b, off, a16, text_bytes(r.sample_name, enc));
    lemma_split(b, off, a15, text_bytes(r.comment, enc));
    lemma_split(b, off, a14, text_bytes(r.setup, enc));
    lemma_split(b, off, a13, text_bytes(r.muon_source, enc));
    lemma_split(b, off, a12, text_bytes(r.muon_species, enc));
    lemma_split(b, off, a11, momentum_bytes(enc));
    lemma_split(b, off, a10, text_bytes(r.instrument, enc));
    lemma_split(b, off, a9, text_bytes(r.laboratory, enc));
    lemma_split(b, off, a8, text_bytes(r.run_stop_time, enc));
    lemma_split(b, off, a7, text_bytes(r.run_start_time, enc));
    lemma_split(b, off, a6, int_bytes(r.run_number));
    lemma_split(b, off, a5, text_bytes(r.run_title, enc));
    lemma_split(b, off, a4, text_bytes(r.file_name, enc));
    lemma_split(b, off, a3, text_bytes(r.generator, enc));
    lemma_split(b, off, a2, text_bytes(r.specific_validator_url, enc));
    lemma_split(b, off, a1, text_bytes(r.generic_validator_url, enc));
    lemma_text_round_trip(b, off + 0, r.version, enc);
    lemma_text_round_trip(b, off + a1.len(), r.generic_validator_url, enc);
    lemma_text_round_trip(b, off + a2.len(), r.specific_validator_url, enc);
    lemma_text_round_trip(b, off + a3.len(), r.generator, enc);
    lemma_text_round_trip(b, off + a4.len(), r.file_name, enc);
    lemma_text_round_trip(b, off + a5.len(), r.run_title, enc);
    lemma_int_round_trip(b, off + a6.len(), r.run_number);
    lemma_text_round_trip(b, off + a7.len(), r.run_start_time, enc);
    lemma_text_round_trip(b, off + a8.len(), r.run_stop_time, enc);
    lemma_text_round_trip(b, off + a9.len(), r.laboratory, enc);
    lemma_text_round_trip(b, off + a10.len(), r.instrument, enc);
    lemma_text_round_trip(b, off + a12.len(), r.muon_species, enc);
    lemma_text_round_trip(b, off + a13.len(), r.muon_source, enc);
    lemma_text_round_trip(b, off + a14.len(), r.setup, enc);
    lemma_text_round_trip(b, off + a15.len(), r.comment, enc);
    lemma_text_round_trip(b, off + a16.len(), r.sample_name, enc);
    lemma_int_round_trip(b, off + a17.len(), r.no_of_histos);
}

/// Readings that the encoding can hold: raw doubles in the fixed-stride
/// encoding, text without U+0000 in the streaming encoding.
pub open spec fn sc_encodable(m: SCAnaModuleView, enc: Encoding) -> bool {
    match enc {
        Encoding::FixedStride => m.temperature is Raw && m.magnetic_field is Raw,
        Encoding::Streaming => {
            &&& m.temperature matches ReadingView::Text(t) && terminable(t)
            &&& m.magnetic_field matches ReadingView::Text(t) && terminable(t)
        },
    }
}

/// The bytes of one reading.
pub open spec fn reading_bytes(r: ReadingView) -> Seq<u8> {
    match r {
        ReadingView::Raw(bits) => word_bytes(bits),
        ReadingView::Text(t) => terminated_bytes(t),
    }
}

/// The bytes of a slow-control module.
pub open spec fn sc_bytes(m: SCAnaModuleView) -> Seq<u8> {
    reading_bytes(m.temperature) + reading_bytes(m.magnetic_field)
}

/// A slow-control module whose readings the encoding can hold decodes from
/// its bytes, wherever they stand in a buffer.
pub proof fn sc_round_trip(pre: Seq<u8>, m: SCAnaModuleView, post: Seq<u8>, enc: Encoding)
    requires
        sc_encodable(m, enc),
    ensures
        sc_ana_module_at(pre + sc_bytes(m) + post, pre.len() as int, enc)
            == Ok::<(SCAnaModuleView, int), ParsingError>((m, (pre.len() + sc_bytes(m).len()) as int)),
{
    let e = sc_bytes(m);
    let b = pre + e + post;
    let off = pre.len() as int;
    lemma_auto_spec_u64_to_from_le_bytes();
    assert(b.subrange(off, off + e.len()) =~= e);
    let x = reading_bytes(m.temperature);
    let y = reading_bytes(m.magnetic_field);
    lemma_split(b, off, x, y);
    match (m.temperature, m.magnetic_field) {
        (ReadingView::Raw(t), ReadingView::Raw(f)) => {
            lemma_word_round_trip(b, off, t);
            lemma_word_round_trip(b, off + 8, f);
        },
        (ReadingView::Text(t), ReadingView::Text(f)) => {
            lemma_terminated_round_trip(b, off, t);
            lemma_terminated_round_trip(b, off + x.len(), f);
        },
        _ => {},
    }
}

/// A text that fits a slot decodes as a single-slot section (sample
/// environment, magnetic field environment, beamline) in the fixed-stride
/// encoding, wherever its slot stands in a buffer.
pub proof fn slot_section_round_trip(pre: Seq<u8>, s: Seq<char>, post: Seq<u8>)
    requires
        fits_slot(s),
    ensures
        slot_section_at(pre + slot_bytes(s) + post, pre.len() as int, Encoding::FixedStride)
            == Ok::<(Seq<char>, int), ParsingError>((s, pre.len() + 16 as int)),
{
    let b = pre + slot_bytes(s) + post;
    let off = pre.len() as int;
    lemma_field_lengths(s, Encoding::FixedStride);
    assert(b.subrange(off, off + 16) =~= slot_bytes(s));
    lemma_slot_round_trip(b, off, s);
}

/// Descriptors whose names the encoding can hold.
pub open spec fn detectors_encodable(ds: Seq<DetectorView>, enc: Encoding) -> bool {
    forall|i: int| 0 <= i < ds.len() ==> text_encodable(#[trigger] ds[i].name, enc)
}

/// The bytes of descriptors one after the other.
pub open spec fn detectors_bytes(ds: Seq<DetectorView>, enc: Encoding) -> Seq<u8>
    decreases ds.len(),
{
    if ds.len() == 0 {
        seq![]
    } else {
        detector_bytes(ds[0], enc) + detectors_bytes(ds.drop_first(), enc)
    }
}

/// The length of a fixed-stride descriptor.
proof fn lemma_detector_fixed_len(d: DetectorView)
    requires
        fits_slot(d.name),
    ensures
        detector_bytes(d, Encoding::FixedStride).len() == 56,
{
    lemma_field_lengths(d.name, Encoding::FixedStride);
}

/// Fixed-stride descriptors take 56 bytes each and stand at multiples of 56.
proof fn lemma_fixed_detectors(pre: Seq<u8>, ds: Seq<DetectorView>, post: Seq<u8>)
    requires
        detectors_encodable(ds, Encoding::FixedStride),
    ensures
        detectors_bytes(ds, Encoding::FixedStride).len() == 56 * ds.len(),
        forall|i: int| 0 <= i < ds.len() ==> detector_fixed(
            pre + detectors_bytes(ds, Encoding::FixedStride) + post,
            pre.len() + 56 * i,
        ) == #[trigger] ds[i],
    decreases ds.len(),
{
    let enc = Encoding::FixedStride;
    if ds.len() > 0 {
        let head = detector_bytes(ds[0], enc);
        let rest = ds.drop_first();
        assert(detectors_encodable(rest, enc)) by {
            assert forall|i: int| 0 <= i < rest.len() implies text_encodable(#[trigger] rest[i].name, enc) by {
                assert(rest[i] == ds[i + 1]);
            }
        }
        assert(text_encodable(ds[0].name, enc));
        lemma_detector_fixed_len(ds[0]);
        lemma_fixed_detectors(pre + head, rest, post);
        let b = pre + detectors_bytes(ds, enc) + post;
        assert(b =~= (pre + head) + detectors_bytes(rest, enc) + post);
        assert(b =~= pre + head + (detectors_bytes(rest, enc) + post));
        detector_round_trip(pre, ds[0], detectors_bytes(rest, enc) + post, enc);
        assert forall|i: int| 0 <= i < ds.len() implies detector_fixed(b, pre.len() + 56 * i) == #[trigger] ds[i] by {
            if i > 0 {
                assert(ds[i] == rest[i - 1]);
                assert(pre.len() + 56 * i == (pre + head).len() + 56 * (i - 1));
            }
        }
    }
}

/// In the fixed-stride encoding, descriptors followed by fewer bytes than
/// one more descriptor decode back as the array.
pub proof fn fixed_array_round_trip(pre: Seq<u8>, ds: Seq<DetectorView>, post: Seq<u8>)
    requires
        detectors_encodable(ds, Encoding::FixedStride),
        post.len() < 56,
    ensures
        detector_array(pre + detectors_bytes(ds, Encoding::FixedStride) + post, pre.len() as int, Encoding::FixedStride)
            == (ds, pre.len() + 56 * ds.len() as int),
{
    let b = pre + detectors_bytes(ds, Encoding::FixedStride) + post;
    lemma_fixed_detectors(pre, ds, post);
    assert(fixed_count(b, pre.len() as int) == ds.len()) by {
        assert((56 * ds.len() + post.len()) / 56 == ds.len()) by (nonlinear_arith)
            requires
                post.len() < 56,
        ;
    }
    assert(detectors_fixed(b, pre.len() as int) =~= ds);
}

/// In the streaming encoding, descriptors that end the buffer decode back as
/// the array.
pub proof fn streaming_array_round_trip(pre: Seq<u8>, ds: Seq<DetectorView>)
    requires
        detectors_encodable(ds, Encoding::Streaming),
    ensures
        detector_array(pre + detectors_bytes(ds, Encoding::Streaming), pre.len() as int, Encoding::Streaming)
            == (ds, (pre.len() + detectors_bytes(ds, Encoding::Streaming).len()) as int),
    decreases ds.len(),
{
    let enc = Encoding::Streaming;
    let b = pre + detectors_bytes(ds, enc);
    if ds.len() == 0 {
        assert(b =~= pre);
    } else {
        let head = detector_bytes(ds[0], enc);
        let rest = ds.drop_first();
        assert(detectors_encodable(rest, enc)) by {
            assert forall|i: int| 0 <= i < rest.len() implies text_encodable(#[trigger] rest[i].name, enc) by {
                assert(rest[i] == ds[i + 1]);
            }
        }
        assert(text_encodable(ds[0].name, enc));
        lemma_field_lengths(ds[0].name, enc);
        assert(b =~= pre + head + detectors_bytes(rest, enc));
        assert(b =~= (pre + head) + detectors_bytes(rest, enc));
        detector_round_trip(pre, ds[0], detectors_bytes(rest, enc), enc);
        streaming_array_round_trip(pre + head, rest);
        assert(seq![ds[0]] + rest =~= ds);
    }
}

/// A run header that the fixed-stride encoding can hold: its text fits the
/// slots.
pub open spec fn fixed_run_header_encodable(h: RunHeaderView) -> bool {
    &&& run_info_encodable(h.run_info, Encoding::FixedStride)
    &&& detectors_encodable(h.detectors, Encoding::FixedStride)
    &&& fits_slot(h.cryo)
    &&& fits_slot(h.magnet_name)
    &&& fits_slot(h.beamline)
}

/// The bytes of a run header in the fixed-stride encoding.
pub open spec fn fixed_run_header_bytes(h: RunHeaderView) -> Seq<u8> {
    run_info_bytes(h.run_info, Encoding::FixedStride) + detectors_bytes(h.detectors, Encoding::FixedStride)
        + slot_bytes(h.cryo) + slot_bytes(h.magnet_name) + slot_bytes(h.beamline)
}

/// The ways of grouping the parts of a run header in a buffer.
proof fn lemma_regroup(pre: Seq<u8>, r: Seq<u8>, d: Seq<u8>, s1: Seq<u8>, s2: Seq<u8>, s3: Seq<u8>, post: Seq<u8>)
    ensures
        pre + (r + d + s1 + s2 + s3) + post == pre + r + (d + s1 + s2 + s3 + post),
        pre + (r + d + s1 + s2 + s3) + post == (pre + r) + d + (s1 + s2 + s3 + post),
        pre + (r + d + s1 + s2 + s3) + post == (pre + r + d) + s1 + (s2 + s3 + post),
        pre + (r + d + s1 + s2 + s3) + post == (pre + r + d + s1) + s2 + (s3 + post),
        pre + (r + d + s1 + s2 + s3) + post == (pre + r + d + s1 + s2) + s3 + post,
{
    assert(pre + (r + d + s1 + s2 + s3) + post =~= pre + r + (d + s1 + s2 + s3 + post));
    assert(pre + (r + d + s1 + s2 + s3) + post =~= (pre + r) + d + (s1 + s2 + s3 + post));
    assert(pre + (r + d + s1 + s2 + s3) + post =~= (pre + r + d) + s1 + (s2 + s3 + post));
    assert(pre + (r + d + s1 + s2 + s3) + post =~= (pre + r + d + s1) + s2 + (s3 + post));
    assert(pre + (r + d + s1 + s2 + s3) + post =~= (pre + r + d + s1 + s2) + s3 + post);
}

/// A run header that the fixed-stride encoding can hold decodes from its
/// bytes when fewer than eight bytes follow them: the three slots after the
/// detector table are then shorter than one more detector.
#[verifier::rlimit(60)]
pub proof fn fixed_run_header_round_trip(pre: Seq<u8>, h: RunHeaderView, post: Seq<u8>)
    requires
        fixed_run_header_encodable(h),
        post.len() < 8,
    ensures
        run_header_at(pre + fixed_run_header_bytes(h) + post, pre.len() as int, Encoding::FixedStride)
            == Ok::<(RunHeaderView, int), ParsingError>((h, (pre.len() + fixed_run_header_bytes(h).len()) as int)),
{
    let enc = Encoding::FixedStride;
    let r = run_info_bytes(h.run_info, enc);
    let d = detectors_bytes(h.detectors, enc);
    let s1 = slot_bytes(h.cryo);
    let s2 = slot_bytes(h.magnet_name);
    let s3 = slot_bytes(h.beamline);
    let b = pre + fixed_run_header_bytes(h) + post;
    lemma_field_lengths(h.cryo, enc);
    lemma_field_lengths(h.magnet_name, enc);
    lemma_field_lengths(h.beamline, enc);
    lemma_regroup(pre, r, d, s1, s2, s3, post);
    run_info_round_trip(pre, h.run_info, d + s1 + s2 + s3 + post, enc);
    assert(r.len() == 264);
    fixed_array_round_trip(pre + r, h.detectors, s1 + s2 + s3 + post);
    lemma_fixed_detectors(pre + r, h.detectors, s1 + s2 + s3 + post);
    slot_section_round_trip(pre + r + d, h.cryo, s2 + s3 + post);
    slot_section_round_trip(pre + r + d + s1, h.magnet_name, s3 + post);
    slot_section_round_trip(pre + r + d + s1 + s2, h.beamline, post);
    let after_info: int = pre.len() + 264int;
    let after_detectors: int = after_info + 56 * h.detectors.len();
    assert(run_info_at(b, pre.len() as int, enc) == Ok::<(RunInfoView, int), ParsingError>((h.run_info, after_info)));
    assert(detector_array(b, after_info, enc) == (h.detectors, after_detectors));
    assert(slot_section_at(b, after_detectors, enc) == Ok::<(Seq<char>, int), ParsingError>((h.cryo, after_detectors + 16)));
    assert(slot_section_at(b, after_detectors + 16, enc) == Ok::<(Seq<char>, int), ParsingError>((h.magnet_name, after_detectors + 32)));
    assert(slot_section_at(b, after_detectors + 32, enc) == Ok::<(Seq<char>, int), ParsingError>((h.beamline, after_detectors + 48)));
}

/// A file that the fixed-stride encoding can hold: one detector for each
/// histogram, text that fits the slots, and raw slow-control readings.
pub open spec fn fixed_file_encodable(f: MusrRootFileView) -> bool {
    &&& f.histos.decays.len() == f.run_header.detectors.len()
    &&& detectors_encodable(f.histos.decays, Encoding::FixedStride)
    &&& sc_encodable(f.histos.slow_control, Encoding::FixedStride)
    &&& fixed_run_header_encodable(f.run_header)
}

/// The bytes of a file in the fixed-stride encoding: the decay module, the
/// slow-control module, then the run header.
pub open spec fn fixed_file_bytes(f: MusrRootFileView) -> Seq<u8> {
    detectors_bytes(f.histos.decays, Encoding::FixedStride) + sc_bytes(f.histos.slow_control)
        + fixed_run_header_bytes(f.run_header)
}

/// A file that the fixed-stride encoding can hold decodes from its bytes
/// field for field.
#[verifier::rlimit(40)]
pub proof fn fixed_file_round_trip(f: MusrRootFileView)
    requires
        fixed_file_encodable(f),
    ensures
        musr_root_file_of(fixed_file_bytes(f), Encoding::FixedStride) == Ok::<MusrRootFileView, ParsingError>(f),
{
    let enc = Encoding::FixedStride;
    let ds = f.histos.decays;
    let sc = f.histos.slow_control;
    let h = f.run_header;
    let n = ds.len();
    let d = detectors_bytes(ds, enc);
    let c = sc_bytes(sc);
    let hb = fixed_run_header_bytes(h);
    let b = d + c + hb;
    let empty = Seq::<u8>::empty();
    lemma_auto_spec_u64_to_from_le_bytes();
    lemma_fixed_detectors(empty, ds, c);
    lemma_fixed_detectors(empty, h.detectors, empty);
    run_info_round_trip(empty, h.run_info, empty, enc);
    lemma_field_lengths(h.cryo, enc);
    lemma_field_lengths(h.magnet_name, enc);
    lemma_field_lengths(h.beamline, enc);
    assert(c.len() == 16);
    assert(run_info_bytes(h.run_info, enc).len() == 264);
    assert(b.len() == 112 * n + 328);
    assert((112 * n) / 112 == n) by (nonlinear_arith);
    let end: int = 56 * n + 16int;
    assert(histos_region(b, enc) =~= empty + d + c);
    fixed_array_round_trip(empty, ds, c);
    assert(empty + d + c =~= d + c + empty);
    sc_round_trip(d, sc, empty, enc);
    assert(histos_at(histos_region(b, enc), 0, enc) == Ok::<(HistosView, int), ParsingError>(
        (HistosView { decays: ds, slow_control: sc }, end),
    ));
    assert(b =~= (d + c) + hb + empty);
    fixed_run_header_round_trip(d + c, h, empty);
}

} // verus!
