//! Field decoders: each reads one primitive at a byte offset of an immutable
//! buffer and returns the value with the offset just past it.
use vstd::bytes::*;
use vstd::prelude::*;
use vstd::utf8::*;

use crate::error::{decoded, ParsingError};

verus! {

/// Width in bytes of an integer or floating-point field.
pub const WORD_WIDTH: usize = 8;

/// Width in bytes of a text slot in the fixed-stride encoding.
pub const TEXT_WIDTH: usize = 16;

/// The little-endian 64-bit word at `pos`.
pub open spec fn word_at(b: Seq<u8>, pos: int) -> u64 {
    spec_u64_from_le_bytes(b.subrange(pos, pos + 8))
}

/// A word field: fails when fewer than eight bytes remain.
pub open spec fn word_field(b: Seq<u8>, pos: int) -> Result<(u64, int), ParsingError> {
    if pos + 8 <= b.len() {
        Ok((word_at(b, pos), pos + 8))
    } else {
        Err(ParsingError::InsufficientBuffer { offset: pos as usize, needed: 8 })
    }
}

/// A signed integer field: the word read as two's complement.
pub open spec fn int_field(b: Seq<u8>, pos: int) -> Result<(i64, int), ParsingError> {
    match word_field(b, pos) {
        Ok((w, next)) => Ok((w as i64, next)),
        Err(e) => Err(e),
    }
}

/// `s` without its trailing zero bytes.
pub open spec fn zero_trimmed(s: Seq<u8>) -> Seq<u8>
    decreases s.len(),
{
    if s.len() > 0 && s.last() == 0 {
        zero_trimmed(s.drop_last())
    } else {
        s
    }
}

/// Text decoded from `bytes` with every malformed sequence replaced by
/// U+FFFD.
pub uninterp spec fn lossy_utf8(bytes: Seq<u8>) -> Seq<char>;

/// Text decoded from bytes that need not be valid UTF-8: valid UTF-8 decodes
/// as it is, anything else through `lossy_utf8`.
pub open spec fn lossy_text(bytes: Seq<u8>) -> Seq<char> {
    if valid_utf8(bytes) {
        decode_utf8(bytes)
    } else {
        lossy_utf8(bytes)
    }
}

/// The text of the slot of `width` bytes at `pos`, without its trailing zero
/// bytes. A zero byte always decodes to U+0000 on its own, so dropping zero
/// bytes before the lossy conversion equals dropping U+0000 after it.
pub open spec fn fixed_text(b: Seq<u8>, pos: int, width: int) -> Seq<char> {
    lossy_text(zero_trimmed(b.subrange(pos, pos + width)))
}

/// A fixed-width text field: fails when fewer than `width` bytes remain.
pub open spec fn fixed_text_field(b: Seq<u8>, pos: int, width: int) -> Result<(Seq<char>, int), ParsingError> {
    if pos + width <= b.len() {
        Ok((fixed_text(b, pos, width), pos + width))
    } else {
        Err(ParsingError::InsufficientBuffer { offset: pos as usize, needed: width as usize })
    }
}

/// The offset of the first zero byte at or after `i`, or the length of `b`
/// when there is none.
pub open spec fn first_zero(b: Seq<u8>, i: int) -> int
    decreases b.len() - i,
{
    if i >= b.len() {
        b.len() as int
    } else if b[i] == 0 {
        i
    } else {
        first_zero(b, i + 1)
    }
}

/// The first zero byte at or after `i` lies between `i` and the end.
pub proof fn lemma_first_zero_bounds(b: Seq<u8>, i: int)
    requires
        i <= b.len(),
    ensures
        i <= first_zero(b, i) <= b.len(),
    decreases b.len() - i,
{
    if i < b.len() && b[i] != 0 {
        lemma_first_zero_bounds(b, i + 1);
    }
}

/// A zero-terminated text field: the bytes before the first zero byte at or
/// after `pos`, which must be valid UTF-8; decoding resumes after the zero.
#[verifier::opaque]
pub open spec fn terminated_text_field(b: Seq<u8>, pos: int) -> Result<(Seq<char>, int), ParsingError> {
    let z = first_zero(b, pos);
    if z >= b.len() {
        Err(ParsingError::MissingTerminator { offset: pos as usize })
    } else if valid_utf8(b.subrange(pos, z)) {
        Ok((decode_utf8(b.subrange(pos, z)), z + 1))
    } else {
        Err(ParsingError::InvalidText { offset: pos as usize })
    }
}

/// A terminated text field that decodes ends after its start, inside the
/// buffer.
pub proof fn lemma_terminated_text_advances(b: Seq<u8>, pos: int)
    ensures
        terminated_text_field(b, pos) matches Ok((_, next)) ==> pos < next <= b.len(),
{
    reveal(terminated_text_field);
    if pos <= b.len() {
        lemma_first_zero_bounds(b, pos);
    }
}

/// Relies on `String::from_utf8_lossy`: malformed sequences become U+FFFD,
/// and valid UTF-8 is decoded as it is.
#[verifier::external_body]
fn utf8_lossy(bytes: &[u8]) -> (r: String)
    ensures
        valid_utf8(bytes@) ==> r@ == decode_utf8(bytes@),
        !valid_utf8(bytes@) ==> r@ == lossy_utf8(bytes@),
{
    String::from_utf8_lossy(bytes).into_owned()
}

/// Relies on `String::from_utf8`: it fails exactly when the bytes are not
/// valid UTF-8, and otherwise holds the decoded text.
#[verifier::external_body]
fn utf8_strict(bytes: &[u8]) -> (r: Option<String>)
    ensures
        r is Some <==> valid_utf8(bytes@),
        r matches Some(s) ==> s@ == decode_utf8(bytes@),
{
    match String::from_utf8(bytes.to_vec()) {
        Ok(s) => Some(s),
        Err(_) => None,
    }
}

/// The word at `pos`, which the caller knows to lie inside the buffer.
pub(crate) fn word_in_bounds(bytes: &[u8], pos: usize) -> (w: u64)
    requires
        pos + 8 <= bytes.len(),
    ensures
        w == word_at(bytes@, pos as int),
{
    u64_from_le_bytes(&bytes[pos..pos + WORD_WIDTH])
}

/// The `i64` at `pos`, which the caller knows to lie inside the buffer.
pub(crate) fn int_in_bounds(bytes: &[u8], pos: usize) -> (v: i64)
    requires
        pos + 8 <= bytes.len(),
    ensures
        v == word_at(bytes@, pos as int) as i64,
{
    word_in_bounds(bytes, pos) as i64
}

/// The text of the slot of `width` bytes at `pos`, which the caller knows to
/// lie inside the buffer.
pub(crate) fn text_in_slot(bytes: &[u8], pos: usize, width: usize) -> (s: String)
    requires
        pos + width <= bytes.len(),
    ensures
        s@ == fixed_text(bytes@, pos as int, width as int),
{
    let ghost slot = bytes@.subrange(pos as int, pos + width);
    let mut end: usize = pos + width;
    while end > pos && bytes[end - 1] == 0
        invariant
            pos <= end <= pos + width <= bytes@.len(),
            slot == bytes@.subrange(pos as int, pos + width),
            zero_trimmed(slot) == zero_trimmed(bytes@.subrange(pos as int, end as int)),
        decreases end,
    {
        assert(bytes@.subrange(pos as int, end - 1) =~= bytes@.subrange(pos as int, end as int).drop_last());
        end = end - 1;
    }
    assert(zero_trimmed(bytes@.subrange(pos as int, end as int)) == bytes@.subrange(pos as int, end as int));
    utf8_lossy(&bytes[pos..end])
}

/// Reads the little-endian word at `pos`.
fn read_word(bytes: &[u8], pos: usize) -> (r: Result<(u64, usize), ParsingError>)
    ensures
        decoded(r) == word_field(bytes@, pos as int),
{
    if pos > bytes.len() || bytes.len() - pos < WORD_WIDTH {
        return Err(ParsingError::InsufficientBuffer { offset: pos, needed: WORD_WIDTH });
    }
    Ok((word_in_bounds(bytes, pos), pos + WORD_WIDTH))
}

/// Reads a little-endian two's complement `i64` at `pos`.
pub fn read_i64(bytes: &[u8], pos: usize) -> (r: Result<(i64, usize), ParsingError>)
    ensures
        decoded(r) == int_field(bytes@, pos as int),
{
    match read_word(bytes, pos) {
        Ok((w, next)) => Ok((w as i64, next)),
        Err(e) => Err(e),
    }
}

/// Reads a little-endian IEEE-754 double at `pos`, as its bit pattern.
pub fn read_f64_bits(bytes: &[u8], pos: usize) -> (r: Result<(u64, usize), ParsingError>)
    ensures
        decoded(r) == word_field(bytes@, pos as int),
{
    read_word(bytes, pos)
}

/// Reads the text of the slot of `width` bytes at `pos`: malformed bytes
/// become U+FFFD and trailing zero bytes are dropped.
pub fn read_fixed_string(bytes: &[u8], pos: usize, width: usize) -> (r: Result<(String, usize), ParsingError>)
    ensures
        decoded(r) == fixed_text_field(bytes@, pos as int, width as int),
{
    if pos > bytes.len() || bytes.len() - pos < width {
        return Err(ParsingError::InsufficientBuffer { offset: pos, needed: width });
    }
    Ok((text_in_slot(bytes, pos, width), pos + width))
}

/// Reads zero-terminated UTF-8 text at `pos` and moves past the terminator.
pub fn read_terminated_string(bytes: &[u8], pos: usize) -> (r: Result<(String, usize), ParsingError>)
    ensures
        decoded(r) == terminated_text_field(bytes@, pos as int),
        r matches Ok((_, next)) ==> pos < next <= bytes@.len(),
{
    proof {
        reveal(terminated_text_field);
        if pos <= bytes@.len() {
            lemma_first_zero_bounds(bytes@, pos as int);
        }
    }
    let mut z: usize = pos;
    while z < bytes.len() && bytes[z] != 0
        invariant
            pos <= z,
            first_zero(bytes@, pos as int) == first_zero(bytes@, z as int),
        decreases bytes@.len() - z,
    {
        z = z + 1;
    }
    if z >= bytes.len() {
        return Err(ParsingError::MissingTerminator { offset: pos });
    }
    match utf8_strict(&bytes[pos..z]) {
        Some(text) => Ok((text, z + 1)),
        None => Err(ParsingError::InvalidText { offset: pos }),
    }
}

} // verus!
