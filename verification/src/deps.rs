//! The calls this library makes into other crates, each with the contract
//! that the proofs rely on.
use vstd::prelude::*;
use base64::Engine;

verus! {

/// What the `base64` crate's standard engine (standard alphabet, padding
/// required when decoding) decodes `input` to, or `None` when it refuses it.
pub uninterp spec fn base64_standard_decoding(input: Seq<u8>) -> Option<Seq<u8>>;

/// `base64::engine::general_purpose::STANDARD.decode`: the bytes that the
/// base64 text `input` stands for. The result is a function of the input
/// alone; an error becomes `None`.
#[verifier::external_body]
pub(crate) fn base64_decode(input: &[u8]) -> (r: Option<Vec<u8>>)
    ensures
        match base64_standard_decoding(input@) {
            Some(bytes) => r matches Some(v) && v@ == bytes,
            None => r is None,
        },
{
    base64::engine::general_purpose::STANDARD.decode(input).ok()
}

/// The CRC-32 (IEEE) checksum of `data`, as `crc32fast` computes it.
pub uninterp spec fn crc32_ieee(data: Seq<u8>) -> u32;

/// `crc32fast::hash`: the CRC-32 (IEEE) checksum of `data`, a function of the
/// bytes alone.
#[verifier::external_body]
pub(crate) fn crc32(data: &[u8]) -> (r: u32)
    ensures
        r == crc32_ieee(data@),
{
    crc32fast::hash(data)
}

/// Byte `j` (0 is the least significant) of `w`.
pub open spec fn byte_of(w: u32, j: int) -> u8 {
    if j == 0 {
        (w % 0x100) as u8
    } else if j == 1 {
        ((w / 0x100) % 0x100) as u8
    } else if j == 2 {
        ((w / 0x1_0000) % 0x100) as u8
    } else {
        (w / 0x100_0000) as u8
    }
}

/// The words laid out least significant byte first.
pub open spec fn words_le_bytes(words: Seq<u32>) -> Seq<u8> {
    Seq::new(words.len() * 4, |i: int| byte_of(words[i / 4], i % 4))
}

/// The words laid out most significant byte first.
pub open spec fn words_be_bytes(words: Seq<u32>) -> Seq<u8> {
    Seq::new(words.len() * 4, |i: int| byte_of(words[i / 4], 3 - i % 4))
}

/// The words laid out in the machine's own byte order (vstd's
/// `endianness()`): least significant byte first on a little-endian machine,
/// most significant first on a big-endian one.
pub open spec fn words_native_bytes(words: Seq<u32>) -> Seq<u8> {
    match vstd::endian::endianness() {
        vstd::endian::Endian::Little => words_le_bytes(words),
        vstd::endian::Endian::Big => words_be_bytes(words),
    }
}

/// `bytemuck::cast_slice` from `u32` to `u8`: the memory of the words, byte
/// by byte, so each word in the machine's own byte order. The casting never
/// fails for this pair of types (the target's alignment is 1 and its size
/// divides the source's).
#[verifier::external_body]
pub(crate) fn words_as_bytes(words: &[u32]) -> (r: Vec<u8>)
    ensures
        r@ == words_native_bytes(words@),
{
    bytemuck::cast_slice::<u32, u8>(words).to_vec()
}

/// Appends one character to a string (`String::push`).
#[verifier::external_body]
pub(crate) fn push_char(s: &mut String, c: char)
    ensures
        final(s)@ == old(s)@.push(c),
{
    s.push(c);
}

/// `char::from_u32`: the character whose code is `v`, if `v` is a Unicode
/// scalar value (at most `0x10FFFF` and not a surrogate).
#[verifier::external_body]
pub(crate) fn char_from_u32(v: u32) -> (r: Option<char>)
    ensures
        match r {
            Some(c) => c as u32 == v && c == v as char,
            None => v > 0x10FFFF || (0xD800 <= v <= 0xDFFF),
        },
        (v <= 0x10FFFF && !(0xD800 <= v <= 0xDFFF)) ==> r is Some,
{
    char::from_u32(v)
}

/// `std::str::from_utf8`: the text that `bytes` encode in UTF-8, or `None`
/// when they are not valid UTF-8 (overlong forms, surrogates and values past
/// `0x10FFFF` are refused), in the terms of vstd's `valid_utf8` and
/// `decode_utf8`.
#[verifier::external_body]
pub(crate) fn utf8_text(bytes: &[u8]) -> (r: Option<&str>)
    ensures
        r is Some <==> vstd::utf8::valid_utf8(bytes@),
        r matches Some(s) ==> s@ == vstd::utf8::decode_utf8(bytes@),
{
    std::str::from_utf8(bytes).ok()
}

} // verus!
