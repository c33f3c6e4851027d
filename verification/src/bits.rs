//! The bit stream of a symbol: the header and packed data of a payload, and
//! the terminator and padding that fill it up to the symbol's capacity.
//!
//! The stream itself is `qrencode`'s `Bits`. This module states what its
//! operations do to the stream and decides which of them may be called.

use vstd::prelude::*;
use vstd::arithmetic::power2::{lemma2_to64, lemma_pow2_strictly_increases};
use qrencode::bits::Bits;
use qrencode::types::QrError as StreamError;
use qrencode::EcLevel;
use crate::charset::legal;
use crate::packing::{
    can_pad, codewords, count_fits, length_bits_count, lemma_terminated_fills, mode_supported,
    paddable, segment_bits, terminated_bits, MAX_PUSH_LEN,
};
use crate::types::{Ecc, Mode, QrError, Version};

verus! {

#[verifier::external_type_specification]
#[verifier::external_body]
pub struct ExBits(qrencode::bits::Bits);

/// The bits that a stream holds, first pushed first.
pub uninterp spec fn bits_content(bits: Bits) -> Seq<bool>;

/// The version that a stream was made for.
pub uninterp spec fn bits_version(bits: Bits) -> Version;

/// The data capacities in bits of the QR code version `v`, from 1 to 40, at
/// the levels L, M, Q and H in this order.
pub open spec fn normal_capacities(v: int) -> (nat, nat, nat, nat) {
    if v == 1 {
        (152, 128, 104, 72)
    } else if v == 2 {
        (272, 224, 176, 128)
    } else if v == 3 {
        (440, 352, 272, 208)
    } else if v == 4 {
        (640, 512, 384, 288)
    } else if v == 5 {
        (864, 688, 496, 368)
    } else if v == 6 {
        (1088, 864, 608, 480)
    } else if v == 7 {
        (1248, 992, 704, 528)
    } else if v == 8 {
        (1552, 1232, 880, 688)
    } else if v == 9 {
        (1856, 1456, 1056, 800)
    } else if v == 10 {
        (2192, 1728, 1232, 976)
    } else if v == 11 {
        (2592, 2032, 1440, 1120)
    } else if v == 12 {
        (2960, 2320, 1648, 1264)
    } else if v == 13 {
        (3424, 2672, 1952, 1440)
    } else if v == 14 {
        (3688, 2920, 2088, 1576)
    } else if v == 15 {
        (4184, 3320, 2360, 1784)
    } else if v == 16 {
        (4712, 3624, 2600, 2024)
    } else if v == 17 {
        (5176, 4056, 2936, 2264)
    } else if v == 18 {
        (5768, 4504, 3176, 2504)
    } else if v == 19 {
        (6360, 5016, 3560, 2728)
    } else if v == 20 {
        (6888, 5352, 3880, 3080)
    } else if v == 21 {
        (7456, 5712, 4096, 3248)
    } else if v == 22 {
        (8048, 6256, 4544, 3536)
    } else if v == 23 {
        (8752, 6880, 4912, 3712)
    } else if v == 24 {
        (9392, 7312, 5312, 4112)
    } else if v == 25 {
        (10208, 8000, 5744, 4304)
    } else if v == 26 {
        (10960, 8496, 6032, 4768)
    } else if v == 27 {
        (11744, 9024, 6464, 5024)
    } else if v == 28 {
        (12248, 9544, 6968, 5288)
    } else if v == 29 {
        (13048, 10136, 7288, 5608)
    } else if v == 30 {
        (13880, 10984, 7880, 5960)
    } else if v == 31 {
        (14744, 11640, 8264, 6344)
    } else if v == 32 {
        (15640, 12328, 8920, 6760)
    } else if v == 33 {
        (16568, 13048, 9368, 7208)
    } else if v == 34 {
        (17528, 13800, 9848, 7688)
    } else if v == 35 {
        (18448, 14496, 10288, 7888)
    } else if v == 36 {
        (19472, 15312, 10832, 8432)
    } else if v == 37 {
        (20528, 15936, 11408, 8768)
    } else if v == 38 {
        (21616, 16816, 12016, 9136)
    } else if v == 39 {
        (22496, 17728, 12656, 9776)
    } else {
        (23648, 18672, 13328, 10208)
    }
}

/// The data capacities in bits of the Micro QR code version `v`, from 1 to 4,
/// at the levels L, M, Q and H in this order; zero where the version lacks
/// the level.
pub open spec fn micro_capacities(v: int) -> (nat, nat, nat, nat) {
    if v == 1 {
        (20, 0, 0, 0)
    } else if v == 2 {
        (40, 32, 0, 0)
    } else if v == 3 {
        (84, 68, 0, 0)
    } else {
        (128, 112, 80, 0)
    }
}

/// The number of data bits of a symbol of a version that admits the error
/// correction level.
pub open spec fn capacity(version: Version, ec_level: Ecc) -> nat {
    let row = match version {
        Version::Normal(v) => normal_capacities(v as int),
        Version::Micro(v) => micro_capacities(v as int),
    };
    match ec_level {
        Ecc::L => row.0,
        Ecc::M => row.1,
        Ecc::Q => row.2,
        Ecc::H => row.3,
    }
}

/// Whether a version is in range and admits the error correction level. A QR
/// code version admits every level. The Micro QR code version 1 admits only
/// L, the versions 2 and 3 admit L and M, and version 4 admits L, M and Q.
pub open spec fn level_admitted(version: Version, ec_level: Ecc) -> bool {
    match version {
        Version::Normal(v) => 1 <= v <= 40,
        Version::Micro(v) => match ec_level {
            Ecc::L => 1 <= v <= 4,
            Ecc::M => 2 <= v <= 4,
            Ecc::Q => v == 4,
            Ecc::H => false,
        },
    }
}

/// How the push of a legal payload of `len` bytes into a stream of a valid
/// version ends.
pub open spec fn header_outcome(version: Version, mode: Mode, len: nat) -> Result<(), QrError> {
    if !mode_supported(version, mode) {
        Err(QrError::UnsupportedCharacterSet)
    } else if !count_fits(version, mode, len) {
        Err(QrError::DataTooLong)
    } else {
        Ok(())
    }
}

/// How the termination of a paddable stream of `len` bits ends.
pub open spec fn terminator_outcome(version: Version, ec_level: Ecc, len: nat) -> Result<
    (),
    QrError,
> {
    if !level_admitted(version, ec_level) {
        Err(QrError::InvalidVersion)
    } else if len > capacity(version, ec_level) {
        Err(QrError::DataTooLong)
    } else {
        Ok(())
    }
}

/// Whether a stream of `len` bits can be terminated: where the version admits
/// the error correction level and the stream is not longer than the capacity,
/// the stream can be padded up to the capacity.
pub open spec fn terminable(version: Version, ec_level: Ecc, len: nat) -> bool {
    level_admitted(version, ec_level) && len <= capacity(version, ec_level) ==> paddable(
        version,
        len,
        capacity(version, ec_level),
    )
}

/// Whether a stream fills the data codewords of its version at the error
/// correction level, as it does once it has been terminated.
pub open spec fn sealed(bits: Bits, ec_level: Ecc) -> bool {
    &&& level_admitted(bits_version(bits), ec_level)
    &&& codewords(bits_content(bits).len()) == codewords(capacity(bits_version(bits), ec_level))
}

/// `Bits::new`: an empty stream for the version.
#[verifier::external_body]
pub(crate) fn bits_new(version: Version) -> (bits: Bits)
    ensures
        bits_content(bits) == Seq::<bool>::empty(),
        bits_version(bits) == version,
{
    Bits::new(
        match version {
            Version::Normal(v) => qrencode::Version::Normal(v),
            Version::Micro(v) => qrencode::Version::Micro(v),
        },
    )
}

/// `Bits::version`: the version that the stream was made for.
#[verifier::external_body]
pub(crate) fn bits_version_of(bits: &Bits) -> (version: Version)
    ensures
        version == bits_version(*bits),
{
    match bits.version() {
        qrencode::Version::Normal(v) => Version::Normal(v),
        qrencode::Version::Micro(v) => Version::Micro(v),
    }
}

/// `Bits::len`: the number of bits pushed so far.
#[verifier::external_body]
pub(crate) fn bits_len(bits: &Bits) -> (len: usize)
    ensures
        len == bits_content(*bits).len(),
{
    bits.len()
}

/// `Bits::max_len`: the data capacity in bits of the stream's version at the
/// error correction level, which it looks up in a fixed table of 44 rows, the
/// 40 QR code versions and then the 4 Micro QR code versions, of 4 levels
/// each; or `None` where the version is out of range or the table's entry
/// for the two is zero, as it is for the levels that a Micro QR code version
/// lacks.
#[verifier::external_body]
pub(crate) fn bits_max_len(bits: &Bits, ec_level: Ecc) -> (r: Option<usize>)
    ensures
        r is Some <==> level_admitted(bits_version(*bits), ec_level),
        r matches Some(c) ==> c == capacity(bits_version(*bits), ec_level),
{
    let level = match ec_level {
        Ecc::L => EcLevel::L,
        Ecc::M => EcLevel::M,
        Ecc::Q => EcLevel::Q,
        Ecc::H => EcLevel::H,
    };
    bits.max_len(level).ok()
}

/// `Bits::push_numeric_data`: appends the mode indicator, the character count
/// and the digits, three of them to ten bits. Where the version lacks the mode
/// it fails with `UnsupportedCharacterSet` and appends nothing; where the count
/// overflows its indicator it fails with `DataTooLong`, the mode indicator
/// appended. Its arithmetic overflows on a byte that is no digit and on a
/// length whose tenfold does not fit, which `requires` leaves out.
#[verifier::external_body]
pub(crate) fn bits_push_numeric(bits: &mut Bits, data: &[u8]) -> (r: Result<(), QrError>)
    requires
        bits_version(*old(bits)).valid(),
        legal(Mode::Numeric, data@),
        data@.len() <= MAX_PUSH_LEN,
    ensures
        bits_version(*final(bits)) == bits_version(*old(bits)),
        r == header_outcome(bits_version(*old(bits)), Mode::Numeric, data@.len()),
        r is Ok ==> bits_content(*final(bits)) == bits_content(*old(bits)) + segment_bits(
            bits_version(*old(bits)),
            Mode::Numeric,
            data@,
        ),
        r is Err ==> bits_content(*old(bits)).is_prefix_of(bits_content(*final(bits))),
{
    match bits.push_numeric_data(data) {
        Ok(()) => Ok(()),
        Err(StreamError::DataTooLong) => Err(QrError::DataTooLong),
        Err(StreamError::InvalidVersion) => Err(QrError::InvalidVersion),
        Err(StreamError::UnsupportedCharacterSet) => Err(QrError::UnsupportedCharacterSet),
        Err(StreamError::InvalidEciDesignator) => Err(QrError::InvalidEciDesignator),
        Err(StreamError::InvalidCharacter) => Err(QrError::InvalidCharacter),
    }
}

/// `Bits::push_alphanumeric_data`: appends the mode indicator, the character
/// count and the characters, two of them to eleven bits. It fails as
/// `bits_push_numeric` does. It packs a byte outside the character set as if
/// it were `0`, which `requires` leaves out.
#[verifier::external_body]
pub(crate) fn bits_push_alphanumeric(bits: &mut Bits, data: &[u8]) -> (r: Result<(), QrError>)
    requires
        bits_version(*old(bits)).valid(),
        legal(Mode::Alphanumeric, data@),
        data@.len() <= MAX_PUSH_LEN,
    ensures
        bits_version(*final(bits)) == bits_version(*old(bits)),
        r == header_outcome(bits_version(*old(bits)), Mode::Alphanumeric, data@.len()),
        r is Ok ==> bits_content(*final(bits)) == bits_content(*old(bits)) + segment_bits(
            bits_version(*old(bits)),
            Mode::Alphanumeric,
            data@,
        ),
        r is Err ==> bits_content(*old(bits)).is_prefix_of(bits_content(*final(bits))),
{
    match bits.push_alphanumeric_data(data) {
        Ok(()) => Ok(()),
        Err(StreamError::DataTooLong) => Err(QrError::DataTooLong),
        Err(StreamError::InvalidVersion) => Err(QrError::InvalidVersion),
        Err(StreamError::UnsupportedCharacterSet) => Err(QrError::UnsupportedCharacterSet),
        Err(StreamError::InvalidEciDesignator) => Err(QrError::InvalidEciDesignator),
        Err(StreamError::InvalidCharacter) => Err(QrError::InvalidCharacter),
    }
}

/// `Bits::push_byte_data`: appends the mode indicator, the character count and
/// the bytes, eight bits each. It fails as `bits_push_numeric` does.
#[verifier::external_body]
pub(crate) fn bits_push_byte(bits: &mut Bits, data: &[u8]) -> (r: Result<(), QrError>)
    requires
        bits_version(*old(bits)).valid(),
        data@.len() <= MAX_PUSH_LEN,
    ensures
        bits_version(*final(bits)) == bits_version(*old(bits)),
        r == header_outcome(bits_version(*old(bits)), Mode::Byte, data@.len()),
        r is Ok ==> bits_content(*final(bits)) == bits_content(*old(bits)) + segment_bits(
            bits_version(*old(bits)),
            Mode::Byte,
            data@,
        ),
        r is Err ==> bits_content(*old(bits)).is_prefix_of(bits_content(*final(bits))),
{
    match bits.push_byte_data(data) {
        Ok(()) => Ok(()),
        Err(StreamError::DataTooLong) => Err(QrError::DataTooLong),
        Err(StreamError::InvalidVersion) => Err(QrError::InvalidVersion),
        Err(StreamError::UnsupportedCharacterSet) => Err(QrError::UnsupportedCharacterSet),
        Err(StreamError::InvalidEciDesignator) => Err(QrError::InvalidEciDesignator),
        Err(StreamError::InvalidCharacter) => Err(QrError::InvalidCharacter),
    }
}

/// `Bits::push_kanji_data`: appends the mode indicator, the character count
/// and the double-byte characters, thirteen bits each. It fails as
/// `bits_push_numeric` does. Its arithmetic overflows on a pair outside the
/// Kanji ranges, and it fails late on a lone last byte; `requires` leaves both
/// out.
#[verifier::external_body]
pub(crate) fn bits_push_kanji(bits: &mut Bits, data: &[u8]) -> (r: Result<(), QrError>)
    requires
        bits_version(*old(bits)).valid(),
        legal(Mode::Kanji, data@),
        data@.len() <= MAX_PUSH_LEN,
    ensures
        bits_version(*final(bits)) == bits_version(*old(bits)),
        r == header_outcome(bits_version(*old(bits)), Mode::Kanji, data@.len()),
        r is Ok ==> bits_content(*final(bits)) == bits_content(*old(bits)) + segment_bits(
            bits_version(*old(bits)),
            Mode::Kanji,
            data@,
        ),
        r is Err ==> bits_content(*old(bits)).is_prefix_of(bits_content(*final(bits))),
{
    match bits.push_kanji_data(data) {
        Ok(()) => Ok(()),
        Err(StreamError::DataTooLong) => Err(QrError::DataTooLong),
        Err(StreamError::InvalidVersion) => Err(QrError::InvalidVersion),
        Err(StreamError::UnsupportedCharacterSet) => Err(QrError::UnsupportedCharacterSet),
        Err(StreamError::InvalidEciDesignator) => Err(QrError::InvalidEciDesignator),
        Err(StreamError::InvalidCharacter) => Err(QrError::InvalidCharacter),
    }
}

/// `Bits::push_terminator`: appends the terminator, as far as it fits, and
/// pads the stream up to the capacity of the version at the error correction
/// level, so that it fills the symbol's data codewords. It fails with
/// `InvalidVersion` where the version has no capacity at the level, and with
/// `DataTooLong` where the stream is longer than the capacity. Where the
/// capacity ends in half a codeword, its count of padding bytes underflows on
/// a stream that reaches into that half, which `requires` leaves out.
#[verifier::external_body]
pub(crate) fn bits_push_terminator(bits: &mut Bits, ec_level: Ecc) -> (r: Result<(), QrError>)
    requires
        bits_version(*old(bits)).valid(),
        terminable(bits_version(*old(bits)), ec_level, bits_content(*old(bits)).len()),
    ensures
        bits_version(*final(bits)) == bits_version(*old(bits)),
        r == terminator_outcome(
            bits_version(*old(bits)),
            ec_level,
            bits_content(*old(bits)).len(),
        ),
        r is Ok ==> bits_content(*final(bits)) == terminated_bits(
            bits_content(*old(bits)),
            bits_version(*old(bits)),
            capacity(bits_version(*old(bits)), ec_level),
        ),
        r is Err ==> bits_content(*final(bits)) == bits_content(*old(bits)),
{
    let level = match ec_level {
        Ecc::L => EcLevel::L,
        Ecc::M => EcLevel::M,
        Ecc::Q => EcLevel::Q,
        Ecc::H => EcLevel::H,
    };
    match bits.push_terminator(level) {
        Ok(()) => Ok(()),
        Err(StreamError::DataTooLong) => Err(QrError::DataTooLong),
        Err(StreamError::InvalidVersion) => Err(QrError::InvalidVersion),
        Err(StreamError::UnsupportedCharacterSet) => Err(QrError::UnsupportedCharacterSet),
        Err(StreamError::InvalidEciDesignator) => Err(QrError::InvalidEciDesignator),
        Err(StreamError::InvalidCharacter) => Err(QrError::InvalidCharacter),
    }
}

/// How the push of a payload into a stream of the version ends: the version
/// is checked first, then the payload against the mode, then the mode against
/// the version, then the character count against its indicator.
pub open spec fn push_outcome(version: Version, mode: Mode, data: Seq<u8>) -> Result<(), QrError> {
    if !version.valid() {
        Err(QrError::InvalidVersion)
    } else if !legal(mode, data) {
        Err(QrError::InvalidCharacter)
    } else {
        header_outcome(version, mode, data.len())
    }
}

/// How the termination of a stream of `len` bits ends: the version is
/// checked against the error correction level first, then the stream against
/// the capacity, then whether it can be padded.
pub open spec fn finish_outcome(version: Version, ec_level: Ecc, len: nat) -> Result<
    (),
    QrError,
> {
    if !level_admitted(version, ec_level) {
        Err(QrError::InvalidVersion)
    } else if len > capacity(version, ec_level) {
        Err(QrError::DataTooLong)
    } else if !paddable(version, len, capacity(version, ec_level)) {
        Err(QrError::UnsupportedLength)
    } else {
        Ok(())
    }
}

/// Encodes data for the selected mode to the bits. The payload is validated
/// against the mode before anything is appended: where a byte is illegal in
/// the mode, or the stream's version is out of range, the stream is left as it
/// was.
pub fn push_data_for_selected_mode(bits: &mut Bits, data: &[u8], mode: &Mode) -> (r: Result<
    (),
    QrError,
>)
    ensures
        bits_version(*final(bits)) == bits_version(*old(bits)),
        r == push_outcome(bits_version(*old(bits)), *mode, data@),
        r is Ok ==> bits_content(*final(bits)) == bits_content(*old(bits)) + segment_bits(
            bits_version(*old(bits)),
            *mode,
            data@,
        ),
        r is Err ==> bits_content(*old(bits)).is_prefix_of(bits_content(*final(bits))),
        r == Err::<(), QrError>(QrError::InvalidVersion) || r == Err::<(), QrError>(
            QrError::InvalidCharacter,
        ) ==> bits_content(*final(bits)) == bits_content(*old(bits)),
{
    let version = bits_version_of(bits);
    if !version.is_valid() {
        return Err(QrError::InvalidVersion);
    }
    if !mode.admits(data) {
        return Err(QrError::InvalidCharacter);
    }
    if data.len() > MAX_PUSH_LEN {
        proof {
            lemma2_to64();
            if length_bits_count(version, *mode) < 16 {
                lemma_pow2_strictly_increases(length_bits_count(version, *mode), 16);
            }
        }
        return if version.supports(*mode) {
            Err(QrError::DataTooLong)
        } else {
            Err(QrError::UnsupportedCharacterSet)
        };
    }
    match *mode {
        Mode::Numeric => bits_push_numeric(bits, data),
        Mode::Alphanumeric => bits_push_alphanumeric(bits, data),
        Mode::Byte => bits_push_byte(bits, data),
        Mode::Kanji => bits_push_kanji(bits, data),
    }
}

/// Appends the terminator to the stream and pads it up to the capacity of its
/// version at the error correction level. On an error the stream is left as
/// it was.
pub fn push_terminator(bits: &mut Bits, ec_level: Ecc) -> (r: Result<(), QrError>)
    ensures
        bits_version(*final(bits)) == bits_version(*old(bits)),
        r == finish_outcome(
            bits_version(*old(bits)),
            ec_level,
            bits_content(*old(bits)).len(),
        ),
        r is Ok ==> bits_content(*final(bits)) == terminated_bits(
            bits_content(*old(bits)),
            bits_version(*old(bits)),
            capacity(bits_version(*old(bits)), ec_level),
        ),
        r is Ok ==> sealed(*final(bits), ec_level),
        r is Err ==> bits_content(*final(bits)) == bits_content(*old(bits)),
{
    let version = bits_version_of(bits);
    let len = bits_len(bits);
    match bits_max_len(bits, ec_level) {
        None => Err(QrError::InvalidVersion),
        Some(cap) => {
            if len > cap {
                Err(QrError::DataTooLong)
            } else if !can_pad(&version, len, cap) {
                Err(QrError::UnsupportedLength)
            } else {
                proof {
                    lemma_terminated_fills(bits_content(*bits), version, cap as nat);
                }
                bits_push_terminator(bits, ec_level)
            }
        },
    }
}

/// Tests whether a version is in range and admits the error correction level.
pub fn admits_level(version: &Version, ec_level: Ecc) -> (r: bool)
    ensures
        r == level_admitted(*version, ec_level),
{
    match *version {
        Version::Normal(v) => 1 <= v && v <= 40,
        Version::Micro(v) => match ec_level {
            Ecc::L => 1 <= v && v <= 4,
            Ecc::M => 2 <= v && v <= 4,
            Ecc::Q => v == 4,
            Ecc::H => false,
        },
    }
}

/// The data capacities in bits of a QR code version at the four levels.
fn normal_row(v: i16) -> (r: (usize, usize, usize, usize))
    requires
        1 <= v <= 40,
    ensures
        r.0 == normal_capacities(v as int).0,
        r.1 == normal_capacities(v as int).1,
        r.2 == normal_capacities(v as int).2,
        r.3 == normal_capacities(v as int).3,
{
    if v == 1 {
        (152, 128, 104, 72)
    } else if v == 2 {
        (272, 224, 176, 128)
    } else if v == 3 {
        (440, 352, 272, 208)
    } else if v == 4 {
        (640, 512, 384, 288)
    } else if v == 5 {
        (864, 688, 496, 368)
    } else if v == 6 {
        (1088, 864, 608, 480)
    } else if v == 7 {
        (1248, 992, 704, 528)
    } else if v == 8 {
        (1552, 1232, 880, 688)
    } else if v == 9 {
        (1856, 1456, 1056, 800)
    } else if v == 10 {
        (2192, 1728, 1232, 976)
    } else if v == 11 {
        (2592, 2032, 1440, 1120)
    } else if v == 12 {
        (2960, 2320, 1648, 1264)
    } else if v == 13 {
        (3424, 2672, 1952, 1440)
    } else if v == 14 {
        (3688, 2920, 2088, 1576)
    } else if v == 15 {
        (4184, 3320, 2360, 1784)
    } else if v == 16 {
        (4712, 3624, 2600, 2024)
    } else if v == 17 {
        (5176, 4056, 2936, 2264)
    } else if v == 18 {
        (5768, 4504, 3176, 2504)
    } else if v == 19 {
        (6360, 5016, 3560, 2728)
    } else if v == 20 {
        (6888, 5352, 3880, 3080)
    } else if v == 21 {
        (7456, 5712, 4096, 3248)
    } else if v == 22 {
        (8048, 6256, 4544, 3536)
    } else if v == 23 {
        (8752, 6880, 4912, 3712)
    } else if v == 24 {
        (9392, 7312, 5312, 4112)
    } else if v == 25 {
        (10208, 8000, 5744, 4304)
    } else if v == 26 {
        (10960, 8496, 6032, 4768)
    } else if v == 27 {
        (11744, 9024, 6464, 5024)
    } else if v == 28 {
        (12248, 9544, 6968, 5288)
    } else if v == 29 {
        (13048, 10136, 7288, 5608)
    } else if v == 30 {
        (13880, 10984, 7880, 5960)
    } else if v == 31 {
        (14744, 11640, 8264, 6344)
    } else if v == 32 {
        (15640, 12328, 8920, 6760)
    } else if v == 33 {
        (16568, 13048, 9368, 7208)
    } else if v == 34 {
        (17528, 13800, 9848, 7688)
    } else if v == 35 {
        (18448, 14496, 10288, 7888)
    } else if v == 36 {
        (19472, 15312, 10832, 8432)
    } else if v == 37 {
        (20528, 15936, 11408, 8768)
    } else if v == 38 {
        (21616, 16816, 12016, 9136)
    } else if v == 39 {
        (22496, 17728, 12656, 9776)
    } else {
        (23648, 18672, 13328, 10208)
    }
}

/// The data capacities in bits of a Micro QR code version at the four levels.
fn micro_row(v: i16) -> (r: (usize, usize, usize, usize))
    requires
        1 <= v <= 4,
    ensures
        r.0 == micro_capacities(v as int).0,
        r.1 == micro_capacities(v as int).1,
        r.2 == micro_capacities(v as int).2,
        r.3 == micro_capacities(v as int).3,
{
    if v == 1 {
        (20, 0, 0, 0)
    } else if v == 2 {
        (40, 32, 0, 0)
    } else if v == 3 {
        (84, 68, 0, 0)
    } else {
        (128, 112, 80, 0)
    }
}

/// The number of data bits of a symbol of the version at the error
/// correction level, or `None` where the version is out of range or does not
/// admit the level.
pub fn capacity_of(version: &Version, ec_level: Ecc) -> (r: Option<usize>)
    ensures
        r is Some <==> level_admitted(*version, ec_level),
        r matches Some(c) ==> c == capacity(*version, ec_level),
{
    if !admits_level(version, ec_level) {
        return None;
    }
    let row = match *version {
        Version::Normal(v) => normal_row(v),
        Version::Micro(v) => micro_row(v),
    };
    Some(
        match ec_level {
            Ecc::L => row.0,
            Ecc::M => row.1,
            Ecc::Q => row.2,
            Ecc::H => row.3,
        },
    )
}

/// The capacity of a QR code version is a whole number of codewords, so a
/// stream that fits it can always be padded.
pub proof fn lemma_normal_streams_can_be_padded(v: int, ec_level: Ecc, len: nat)
    requires
        1 <= v <= 40,
        len <= capacity(Version::Normal(v as i16), ec_level),
    ensures
        capacity(Version::Normal(v as i16), ec_level) % 8 == 0,
        paddable(Version::Normal(v as i16), len, capacity(Version::Normal(v as i16), ec_level)),
{
}

/// A larger QR code version has the larger capacity at every level, and a
/// higher level has the smaller capacity in every version.
pub proof fn lemma_capacity_is_ordered(v: int, ec_level: Ecc)
    requires
        1 <= v <= 40,
    ensures
        v < 40 ==> capacity(Version::Normal(v as i16), ec_level) < capacity(
            Version::Normal((v + 1) as i16),
            ec_level,
        ),
        capacity(Version::Normal(v as i16), Ecc::L) > capacity(Version::Normal(v as i16), Ecc::M),
        capacity(Version::Normal(v as i16), Ecc::M) > capacity(Version::Normal(v as i16), Ecc::Q),
        capacity(Version::Normal(v as i16), Ecc::Q) > capacity(Version::Normal(v as i16), Ecc::H),
{
}

/// Tests whether the stream fills the data codewords of its version at the
/// error correction level, so that a symbol can be made of it.
pub fn fills_symbol(bits: &Bits, ec_level: Ecc) -> (r: bool)
    ensures
        r == sealed(*bits, ec_level),
{
    let len = bits_len(bits);
    match bits_max_len(bits, ec_level) {
        None => false,
        Some(cap) => {
            let have = len / 8 + if len % 8 == 0 {
                0
            } else {
                1
            };
            let need = cap / 8 + if cap % 8 == 0 {
                0
            } else {
                1
            };
            have == need
        },
    }
}

} // verus!
