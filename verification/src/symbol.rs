//! The stream that goes into a symbol, and the symbol that comes of it: a
//! square matrix of modules with its version and error correction level.
//!
//! The library prepares the terminated stream and holds the finished symbol.
//! The step between the two, which codes the stream against errors, places it
//! in the matrix and masks it, is the caller's to take.

use vstd::prelude::*;
use vstd::arithmetic::power2::{lemma2_to64, lemma_pow2_strictly_increases};
use qrencode::bits::Bits;
use crate::bits::{
    admits_level, bits_content, bits_new, bits_version, capacity, capacity_of, finish_outcome,
    lemma_capacity_is_ordered, lemma_normal_streams_can_be_padded, level_admitted,
    push_data_for_selected_mode, push_outcome, push_terminator, sealed,
};
use crate::charset::legal;
use crate::lossless::lemma_stream_determines_payload;
use crate::packing::{
    can_pad, count_fits, length_bits_count, lemma_segment_len, lemma_terminated_fills,
    mode_supported, segment_bits, segment_len, terminated_bits, MAX_PUSH_LEN,
};
use crate::types::{Ecc, Metadata, Mode, QrError, Version};

verus! {

/// How the construction of a symbol from a payload in one mode ends.
pub open spec fn construct_outcome(version: Version, mode: Mode, data: Seq<u8>, ec_level: Ecc)
    -> Result<(), QrError> {
    if push_outcome(version, mode, data) is Err {
        push_outcome(version, mode, data)
    } else {
        finish_outcome(version, ec_level, segment_len(version, mode, data.len()))
    }
}

/// The terminated stream of the symbol that holds a payload in one mode.
pub open spec fn symbol_stream(version: Version, mode: Mode, data: Seq<u8>, ec_level: Ecc) -> Seq<
    bool,
> {
    terminated_bits(segment_bits(version, mode, data), version, capacity(version, ec_level))
}

/// Whether a stream is the terminated stream of the symbol of the version
/// that holds the payload in the mode: it is of that version, it holds those
/// bits and it fills the symbol's data codewords.
pub open spec fn is_symbol_stream(
    bits: Bits,
    version: Version,
    mode: Mode,
    data: Seq<u8>,
    ec_level: Ecc,
) -> bool {
    &&& bits_version(bits) == version
    &&& bits_content(bits) == symbol_stream(version, mode, data, ec_level)
    &&& sealed(bits, ec_level)
}

/// The longest payload in bytes that the automatic choice of the version
/// takes at an error correction level: what version 40 holds in the byte mode
/// beside the 20 bits of its header.
pub open spec fn byte_limit(ec_level: Ecc) -> nat {
    ((capacity(Version::Normal(40), ec_level) - 20) / 8) as nat
}

/// Whether the QR code version `v` holds the payload in the byte mode.
pub open spec fn holds_bytes(v: int, data: Seq<u8>, ec_level: Ecc) -> bool {
    &&& 1 <= v <= 40
    &&& construct_outcome(Version::Normal(v as i16), Mode::Byte, data, ec_level) is Ok
}

/// A constructed symbol. It does not change once it is made.
#[derive(Debug)]
pub struct QrCode {
    content: Vec<bool>,
    version: Version,
    ec_level: Ecc,
    width: usize,
}

impl QrCode {
    #[verifier::type_invariant]
    spec fn well_formed(self) -> bool {
        &&& level_admitted(self.version, self.ec_level)
        &&& self.width == self.version.side()
        &&& self.content@.len() == self.width * self.width
    }

    /// The version of the symbol.
    pub closed spec fn spec_version(&self) -> Version {
        self.version
    }

    /// The error correction level of the symbol.
    pub closed spec fn spec_ec_level(&self) -> Ecc {
        self.ec_level
    }

    /// The modules of the symbol, row by row, `true` for a dark module.
    pub closed spec fn modules(&self) -> Seq<bool> {
        self.content@
    }

    /// What is read back from the symbol: its version number and its error
    /// correction level.
    pub open spec fn spec_metadata(&self) -> Metadata {
        Metadata {
            symbol_version: self.spec_version().number() as usize,
            error_correction_level: self.spec_ec_level(),
        }
    }

    /// Gets the version of this symbol.
    pub fn version(&self) -> (v: Version)
        ensures
            v == self.spec_version(),
            v.valid(),
    {
        proof {
            use_type_invariant(self);
        }
        self.version
    }

    /// Gets the error correction level of this symbol.
    pub fn error_correction_level(&self) -> (e: Ecc)
        ensures
            e == self.spec_ec_level(),
            level_admitted(self.spec_version(), e),
    {
        proof {
            use_type_invariant(self);
        }
        self.ec_level
    }

    /// Gets the number of modules per side, without any margin.
    pub fn width(&self) -> (w: usize)
        ensures
            w == self.spec_version().side(),
            self.modules().len() == w * w,
            11 <= w <= 177,
    {
        proof {
            use_type_invariant(self);
        }
        self.width
    }

    /// Copies the modules out, row by row, `true` for a dark module.
    pub fn to_colors(&self) -> (m: Vec<bool>)
        ensures
            m@ == self.modules(),
    {
        let mut m: Vec<bool> = Vec::new();
        let n = self.content.len();
        let mut i: usize = 0;
        while i < n
            invariant
                n == self.content@.len(),
                i <= n,
                m@ == self.content@.take(i as int),
            decreases n - i,
        {
            m.push(self.content[i]);
            assert(self.content@.take(i + 1) =~= self.content@.take(i as int).push(
                self.content@[i as int],
            ));
            i += 1;
        }
        assert(self.content@.take(n as int) =~= self.content@);
        m
    }

    /// Tests whether the module in column `x` of row `y` is dark.
    pub fn is_dark(&self, x: usize, y: usize) -> (d: bool)
        requires
            x < self.spec_version().side(),
            y < self.spec_version().side(),
        ensures
            d == self.modules()[y * self.spec_version().side() + x],
    {
        proof {
            use_type_invariant(self);
            assert(y * self.width + x < self.width * self.width) by (nonlinear_arith)
                requires
                    x < self.width,
                    y < self.width,
            ;
            assert(self.width * self.width <= 177 * 177) by (nonlinear_arith)
                requires
                    self.width <= 177,
            ;
        }
        self.content[y * self.width + x]
    }

    /// Reads the version number and the error correction level back.
    pub fn metadata(&self) -> (m: Metadata)
        ensures
            m == self.spec_metadata(),
    {
        proof {
            use_type_invariant(self);
        }
        let symbol_version = match self.version {
            Version::Normal(version) => version as usize,
            Version::Micro(version) => version as usize,
        };
        Metadata::new(symbol_version, self.ec_level)
    }

    /// The symbol of the version and the error correction level with the
    /// modules given, row by row from the top left, `true` for a dark module;
    /// or `None` where the version is out of range or does not admit the
    /// level, or the modules do not number the side squared.
    pub fn new(version: Version, ec_level: Ecc, modules: Vec<bool>) -> (r: Option<QrCode>)
        ensures
            match r {
                Some(code) => {
                    &&& level_admitted(version, ec_level)
                    &&& modules@.len() == version.side() * version.side()
                    &&& code.spec_version() == version
                    &&& code.spec_ec_level() == ec_level
                    &&& code.modules() == modules@
                },
                None => !level_admitted(version, ec_level) || modules@.len() != version.side()
                    * version.side(),
            },
    {
        if !admits_level(&version, ec_level) {
            return None;
        }
        let width = version.width();
        assert(width * width <= 177 * 177) by (nonlinear_arith)
            requires
                width <= 177,
        ;
        if modules.len() != width * width {
            return None;
        }
        Some(QrCode { content: modules, version, ec_level, width })
    }
}

/// Tests whether the QR code version `v` holds the payload in the byte mode.
fn version_holds_bytes(v: i16, data: &[u8], ec_level: Ecc) -> (r: bool)
    requires
        1 <= v <= 40,
    ensures
        r == holds_bytes(v as int, data@, ec_level),
{
    let version = Version::Normal(v);
    let len = data.len();
    if len > MAX_PUSH_LEN {
        proof {
            lemma2_to64();
            if length_bits_count(version, Mode::Byte) < 16 {
                lemma_pow2_strictly_increases(length_bits_count(version, Mode::Byte), 16);
            }
        }
        return false;
    }
    if !version.count_fits(Mode::Byte, len) {
        return false;
    }
    let needed = version.segment_bits(Mode::Byte, len);
    match capacity_of(&version, ec_level) {
        None => false,
        Some(cap) => needed <= cap && can_pad(&version, needed, cap),
    }
}

/// Encodes the payload in the given mode into the terminated stream of the
/// symbol of the given version.
pub fn encode_with_mode(data: &[u8], version: Version, mode: Mode, ec_level: Ecc) -> (r: Result<
    Bits,
    QrError,
>)
    ensures
        match r {
            Ok(bits) => {
                &&& construct_outcome(version, mode, data@, ec_level) is Ok
                &&& is_symbol_stream(bits, version, mode, data@, ec_level)
            },
            Err(e) => construct_outcome(version, mode, data@, ec_level) == Err::<(), QrError>(e),
        },
{
    let mut bits = bits_new(version);
    match push_data_for_selected_mode(&mut bits, data, &mode) {
        Ok(()) => {},
        Err(e) => {
            return Err(e);
        },
    }
    proof {
        lemma_segment_len(version, mode, data@);
    }
    assert(bits_content(bits) =~= segment_bits(version, mode, data@));
    match push_terminator(&mut bits, ec_level) {
        Ok(()) => Ok(bits),
        Err(e) => Err(e),
    }
}

/// Encodes the payload in the byte mode into the terminated stream of the
/// symbol of the given version.
pub fn encode_with_version(data: &[u8], version: Version, ec_level: Ecc) -> (r: Result<
    Bits,
    QrError,
>)
    ensures
        match r {
            Ok(bits) => {
                &&& construct_outcome(version, Mode::Byte, data@, ec_level) is Ok
                &&& is_symbol_stream(bits, version, Mode::Byte, data@, ec_level)
            },
            Err(e) => construct_outcome(version, Mode::Byte, data@, ec_level) == Err::<
                (),
                QrError,
            >(e),
        },
{
    encode_with_mode(data, version, Mode::Byte, ec_level)
}

/// Encodes the payload in the byte mode into the terminated stream of the
/// symbol of the smallest QR code version that holds it. Where not even
/// version 40 holds it, the payload is refused with `DataTooLong`.
pub fn encode_with_error_correction_level(data: &[u8], ec_level: Ecc) -> (r: Result<
    Bits,
    QrError,
>)
    ensures
        match r {
            Ok(bits) => {
                &&& bits_version(bits) is Normal
                &&& holds_bytes(bits_version(bits).number(), data@, ec_level)
                &&& forall|u: int|
                    1 <= u < bits_version(bits).number() ==> !holds_bytes(u, data@, ec_level)
                &&& is_symbol_stream(bits, bits_version(bits), Mode::Byte, data@, ec_level)
            },
            Err(e) => {
                &&& e == QrError::DataTooLong
                &&& forall|u: int| !holds_bytes(u, data@, ec_level)
            },
        },
        r is Ok <==> data@.len() <= byte_limit(ec_level),
{
    proof {
        lemma_automatic_choice_limit(data@, ec_level);
    }
    let mut v: i16 = 1;
    while v <= 40
        invariant
            1 <= v <= 41,
            forall|u: int| 1 <= u < v ==> !holds_bytes(u, data@, ec_level),
        decreases 41 - v,
    {
        if version_holds_bytes(v, data, ec_level) {
            return encode_with_mode(data, Version::Normal(v), Mode::Byte, ec_level);
        }
        v += 1;
    }
    Err(QrError::DataTooLong)
}

/// Metadata fidelity: what is read back from a symbol is the version number
/// and the error correction level that the symbol was constructed with.
pub proof fn lemma_metadata_fidelity(code: QrCode, version: Version, ec_level: Ecc)
    requires
        code.spec_version() == version,
        code.spec_ec_level() == ec_level,
    ensures
        code.spec_metadata() == (Metadata {
            symbol_version: version.number() as usize,
            error_correction_level: ec_level,
        }),
{
}

/// A construction succeeds only where the version is in range, the payload is
/// legal in the mode, the version supports the mode, the character count fits
/// its indicator, and the segment fits the capacity of the version at the
/// error correction level.
pub proof fn lemma_construction_succeeds_only_where_it_fits(
    version: Version,
    mode: Mode,
    data: Seq<u8>,
    ec_level: Ecc,
)
    requires
        construct_outcome(version, mode, data, ec_level) is Ok,
    ensures
        version.valid(),
        legal(mode, data),
        mode_supported(version, mode),
        count_fits(version, mode, data.len()),
        level_admitted(version, ec_level),
        segment_len(version, mode, data.len()) <= capacity(version, ec_level),
{
}

/// A payload that exceeds the capacity is refused with `DataTooLong`, where
/// nothing else is wrong with it.
pub proof fn lemma_long_payload_is_refused(
    version: Version,
    mode: Mode,
    data: Seq<u8>,
    ec_level: Ecc,
)
    requires
        version.valid(),
        legal(mode, data),
        mode_supported(version, mode),
        level_admitted(version, ec_level),
        segment_len(version, mode, data.len()) > capacity(version, ec_level),
    ensures
        construct_outcome(version, mode, data, ec_level) == Err::<(), QrError>(
            QrError::DataTooLong,
        ),
{
}

/// The stream of a symbol determines its payload: two payloads from which a
/// symbol of one version, mode and error correction level can be constructed,
/// and whose terminated streams are the same bits, are the same payload.
pub proof fn lemma_stream_of_a_symbol_is_lossless(
    version: Version,
    mode: Mode,
    first: Seq<u8>,
    second: Seq<u8>,
    ec_level: Ecc,
)
    requires
        construct_outcome(version, mode, first, ec_level) is Ok,
        construct_outcome(version, mode, second, ec_level) is Ok,
        terminated_bits(
            segment_bits(version, mode, first),
            version,
            capacity(version, ec_level),
        ) == terminated_bits(
            segment_bits(version, mode, second),
            version,
            capacity(version, ec_level),
        ),
    ensures
        first == second,
{
    let cap = capacity(version, ec_level);
    lemma_segment_len(version, mode, first);
    lemma_segment_len(version, mode, second);
    lemma_terminated_fills(segment_bits(version, mode, first), version, cap);
    lemma_terminated_fills(segment_bits(version, mode, second), version, cap);
    lemma_stream_determines_payload(
        version,
        mode,
        first,
        second,
        terminated_bits(segment_bits(version, mode, first), version, cap),
    );
}

/// A larger QR code version has at least the capacity of a smaller one.
pub proof fn lemma_capacity_grows(u: int, w: int, ec_level: Ecc)
    requires
        1 <= u <= w <= 40,
    ensures
        capacity(Version::Normal(u as i16), ec_level) <= capacity(
            Version::Normal(w as i16),
            ec_level,
        ),
    decreases w - u,
{
    if u < w {
        lemma_capacity_is_ordered(u, ec_level);
        lemma_capacity_grows(u + 1, w, ec_level);
    }
}

/// How a payload fares in the byte mode in a QR code version: the version
/// holds it exactly when its character count fits the indicator and its
/// segment fits the capacity. Nothing else can keep it out.
pub proof fn lemma_holds_bytes(v: int, data: Seq<u8>, ec_level: Ecc)
    requires
        1 <= v <= 40,
    ensures
        holds_bytes(v, data, ec_level) <==> {
            &&& count_fits(Version::Normal(v as i16), Mode::Byte, data.len())
            &&& segment_len(Version::Normal(v as i16), Mode::Byte, data.len()) <= capacity(
                Version::Normal(v as i16),
                ec_level,
            )
        },
{
    let version = Version::Normal(v as i16);
    if segment_len(version, Mode::Byte, data.len()) <= capacity(version, ec_level) {
        lemma_normal_streams_can_be_padded(
            v,
            ec_level,
            segment_len(version, Mode::Byte, data.len()),
        );
    }
}

/// The automatic choice of the version takes a payload exactly when the
/// payload is not longer than `byte_limit`: 2953 bytes at L, 2331 at M, 1663
/// at Q and 1273 at H.
pub proof fn lemma_automatic_choice_limit(data: Seq<u8>, ec_level: Ecc)
    ensures
        byte_limit(Ecc::L) == 2953,
        byte_limit(Ecc::M) == 2331,
        byte_limit(Ecc::Q) == 1663,
        byte_limit(Ecc::H) == 1273,
        data.len() <= byte_limit(ec_level) <==> holds_bytes(40, data, ec_level),
        forall|u: int| #[trigger] holds_bytes(u, data, ec_level) ==> holds_bytes(40, data, ec_level),
{
    lemma2_to64();
    lemma_holds_bytes(40, data, ec_level);
    assert forall|u: int| #[trigger] holds_bytes(u, data, ec_level) implies holds_bytes(
        40,
        data,
        ec_level,
    ) by {
        lemma_holds_bytes(u, data, ec_level);
        if u <= 9 {
            lemma_capacity_grows(u, 9, ec_level);
        } else {
            lemma_capacity_grows(u, 40, ec_level);
        }
    }
}

/// Only in the Micro QR code versions 1 and 3, whose capacity ends in half a
/// codeword, can a payload that fits be refused with `UnsupportedLength`.
pub proof fn lemma_unsupported_length_is_micro(
    version: Version,
    mode: Mode,
    data: Seq<u8>,
    ec_level: Ecc,
)
    requires
        construct_outcome(version, mode, data, ec_level) == Err::<(), QrError>(
            QrError::UnsupportedLength,
        ),
    ensures
        version == Version::Micro(1) || version == Version::Micro(3),
{
    if version is Normal {
        lemma_normal_streams_can_be_padded(
            version.number(),
            ec_level,
            segment_len(version, mode, data.len()),
        );
    }
}

/// The empty payload makes a symbol of every QR code version at every level.
pub proof fn lemma_empty_payload_fits(v: int, ec_level: Ecc)
    requires
        1 <= v <= 40,
    ensures
        construct_outcome(Version::Normal(v as i16), Mode::Byte, Seq::<u8>::empty(), ec_level)
            is Ok,
{
    lemma2_to64();
    lemma_capacity_grows(1, v, ec_level);
    lemma_holds_bytes(v, Seq::<u8>::empty(), ec_level);
    if length_bits_count(Version::Normal(v as i16), Mode::Byte) < 16 {
        vstd::arithmetic::power2::lemma_pow2_pos(8);
    }
}

} // verus!
