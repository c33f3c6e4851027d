//! The vocabulary of the codec: symbol versions, error correction levels,
//! encoding modes and the errors of symbol construction.

use vstd::prelude::*;

verus! {

/// The two symbologies: the full-size QR code and the Micro QR code.
#[derive(Clone, Copy, Debug, PartialEq, Eq, Structural)]
pub enum Variant {
    Normal,
    Micro,
}

/// The character set in which a payload is packed.
#[derive(Clone, Copy, Debug, PartialEq, Eq, Structural)]
pub enum Mode {
    /// ASCII digits only.
    Numeric,
    /// Digits, upper-case letters, space and `$%*+-./:`.
    Alphanumeric,
    /// Arbitrary bytes.
    Byte,
    /// Shift JIS double-byte characters.
    Kanji,
}

/// The error correction level, ordered by increasing redundancy.
#[derive(Clone, Copy, Debug, PartialEq, Eq, Structural)]
pub enum Ecc {
    L,
    M,
    Q,
    H,
}

/// The size class of a symbol.
#[derive(Clone, Copy, Debug, PartialEq, Eq, Structural)]
pub enum Version {
    /// A QR code version, 1 to 40.
    Normal(i16),
    /// A Micro QR code version, 1 to 4.
    Micro(i16),
}

/// Why a symbol could not be constructed.
#[derive(Clone, Copy, Debug, PartialEq, Eq, Structural)]
pub enum QrError {
    /// The payload does not fit the version at the error correction level.
    DataTooLong,
    /// The version is out of range, or does not admit the error correction level.
    InvalidVersion,
    /// The version does not support the encoding mode.
    UnsupportedCharacterSet,
    /// An extended channel designator is out of range.
    InvalidEciDesignator,
    /// A byte of the payload is not legal in the encoding mode.
    InvalidCharacter,
    /// The payload fits the symbol but ends in its last, half codeword, where
    /// the stream cannot be padded.
    UnsupportedLength,
}

/// The version number and error correction level read back from a symbol.
#[derive(Clone, Copy, Debug, PartialEq, Eq, Structural)]
pub struct Metadata {
    pub symbol_version: usize,
    pub error_correction_level: Ecc,
}

impl Version {
    /// Whether the version number lies in its variant's range.
    pub open spec fn valid(self) -> bool {
        match self {
            Version::Normal(v) => 1 <= v <= 40,
            Version::Micro(v) => 1 <= v <= 4,
        }
    }

    /// The version number without its variant.
    pub open spec fn number(self) -> int {
        match self {
            Version::Normal(v) => v as int,
            Version::Micro(v) => v as int,
        }
    }

    /// The variant the version belongs to.
    pub open spec fn variant(self) -> Variant {
        match self {
            Version::Normal(_) => Variant::Normal,
            Version::Micro(_) => Variant::Micro,
        }
    }

    /// The number of modules along one side of the symbol.
    pub open spec fn side(self) -> int {
        match self {
            Version::Normal(v) => v * 4 + 17,
            Version::Micro(v) => v * 2 + 9,
        }
    }

    /// Tests whether the version number lies in its variant's range.
    pub fn is_valid(&self) -> (b: bool)
        ensures
            b == self.valid(),
    {
        match *self {
            Version::Normal(v) => 1 <= v && v <= 40,
            Version::Micro(v) => 1 <= v && v <= 4,
        }
    }

    /// Tests whether the version is a Micro QR code version.
    pub fn is_micro(&self) -> (b: bool)
        ensures
            b == (self.variant() == Variant::Micro),
    {
        match *self {
            Version::Normal(_) => false,
            Version::Micro(_) => true,
        }
    }

    /// The number of modules along one side of the symbol.
    pub fn width(&self) -> (w: usize)
        requires
            self.valid(),
        ensures
            w == self.side(),
            11 <= w <= 177,
    {
        match *self {
            Version::Normal(v) => (v * 4 + 17) as usize,
            Version::Micro(v) => (v * 2 + 9) as usize,
        }
    }
}

impl Metadata {
    /// Pairs a version number with an error correction level.
    pub fn new(symbol_version: usize, error_correction_level: Ecc) -> (m: Metadata)
        ensures
            m.symbol_version == symbol_version,
            m.error_correction_level == error_correction_level,
    {
        Metadata { symbol_version, error_correction_level }
    }

    /// The version number of the symbol.
    pub fn symbol_version(&self) -> (v: usize)
        ensures
            v == self.symbol_version,
    {
        self.symbol_version
    }

    /// The error correction level of the symbol.
    pub fn error_correction_level(&self) -> (e: Ecc)
        ensures
            e == self.error_correction_level,
    {
        self.error_correction_level
    }
}

} // verus!
