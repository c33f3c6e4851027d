//! The character sets of the four encoding modes, and the validation of a
//! payload against a mode.

use vstd::prelude::*;
use crate::types::{Mode, QrError};

verus! {

/// A byte of a payload that is illegal in the mode asked for, and where it
/// stands.
#[derive(Clone, Copy, Debug, PartialEq, Eq, Structural)]
pub struct IllegalByte {
    pub position: usize,
    pub byte: u8,
}

/// An ASCII digit.
pub open spec fn is_numeric_byte(b: u8) -> bool {
    0x30 <= b <= 0x39
}

/// One of the 45 characters of the alphanumeric mode: a digit, an upper-case
/// letter, a space or one of `$%*+-./:`.
pub open spec fn is_alphanumeric_byte(b: u8) -> bool {
    ||| 0x30 <= b <= 0x39
    ||| 0x41 <= b <= 0x5a
    ||| b == 0x20
    ||| b == 0x24
    ||| b == 0x25
    ||| b == 0x2a
    ||| b == 0x2b
    ||| 0x2d <= b <= 0x2f
    ||| b == 0x3a
}

/// A Shift JIS double-byte character that the Kanji mode can pack: a code
/// point in 0x8140 to 0x9FFC or in 0xE040 to 0xEBBF whose second byte is a
/// Shift JIS trail byte.
pub open spec fn is_kanji_pair(hi: u8, lo: u8) -> bool {
    &&& 0x81 <= hi <= 0x9f || 0xe0 <= hi <= 0xeb
    &&& 0x40 <= lo <= 0xfc
    &&& lo != 0x7f
    &&& hi == 0xeb ==> lo <= 0xbf
}

/// Whether the byte at position `i` of `data` is legal in `mode`. In Kanji
/// mode a byte is legal when the pair it belongs to is a Kanji character; the
/// bytes pair up from the start of the payload.
pub open spec fn legal_at(mode: Mode, data: Seq<u8>, i: int) -> bool {
    match mode {
        Mode::Numeric => is_numeric_byte(data[i]),
        Mode::Alphanumeric => is_alphanumeric_byte(data[i]),
        Mode::Byte => true,
        Mode::Kanji => {
            let k = i - i % 2;
            k + 1 < data.len() && is_kanji_pair(data[k], data[k + 1])
        },
    }
}

/// Whether every byte of `data` is legal in `mode`.
pub open spec fn legal(mode: Mode, data: Seq<u8>) -> bool {
    forall|i: int| 0 <= i < data.len() ==> legal_at(mode, data, i)
}

/// Whether `p` is the first position of `data` that is illegal in `mode`.
pub open spec fn is_first_illegal(mode: Mode, data: Seq<u8>, p: int) -> bool {
    &&& 0 <= p < data.len()
    &&& !legal_at(mode, data, p)
    &&& forall|i: int| 0 <= i < p ==> legal_at(mode, data, i)
}

/// The mode that a payload is packed in: the requested mode where the payload
/// is legal in it, the byte mode where none is requested.
pub open spec fn selected_mode(data: Seq<u8>, requested: Option<Mode>) -> Result<Mode, QrError> {
    match requested {
        Some(mode) => if legal(mode, data) {
            Ok(mode)
        } else {
            Err(QrError::InvalidCharacter)
        },
        None => Ok(Mode::Byte),
    }
}

/// Tests whether a byte is an ASCII digit.
pub fn numeric_byte(b: u8) -> (r: bool)
    ensures
        r == is_numeric_byte(b),
{
    0x30 <= b && b <= 0x39
}

/// Tests whether a byte belongs to the alphanumeric mode's 45 characters.
pub fn alphanumeric_byte(b: u8) -> (r: bool)
    ensures
        r == is_alphanumeric_byte(b),
{
    (0x30 <= b && b <= 0x39) || (0x41 <= b && b <= 0x5a) || b == 0x20 || b == 0x24 || b == 0x25
        || b == 0x2a || b == 0x2b || (0x2d <= b && b <= 0x2f) || b == 0x3a
}

/// Tests whether two bytes form a character of the Kanji mode.
pub fn kanji_pair(hi: u8, lo: u8) -> (r: bool)
    ensures
        r == is_kanji_pair(hi, lo),
{
    ((0x81 <= hi && hi <= 0x9f) || (0xe0 <= hi && hi <= 0xeb)) && 0x40 <= lo && lo <= 0xfc
        && lo != 0x7f && (hi != 0xeb || lo <= 0xbf)
}

impl Mode {
    /// The first position of `data` that holds a byte illegal in this mode,
    /// or `None` when the whole payload is legal.
    pub fn first_illegal_position(&self, data: &[u8]) -> (r: Option<usize>)
        ensures
            match r {
                Some(p) => is_first_illegal(*self, data@, p as int),
                None => legal(*self, data@),
            },
    {
        let n = data.len();
        match *self {
            Mode::Byte => None,
            Mode::Numeric => {
                let mut i: usize = 0;
                while i < n
                    invariant
                        *self == Mode::Numeric,
                        n == data@.len(),
                        i <= n,
                        forall|j: int| 0 <= j < i ==> legal_at(Mode::Numeric, data@, j),
                    decreases n - i,
                {
                    if !numeric_byte(data[i]) {
                        return Some(i);
                    }
                    i += 1;
                }
                None
            },
            Mode::Alphanumeric => {
                let mut i: usize = 0;
                while i < n
                    invariant
                        *self == Mode::Alphanumeric,
                        n == data@.len(),
                        i <= n,
                        forall|j: int| 0 <= j < i ==> legal_at(Mode::Alphanumeric, data@, j),
                    decreases n - i,
                {
                    if !alphanumeric_byte(data[i]) {
                        return Some(i);
                    }
                    i += 1;
                }
                None
            },
            Mode::Kanji => {
                let mut i: usize = 0;
                while i < n
                    invariant
                        *self == Mode::Kanji,
                        n == data@.len(),
                        i <= n,
                        i % 2 == 0,
                        forall|j: int| 0 <= j < i ==> legal_at(Mode::Kanji, data@, j),
                    decreases n - i,
                {
                    if n - i < 2 || !kanji_pair(data[i], data[i + 1]) {
                        return Some(i);
                    }
                    assert forall|j: int| 0 <= j < i + 2 implies legal_at(Mode::Kanji, data@, j) by {
                        if j >= i {
                            assert(j - j % 2 == i);
                        }
                    }
                    i += 2;
                }
                None
            },
        }
    }

    /// Tests whether every byte of `data` is legal in this mode.
    pub fn admits(&self, data: &[u8]) -> (r: bool)
        ensures
            r == legal(*self, data@),
    {
        self.first_illegal_position(data).is_none()
    }
}

/// Selects the mode for a payload. A requested mode is validated against the
/// payload and refused where a byte is illegal in it, with the first such
/// byte and its position; with no request the whole payload goes into the
/// byte mode.
pub fn select_or_validate(data: &[u8], requested: Option<Mode>) -> (r: Result<Mode, IllegalByte>)
    ensures
        match r {
            Ok(mode) => selected_mode(data@, requested) == Ok::<Mode, QrError>(mode),
            Err(e) => {
                &&& selected_mode(data@, requested) == Err::<Mode, QrError>(
                    QrError::InvalidCharacter,
                )
                &&& requested matches Some(mode) && is_first_illegal(mode, data@, e.position as int)
                &&& e.byte == data@[e.position as int]
            },
        },
{
    match requested {
        Some(mode) => match mode.first_illegal_position(data) {
            None => Ok(mode),
            Some(position) => Err(IllegalByte { position, byte: data[position] }),
        },
        None => Ok(Mode::Byte),
    }
}

/// A payload that is legal in the Kanji mode is made of whole pairs.
pub proof fn lemma_kanji_payload_is_even(data: Seq<u8>)
    requires
        legal(Mode::Kanji, data),
    ensures
        data.len() % 2 == 0,
{
    if data.len() % 2 == 1 {
        assert(legal_at(Mode::Kanji, data, data.len() - 1));
    }
}

/// A payload is legal in a mode exactly when it has no first illegal
/// position.
pub proof fn lemma_illegal_payload_has_a_first_position(mode: Mode, data: Seq<u8>)
    ensures
        legal(mode, data) <==> forall|p: int| !is_first_illegal(mode, data, p),
{
    if !legal(mode, data) {
        let q = choose|q: int| 0 <= q < data.len() && !legal_at(mode, data, q);
        lemma_first_illegal_before(mode, data, q);
    }
}

/// Before an illegal position, or at it, lies the first illegal position.
proof fn lemma_first_illegal_before(mode: Mode, data: Seq<u8>, q: int)
    requires
        0 <= q < data.len(),
        !legal_at(mode, data, q),
    ensures
        exists|p: int| 0 <= p <= q && is_first_illegal(mode, data, p),
    decreases q,
{
    if forall|i: int| 0 <= i < q ==> legal_at(mode, data, i) {
        assert(is_first_illegal(mode, data, q));
    } else {
        let i = choose|i: int| 0 <= i < q && !legal_at(mode, data, i);
        lemma_first_illegal_before(mode, data, i);
    }
}

} // verus!
