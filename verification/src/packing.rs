//! The packing of a payload into the bits of a segment, and the terminator
//! and padding that fill a stream up to the capacity of a symbol.

use vstd::prelude::*;
use vstd::arithmetic::power2::{lemma2_to64, lemma_pow2_strictly_increases, lemma_pow2_unfold, pow2};
use crate::types::{Mode, Version};

verus! {

/// The longest payload whose segment is laid out. Longer ones overflow every
/// character count indicator.
pub const MAX_PUSH_LEN: usize = 0x1ffff;

/// The `width` low bits of a number, the most significant first.
pub open spec fn number_bits(value: nat, width: nat) -> Seq<bool> {
    Seq::new(width, |i: int| (value / pow2((width - 1 - i) as nat)) % 2 == 1)
}

/// So many bits, all of them zero.
pub open spec fn zeros(n: nat) -> Seq<bool> {
    Seq::new(n, |i: int| false)
}

/// The width of the mode indicator.
pub open spec fn mode_bits_count(version: Version) -> nat {
    match version {
        Version::Micro(a) => (a - 1) as nat,
        Version::Normal(_) => 4,
    }
}

/// The width of the character count indicator.
pub open spec fn length_bits_count(version: Version, mode: Mode) -> nat {
    match version {
        Version::Micro(a) => match mode {
            Mode::Numeric => (2 + a) as nat,
            Mode::Alphanumeric => (1 + a) as nat,
            Mode::Byte => (1 + a) as nat,
            Mode::Kanji => a as nat,
        },
        Version::Normal(v) => if v <= 9 {
            match mode {
                Mode::Numeric => 10,
                Mode::Alphanumeric => 9,
                Mode::Byte => 8,
                Mode::Kanji => 8,
            }
        } else if v <= 26 {
            match mode {
                Mode::Numeric => 12,
                Mode::Alphanumeric => 11,
                Mode::Byte => 16,
                Mode::Kanji => 10,
            }
        } else {
            match mode {
                Mode::Numeric => 14,
                Mode::Alphanumeric => 13,
                Mode::Byte => 16,
                Mode::Kanji => 12,
            }
        },
    }
}

/// The number of characters in a payload of `len` bytes.
pub open spec fn character_count(mode: Mode, len: nat) -> nat {
    match mode {
        Mode::Kanji => len / 2,
        _ => len,
    }
}

/// The number of bits that `count` characters are packed into: 10 bits for
/// three digits, 11 for two alphanumeric characters, 8 for a byte, 13 for a
/// Kanji character.
pub open spec fn data_bits_count(mode: Mode, count: nat) -> nat {
    match mode {
        Mode::Numeric => (count * 10 + 2) / 3,
        Mode::Alphanumeric => (count * 11 + 1) / 2,
        Mode::Byte => count * 8,
        Mode::Kanji => count * 13,
    }
}

/// Whether a version has a mode indicator for the mode. The Micro versions
/// 1 and 2 lack the later modes.
pub open spec fn mode_supported(version: Version, mode: Mode) -> bool {
    match version {
        Version::Normal(_) => true,
        Version::Micro(a) => match mode {
            Mode::Numeric => true,
            Mode::Alphanumeric => a >= 2,
            Mode::Byte => a >= 3,
            Mode::Kanji => a >= 3,
        },
    }
}

/// Whether the character count of a payload of `len` bytes fits the character
/// count indicator.
pub open spec fn count_fits(version: Version, mode: Mode, len: nat) -> bool {
    character_count(mode, len) < pow2(length_bits_count(version, mode))
}

/// The number of bits in the segment of a payload of `len` bytes.
pub open spec fn segment_len(version: Version, mode: Mode, len: nat) -> nat {
    mode_bits_count(version) + length_bits_count(version, mode) + data_bits_count(
        mode,
        character_count(mode, len),
    )
}

/// The number that stands for a mode in the mode indicator.
pub open spec fn mode_indicator(version: Version, mode: Mode) -> nat {
    match version {
        Version::Micro(_) => match mode {
            Mode::Numeric => 0,
            Mode::Alphanumeric => 1,
            Mode::Byte => 2,
            Mode::Kanji => 3,
        },
        Version::Normal(_) => match mode {
            Mode::Numeric => 1,
            Mode::Alphanumeric => 2,
            Mode::Byte => 4,
            Mode::Kanji => 8,
        },
    }
}

/// The header of a segment: the mode indicator, then the character count.
pub open spec fn header_bits(version: Version, mode: Mode, count: nat) -> Seq<bool> {
    number_bits(mode_indicator(version, mode), mode_bits_count(version)) + number_bits(
        count,
        length_bits_count(version, mode),
    )
}

/// The value of a digit.
pub open spec fn digit_value(b: u8) -> nat {
    (b - 0x30) as nat
}

/// The value of a character of the alphanumeric mode: the digits come first,
/// then the letters, then the space and `$%*+-./:` in this order.
pub open spec fn alphanumeric_value(b: u8) -> nat {
    if 0x30 <= b <= 0x39 {
        (b - 0x30) as nat
    } else if 0x41 <= b <= 0x5a {
        (b - 0x41 + 10) as nat
    } else if b == 0x20 {
        36
    } else if b == 0x24 {
        37
    } else if b == 0x25 {
        38
    } else if b == 0x2a {
        39
    } else if b == 0x2b {
        40
    } else if b == 0x2d {
        41
    } else if b == 0x2e {
        42
    } else if b == 0x2f {
        43
    } else {
        44
    }
}

/// The value of a Kanji character: its Shift JIS code point is moved down to
/// start at zero, by 0x8140 below 0xE040 and by 0xC140 from there, and its two
/// bytes are then read as a number to the base 0xC0.
pub open spec fn kanji_value(hi: u8, lo: u8) -> nat {
    let point = hi * 256 + lo;
    let moved = if point < 0xe040 {
        point - 0x8140
    } else {
        point - 0xc140
    };
    ((moved / 256) * 0xc0 + moved % 256) as nat
}

/// The packed digits: three digits are a number of ten bits, two left over
/// one of seven and one left over one of four.
pub open spec fn numeric_data_bits(data: Seq<u8>) -> Seq<bool>
    decreases data.len(),
{
    if data.len() >= 3 {
        number_bits(
            digit_value(data[0]) * 100 + digit_value(data[1]) * 10 + digit_value(data[2]),
            10,
        ) + numeric_data_bits(data.skip(3))
    } else if data.len() == 2 {
        number_bits(digit_value(data[0]) * 10 + digit_value(data[1]), 7)
    } else if data.len() == 1 {
        number_bits(digit_value(data[0]), 4)
    } else {
        Seq::empty()
    }
}

/// The packed alphanumeric characters: two characters are a number of eleven
/// bits, the first times 45 plus the second, and one left over is one of six.
pub open spec fn alphanumeric_data_bits(data: Seq<u8>) -> Seq<bool>
    decreases data.len(),
{
    if data.len() >= 2 {
        number_bits(alphanumeric_value(data[0]) * 45 + alphanumeric_value(data[1]), 11)
            + alphanumeric_data_bits(data.skip(2))
    } else if data.len() == 1 {
        number_bits(alphanumeric_value(data[0]), 6)
    } else {
        Seq::empty()
    }
}

/// The bytes as they are, eight bits each.
pub open spec fn byte_data_bits(data: Seq<u8>) -> Seq<bool>
    decreases data.len(),
{
    if data.len() >= 1 {
        number_bits(data[0] as nat, 8) + byte_data_bits(data.skip(1))
    } else {
        Seq::empty()
    }
}

/// The packed Kanji characters, thirteen bits each.
pub open spec fn kanji_data_bits(data: Seq<u8>) -> Seq<bool>
    decreases data.len(),
{
    if data.len() >= 2 {
        number_bits(kanji_value(data[0], data[1]), 13) + kanji_data_bits(data.skip(2))
    } else {
        Seq::empty()
    }
}

/// The packed data of a payload in a mode.
pub open spec fn data_bits(mode: Mode, data: Seq<u8>) -> Seq<bool> {
    match mode {
        Mode::Numeric => numeric_data_bits(data),
        Mode::Alphanumeric => alphanumeric_data_bits(data),
        Mode::Byte => byte_data_bits(data),
        Mode::Kanji => kanji_data_bits(data),
    }
}

/// The bits in the segment of a payload: the mode indicator, the character
/// count and the packed data.
pub open spec fn segment_bits(version: Version, mode: Mode, data: Seq<u8>) -> Seq<bool> {
    header_bits(version, mode, character_count(mode, data.len())) + data_bits(mode, data)
}

/// The width of the terminator.
pub open spec fn terminator_len(version: Version) -> nat {
    match version {
        Version::Micro(a) => (a * 2 + 1) as nat,
        Version::Normal(_) => 4,
    }
}

/// The number of codewords that hold `len` bits.
pub open spec fn codewords(len: nat) -> nat {
    (len + 7) / 8
}

/// Whether a stream of `len` bits can be padded up to a capacity of `cap`
/// bits, `len` being at most `cap`: once the terminator is appended, as far as
/// it fits, the stream either is full or ends within the whole codewords of
/// the capacity.
pub open spec fn paddable(version: Version, len: nat, cap: nat) -> bool {
    let rest = (cap - len) as nat;
    let end = len + if terminator_len(version) <= rest {
        terminator_len(version)
    } else {
        rest
    };
    end < cap ==> codewords(end) <= cap / 8
}

/// So many padding codewords, 0xEC and 0x11 in turn.
pub open spec fn pad_bytes(n: nat) -> Seq<bool> {
    Seq::new(
        8 * n,
        |i: int|
            number_bits(
                if (i / 8) % 2 == 0 {
                    0xec
                } else {
                    0x11
                },
                8,
            )[i % 8],
    )
}

/// A paddable stream of at most `cap` bits after its termination: the
/// terminator is appended as far as it fits; a stream that is not full then
/// is filled with zeros up to the next codeword and with padding codewords
/// up to the last whole codeword of the capacity, and where the capacity ends
/// in half a codeword, a codeword of zeros stands for that half.
pub open spec fn terminated_bits(content: Seq<bool>, version: Version, cap: nat) -> Seq<bool> {
    let rest = (cap - content.len()) as nat;
    let ended = content + zeros(
        if terminator_len(version) <= rest {
            terminator_len(version)
        } else {
            rest
        },
    );
    if ended.len() >= cap {
        ended
    } else {
        let aligned = ended + zeros((8 * codewords(ended.len()) - ended.len()) as nat);
        let padded = aligned + pad_bytes((cap / 8 - codewords(ended.len())) as nat);
        if cap % 8 == 0 {
            padded
        } else {
            padded + zeros(8)
        }
    }
}

/// The packed digits take ten bits for three digits, seven for two left over
/// and four for one.
pub proof fn lemma_numeric_data_len(data: Seq<u8>)
    ensures
        numeric_data_bits(data).len() == data_bits_count(Mode::Numeric, data.len()),
    decreases data.len(),
{
    if data.len() >= 3 {
        lemma_numeric_data_len(data.skip(3));
    }
}

/// The packed alphanumeric characters take eleven bits for two characters
/// and six for one left over.
pub proof fn lemma_alphanumeric_data_len(data: Seq<u8>)
    ensures
        alphanumeric_data_bits(data).len() == data_bits_count(Mode::Alphanumeric, data.len()),
    decreases data.len(),
{
    if data.len() >= 2 {
        lemma_alphanumeric_data_len(data.skip(2));
    }
}

/// The bytes take eight bits each.
pub proof fn lemma_byte_data_len(data: Seq<u8>)
    ensures
        byte_data_bits(data).len() == data_bits_count(Mode::Byte, data.len()),
    decreases data.len(),
{
    if data.len() >= 1 {
        lemma_byte_data_len(data.skip(1));
    }
}

/// The packed Kanji characters take thirteen bits for every two bytes.
pub proof fn lemma_kanji_data_len(data: Seq<u8>)
    ensures
        kanji_data_bits(data).len() == data_bits_count(Mode::Kanji, data.len() / 2),
    decreases data.len(),
{
    if data.len() >= 2 {
        lemma_kanji_data_len(data.skip(2));
    }
}

/// A segment has as many bits as its header and its packed data take.
pub proof fn lemma_segment_len(version: Version, mode: Mode, data: Seq<u8>)
    ensures
        segment_bits(version, mode, data).len() == segment_len(version, mode, data.len()),
{
    lemma_numeric_data_len(data);
    lemma_alphanumeric_data_len(data);
    lemma_byte_data_len(data);
    lemma_kanji_data_len(data);
}

/// A terminated stream fills the data codewords of the symbol, and begins
/// with the stream that was terminated.
pub proof fn lemma_terminated_fills(content: Seq<bool>, version: Version, cap: nat)
    requires
        content.len() <= cap,
        paddable(version, content.len(), cap),
    ensures
        codewords(terminated_bits(content, version, cap).len()) == codewords(cap),
        cap <= terminated_bits(content, version, cap).len(),
        content.is_prefix_of(terminated_bits(content, version, cap)),
{
    let rest = (cap - content.len()) as nat;
    let ended = content + zeros(
        if terminator_len(version) <= rest {
            terminator_len(version)
        } else {
            rest
        },
    );
    assert(content.is_prefix_of(ended));
    if ended.len() < cap {
        let aligned = ended + zeros((8 * codewords(ended.len()) - ended.len()) as nat);
        let padded = aligned + pad_bytes((cap / 8 - codewords(ended.len())) as nat);
        assert(padded.len() == 8 * (cap / 8));
        assert(content.is_prefix_of(padded));
        assert(content.is_prefix_of(padded + zeros(8)));
    }
}

/// Two to the power of `bits`.
fn two_to(bits: usize) -> (r: usize)
    requires
        bits <= 16,
    ensures
        r == pow2(bits as nat),
        r <= 0x10000,
{
    let mut r: usize = 1;
    let mut i: usize = 0;
    proof {
        lemma2_to64();
    }
    while i < bits
        invariant
            i <= bits <= 16,
            r == pow2(i as nat),
            pow2(16) == 0x10000,
            r <= 0x10000,
        decreases bits - i,
    {
        proof {
            lemma_pow2_unfold((i + 1) as nat);
            if i + 1 < 16 {
                lemma_pow2_strictly_increases((i + 1) as nat, 16);
            }
        }
        r = r * 2;
        i += 1;
    }
    r
}

impl Version {
    /// Tests whether the version has a mode indicator for the mode.
    pub fn supports(&self, mode: Mode) -> (r: bool)
        ensures
            r == mode_supported(*self, mode),
    {
        match *self {
            Version::Normal(_) => true,
            Version::Micro(a) => match mode {
                Mode::Numeric => true,
                Mode::Alphanumeric => a >= 2,
                Mode::Byte => a >= 3,
                Mode::Kanji => a >= 3,
            },
        }
    }

    /// The width of the mode indicator.
    pub fn mode_bits(&self) -> (r: usize)
        requires
            self.valid(),
        ensures
            r == mode_bits_count(*self),
            r <= 4,
    {
        match *self {
            Version::Micro(a) => (a - 1) as usize,
            Version::Normal(_) => 4,
        }
    }

    /// The width of the character count indicator of the mode.
    pub fn length_bits(&self, mode: Mode) -> (r: usize)
        requires
            self.valid(),
        ensures
            r == length_bits_count(*self, mode),
            1 <= r <= 16,
    {
        match *self {
            Version::Micro(a) => match mode {
                Mode::Numeric => (2 + a) as usize,
                Mode::Alphanumeric => (1 + a) as usize,
                Mode::Byte => (1 + a) as usize,
                Mode::Kanji => a as usize,
            },
            Version::Normal(v) => if v <= 9 {
                match mode {
                    Mode::Numeric => 10,
                    Mode::Alphanumeric => 9,
                    Mode::Byte => 8,
                    Mode::Kanji => 8,
                }
            } else if v <= 26 {
                match mode {
                    Mode::Numeric => 12,
                    Mode::Alphanumeric => 11,
                    Mode::Byte => 16,
                    Mode::Kanji => 10,
                }
            } else {
                match mode {
                    Mode::Numeric => 14,
                    Mode::Alphanumeric => 13,
                    Mode::Byte => 16,
                    Mode::Kanji => 12,
                }
            },
        }
    }

    /// The width of the terminator.
    pub fn terminator_bits(&self) -> (r: usize)
        requires
            self.valid(),
        ensures
            r == terminator_len(*self),
            3 <= r <= 9,
    {
        match *self {
            Version::Micro(a) => (a * 2 + 1) as usize,
            Version::Normal(_) => 4,
        }
    }

    /// Tests whether the character count of a payload of `len` bytes fits the
    /// character count indicator of the mode.
    pub fn count_fits(&self, mode: Mode, len: usize) -> (r: bool)
        requires
            self.valid(),
        ensures
            r == count_fits(*self, mode, len as nat),
    {
        let count = match mode {
            Mode::Kanji => len / 2,
            _ => len,
        };
        count < two_to(self.length_bits(mode))
    }

    /// The number of bits in the segment of a payload of `len` bytes.
    pub fn segment_bits(&self, mode: Mode, len: usize) -> (r: usize)
        requires
            self.valid(),
            len <= MAX_PUSH_LEN,
        ensures
            r == segment_len(*self, mode, len as nat),
    {
        let header = self.mode_bits() + self.length_bits(mode);
        let packed = match mode {
            Mode::Numeric => (len * 10 + 2) / 3,
            Mode::Alphanumeric => (len * 11 + 1) / 2,
            Mode::Byte => len * 8,
            Mode::Kanji => (len / 2) * 13,
        };
        header + packed
    }
}

/// Tests whether a stream of `len` bits can be padded up to `cap` bits.
pub(crate) fn can_pad(version: &Version, len: usize, cap: usize) -> (r: bool)
    requires
        version.valid(),
        len <= cap,
    ensures
        r == paddable(*version, len as nat, cap as nat),
{
    let rest = cap - len;
    let terminator = version.terminator_bits();
    let end = len + if terminator <= rest {
        terminator
    } else {
        rest
    };
    let whole = end / 8 + if end % 8 == 0 {
        0
    } else {
        1
    };
    assert(whole == codewords(end as nat));
    end >= cap || whole <= cap / 8
}

} // verus!
