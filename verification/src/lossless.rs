//! The packing of a payload loses nothing: the bits of a segment determine
//! the payload that was packed into them.

use vstd::prelude::*;
use vstd::arithmetic::div_mod::lemma_div_denominator;
use vstd::arithmetic::power2::{lemma2_to64, lemma_pow2_pos, lemma_pow2_unfold, pow2};
use crate::charset::{is_alphanumeric_byte, is_kanji_pair, legal, legal_at};
use crate::packing::{
    alphanumeric_data_bits, alphanumeric_value, byte_data_bits, character_count, count_fits,
    data_bits, digit_value, header_bits, kanji_data_bits, kanji_value,
    lemma_alphanumeric_data_len, lemma_byte_data_len, lemma_kanji_data_len,
    lemma_numeric_data_len, lemma_segment_len, length_bits_count, mode_bits_count, number_bits,
    numeric_data_bits, segment_bits,
};
use crate::types::{Mode, Version};

verus! {

/// The number that bits stand for, the most significant first.
pub open spec fn bits_value(bits: Seq<bool>) -> nat
    decreases bits.len(),
{
    if bits.len() == 0 {
        0
    } else {
        2 * bits_value(bits.drop_last()) + if bits.last() {
            1nat
        } else {
            0nat
        }
    }
}

/// The bits of a number that fits them stand for that number.
pub proof fn lemma_number_bits_value(value: nat, width: nat)
    requires
        value < pow2(width),
    ensures
        bits_value(number_bits(value, width)) == value,
    decreases width,
{
    let bits = number_bits(value, width);
    if width == 0 {
        lemma2_to64();
    } else {
        let half = number_bits(value / 2, (width - 1) as nat);
        lemma_pow2_unfold(width);
        assert forall|i: int| 0 <= i < width - 1 implies bits[i] == half[i] by {
            let p = pow2((width - 2 - i) as nat);
            lemma_pow2_pos((width - 2 - i) as nat);
            lemma_pow2_unfold((width - 1 - i) as nat);
            lemma_div_denominator(value as int, 2, p as int);
        }
        assert(bits.drop_last() =~= half);
        assert(bits.last() == (value % 2 == 1)) by {
            lemma2_to64();
            assert((width - 1 - (width - 1)) as nat == 0);
            assert(bits[width - 1] == ((value / pow2(0)) % 2 == 1));
        }
        lemma_number_bits_value(value / 2, (width - 1) as nat);
    }
}

/// Two numbers that fit a width and have the same bits are the same number.
pub proof fn lemma_number_bits_lossless(first: nat, second: nat, width: nat)
    requires
        first < pow2(width),
        second < pow2(width),
        number_bits(first, width) == number_bits(second, width),
    ensures
        first == second,
{
    lemma_number_bits_value(first, width);
    lemma_number_bits_value(second, width);
}

/// Two runs of bits that begin with as many bits and are the same as a whole
/// begin with the same bits and go on with the same bits.
proof fn lemma_split(head: Seq<bool>, tail: Seq<bool>, other_head: Seq<bool>, other_tail: Seq<bool>)
    requires
        head.len() == other_head.len(),
        head + tail == other_head + other_tail,
    ensures
        head == other_head,
        tail == other_tail,
{
    let n = head.len() as int;
    assert(head =~= (head + tail).subrange(0, n));
    assert(other_head =~= (other_head + other_tail).subrange(0, n));
    assert(tail =~= (head + tail).subrange(n, (head + tail).len() as int));
    assert(other_tail =~= (other_head + other_tail).subrange(
        n,
        (other_head + other_tail).len() as int,
    ));
}

/// A payload that is legal in a mode stays legal without its first pair, and
/// in the other modes without any number of its first bytes.
proof fn lemma_rest_is_legal(mode: Mode, data: Seq<u8>, n: int)
    requires
        legal(mode, data),
        0 <= n <= data.len(),
        mode == Mode::Kanji ==> n % 2 == 0,
    ensures
        legal(mode, data.skip(n)),
{
    assert forall|i: int| 0 <= i < data.skip(n).len() implies legal_at(mode, data.skip(n), i) by {
        assert(legal_at(mode, data, i + n));
        if mode == Mode::Kanji {
            assert((i + n) - (i + n) % 2 == (i - i % 2) + n);
        }
    }
}

/// Two payloads of digits that are packed into the same bits are the same.
pub proof fn lemma_numeric_data_lossless(first: Seq<u8>, second: Seq<u8>)
    requires
        legal(Mode::Numeric, first),
        legal(Mode::Numeric, second),
        first.len() == second.len(),
        numeric_data_bits(first) == numeric_data_bits(second),
    ensures
        first == second,
    decreases first.len(),
{
    lemma2_to64();
    if first.len() >= 3 {
        assert(legal_at(Mode::Numeric, first, 0) && legal_at(Mode::Numeric, first, 1) && legal_at(
            Mode::Numeric,
            first,
            2,
        ));
        assert(legal_at(Mode::Numeric, second, 0) && legal_at(Mode::Numeric, second, 1)
            && legal_at(Mode::Numeric, second, 2));
        let a = digit_value(first[0]) * 100 + digit_value(first[1]) * 10 + digit_value(first[2]);
        let b = digit_value(second[0]) * 100 + digit_value(second[1]) * 10 + digit_value(
            second[2],
        );
        lemma_split(
            number_bits(a, 10),
            numeric_data_bits(first.skip(3)),
            number_bits(b, 10),
            numeric_data_bits(second.skip(3)),
        );
        lemma_number_bits_lossless(a, b, 10);
        lemma_rest_is_legal(Mode::Numeric, first, 3);
        lemma_rest_is_legal(Mode::Numeric, second, 3);
        lemma_numeric_data_lossless(first.skip(3), second.skip(3));
        assert forall|i: int| 0 <= i < first.len() implies first[i] == second[i] by {
            if i >= 3 {
                assert(first[i] == first.skip(3)[i - 3]);
                assert(second[i] == second.skip(3)[i - 3]);
            }
        }
        assert(first =~= second);
    } else if first.len() == 2 {
        assert(legal_at(Mode::Numeric, first, 0) && legal_at(Mode::Numeric, first, 1));
        assert(legal_at(Mode::Numeric, second, 0) && legal_at(Mode::Numeric, second, 1));
        lemma_number_bits_lossless(
            digit_value(first[0]) * 10 + digit_value(first[1]),
            digit_value(second[0]) * 10 + digit_value(second[1]),
            7,
        );
        assert(first =~= second);
    } else if first.len() == 1 {
        assert(legal_at(Mode::Numeric, first, 0));
        assert(legal_at(Mode::Numeric, second, 0));
        lemma_number_bits_lossless(digit_value(first[0]), digit_value(second[0]), 4);
        assert(first =~= second);
    } else {
        assert(first =~= second);
    }
}

/// Two characters of the alphanumeric mode with the same value are the same.
proof fn lemma_alphanumeric_value_lossless(first: u8, second: u8)
    requires
        is_alphanumeric_byte(first),
        is_alphanumeric_byte(second),
        alphanumeric_value(first) == alphanumeric_value(second),
    ensures
        first == second,
        alphanumeric_value(first) < 45,
{
}

/// Two payloads of alphanumeric characters that are packed into the same
/// bits are the same.
pub proof fn lemma_alphanumeric_data_lossless(first: Seq<u8>, second: Seq<u8>)
    requires
        legal(Mode::Alphanumeric, first),
        legal(Mode::Alphanumeric, second),
        first.len() == second.len(),
        alphanumeric_data_bits(first) == alphanumeric_data_bits(second),
    ensures
        first == second,
    decreases first.len(),
{
    lemma2_to64();
    if first.len() >= 2 {
        assert(legal_at(Mode::Alphanumeric, first, 0) && legal_at(Mode::Alphanumeric, first, 1));
        assert(legal_at(Mode::Alphanumeric, second, 0) && legal_at(
            Mode::Alphanumeric,
            second,
            1,
        ));
        let a = alphanumeric_value(first[0]) * 45 + alphanumeric_value(first[1]);
        let b = alphanumeric_value(second[0]) * 45 + alphanumeric_value(second[1]);
        lemma_split(
            number_bits(a, 11),
            alphanumeric_data_bits(first.skip(2)),
            number_bits(b, 11),
            alphanumeric_data_bits(second.skip(2)),
        );
        lemma_number_bits_lossless(a, b, 11);
        lemma_alphanumeric_value_lossless(first[0], second[0]);
        lemma_alphanumeric_value_lossless(first[1], second[1]);
        lemma_rest_is_legal(Mode::Alphanumeric, first, 2);
        lemma_rest_is_legal(Mode::Alphanumeric, second, 2);
        lemma_alphanumeric_data_lossless(first.skip(2), second.skip(2));
        assert forall|i: int| 0 <= i < first.len() implies first[i] == second[i] by {
            if i >= 2 {
                assert(first[i] == first.skip(2)[i - 2]);
                assert(second[i] == second.skip(2)[i - 2]);
            }
        }
        assert(first =~= second);
    } else if first.len() == 1 {
        assert(legal_at(Mode::Alphanumeric, first, 0));
        assert(legal_at(Mode::Alphanumeric, second, 0));
        lemma_number_bits_lossless(
            alphanumeric_value(first[0]),
            alphanumeric_value(second[0]),
            6,
        );
        lemma_alphanumeric_value_lossless(first[0], second[0]);
        assert(first =~= second);
    } else {
        assert(first =~= second);
    }
}

/// Two payloads of bytes that are packed into the same bits are the same.
pub proof fn lemma_byte_data_lossless(first: Seq<u8>, second: Seq<u8>)
    requires
        first.len() == second.len(),
        byte_data_bits(first) == byte_data_bits(second),
    ensures
        first == second,
    decreases first.len(),
{
    lemma2_to64();
    if first.len() >= 1 {
        lemma_split(
            number_bits(first[0] as nat, 8),
            byte_data_bits(first.skip(1)),
            number_bits(second[0] as nat, 8),
            byte_data_bits(second.skip(1)),
        );
        lemma_number_bits_lossless(first[0] as nat, second[0] as nat, 8);
        lemma_byte_data_lossless(first.skip(1), second.skip(1));
        assert forall|i: int| 0 <= i < first.len() implies first[i] == second[i] by {
            if i >= 1 {
                assert(first[i] == first.skip(1)[i - 1]);
                assert(second[i] == second.skip(1)[i - 1]);
            }
        }
    }
    assert(first =~= second);
}

/// Two Kanji characters with the same value are the same, and the value of
/// one fits thirteen bits.
proof fn lemma_kanji_value_lossless(hi: u8, lo: u8, other_hi: u8, other_lo: u8)
    requires
        is_kanji_pair(hi, lo),
        is_kanji_pair(other_hi, other_lo),
        kanji_value(hi, lo) == kanji_value(other_hi, other_lo),
    ensures
        hi == other_hi,
        lo == other_lo,
        kanji_value(hi, lo) < 0x2000,
{
    lemma_kanji_value(hi, lo);
    lemma_kanji_value(other_hi, other_lo);
}

/// The value of a Kanji character, written out for its two ranges.
proof fn lemma_kanji_value(hi: u8, lo: u8)
    requires
        is_kanji_pair(hi, lo),
    ensures
        hi <= 0x9f ==> kanji_value(hi, lo) == (hi - 0x81) * 0xc0 + (lo - 0x40),
        hi >= 0xe0 ==> kanji_value(hi, lo) == (hi - 0xc1) * 0xc0 + (lo - 0x40),
{
    let point = hi * 256 + lo;
    if hi <= 0x9f {
        let moved = point - 0x8140;
        assert(moved == (hi - 0x81) * 256 + (lo - 0x40));
        assert(moved / 256 == hi - 0x81 && moved % 256 == lo - 0x40);
    } else {
        let moved = point - 0xc140;
        assert(moved == (hi - 0xc1) * 256 + (lo - 0x40));
        assert(moved / 256 == hi - 0xc1 && moved % 256 == lo - 0x40);
    }
}

/// Two payloads of Kanji characters that are packed into the same bits are
/// the same.
pub proof fn lemma_kanji_data_lossless(first: Seq<u8>, second: Seq<u8>)
    requires
        legal(Mode::Kanji, first),
        legal(Mode::Kanji, second),
        first.len() == second.len(),
        kanji_data_bits(first) == kanji_data_bits(second),
    ensures
        first == second,
    decreases first.len(),
{
    lemma2_to64();
    if first.len() >= 2 {
        assert(legal_at(Mode::Kanji, first, 0));
        assert(legal_at(Mode::Kanji, second, 0));
        let a = kanji_value(first[0], first[1]);
        let b = kanji_value(second[0], second[1]);
        lemma_kanji_value_lossless(first[0], first[1], first[0], first[1]);
        lemma_kanji_value_lossless(second[0], second[1], second[0], second[1]);
        lemma_split(
            number_bits(a, 13),
            kanji_data_bits(first.skip(2)),
            number_bits(b, 13),
            kanji_data_bits(second.skip(2)),
        );
        lemma_number_bits_lossless(a, b, 13);
        lemma_kanji_value_lossless(first[0], first[1], second[0], second[1]);
        lemma_rest_is_legal(Mode::Kanji, first, 2);
        lemma_rest_is_legal(Mode::Kanji, second, 2);
        lemma_kanji_data_lossless(first.skip(2), second.skip(2));
        assert forall|i: int| 0 <= i < first.len() implies first[i] == second[i] by {
            if i >= 2 {
                assert(first[i] == first.skip(2)[i - 2]);
                assert(second[i] == second.skip(2)[i - 2]);
            }
        }
        assert(first =~= second);
    } else if first.len() == 1 {
        assert(legal_at(Mode::Kanji, first, 0));
    } else {
        assert(first =~= second);
    }
}

/// Packing is lossless: two payloads that are legal in a mode and whose
/// segments in that mode and one version are the same bits are the same
/// payload.
pub proof fn lemma_segment_is_lossless(
    version: Version,
    mode: Mode,
    first: Seq<u8>,
    second: Seq<u8>,
)
    requires
        legal(mode, first),
        legal(mode, second),
        segment_bits(version, mode, first) == segment_bits(version, mode, second),
    ensures
        first == second,
{
    lemma_numeric_data_len(first);
    lemma_numeric_data_len(second);
    lemma_alphanumeric_data_len(first);
    lemma_alphanumeric_data_len(second);
    lemma_byte_data_len(first);
    lemma_byte_data_len(second);
    lemma_kanji_data_len(first);
    lemma_kanji_data_len(second);
    lemma_split(
        header_bits(version, mode, character_count(mode, first.len())),
        data_bits(mode, first),
        header_bits(version, mode, character_count(mode, second.len())),
        data_bits(mode, second),
    );
    match mode {
        Mode::Numeric => {
            lemma_numeric_data_lossless(first, second);
        },
        Mode::Alphanumeric => {
            lemma_alphanumeric_data_lossless(first, second);
        },
        Mode::Byte => {
            lemma_byte_data_lossless(first, second);
        },
        Mode::Kanji => {
            crate::charset::lemma_kanji_payload_is_even(first);
            crate::charset::lemma_kanji_payload_is_even(second);
            lemma_kanji_data_lossless(first, second);
        },
    }
}

/// What was packed can be read back: two payloads that are legal in a mode,
/// whose character counts fit their indicator and whose segments in that
/// mode and one version both begin one stream, are the same payload.
pub proof fn lemma_stream_determines_payload(
    version: Version,
    mode: Mode,
    first: Seq<u8>,
    second: Seq<u8>,
    stream: Seq<bool>,
)
    requires
        legal(mode, first),
        legal(mode, second),
        count_fits(version, mode, first.len()),
        count_fits(version, mode, second.len()),
        segment_bits(version, mode, first).is_prefix_of(stream),
        segment_bits(version, mode, second).is_prefix_of(stream),
    ensures
        first == second,
{
    let a = segment_bits(version, mode, first);
    let b = segment_bits(version, mode, second);
    let mode_bits = mode_bits_count(version) as int;
    let width = length_bits_count(version, mode);
    let count_a = character_count(mode, first.len());
    let count_b = character_count(mode, second.len());
    assert(number_bits(count_a, width) =~= a.subrange(mode_bits, mode_bits + width));
    assert(number_bits(count_b, width) =~= b.subrange(mode_bits, mode_bits + width));
    assert(a.subrange(mode_bits, mode_bits + width) =~= stream.subrange(
        mode_bits,
        mode_bits + width,
    ));
    assert(b.subrange(mode_bits, mode_bits + width) =~= stream.subrange(
        mode_bits,
        mode_bits + width,
    ));
    lemma_number_bits_lossless(count_a, count_b, width);
    if mode == Mode::Kanji {
        crate::charset::lemma_kanji_payload_is_even(first);
        crate::charset::lemma_kanji_payload_is_even(second);
    }
    assert(first.len() == second.len());
    lemma_segment_len(version, mode, first);
    lemma_segment_len(version, mode, second);
    assert(a =~= stream.subrange(0, a.len() as int));
    assert(b =~= stream.subrange(0, b.len() as int));
    lemma_segment_is_lossless(version, mode, first, second);
}

} // verus!
