use qrencode::bits::Bits;
use qrtool::charset::{select_or_validate, IllegalByte};
use qrtool::{
    admits_level, capacity_of, fills_symbol, push_data_for_selected_mode, push_terminator, Ecc, Mode, QrError,
    Version,
};

fn outside(version: Version) -> qrencode::Version {
    match version {
        Version::Normal(v) => qrencode::Version::Normal(v),
        Version::Micro(v) => qrencode::Version::Micro(v),
    }
}

fn level(ec: Ecc) -> qrencode::EcLevel {
    match ec {
        Ecc::L => qrencode::EcLevel::L,
        Ecc::M => qrencode::EcLevel::M,
        Ecc::Q => qrencode::EcLevel::Q,
        Ecc::H => qrencode::EcLevel::H,
    }
}

fn all_versions() -> Vec<Version> {
    let mut versions: Vec<Version> = (1..=40).map(Version::Normal).collect();
    versions.extend((1..=4).map(Version::Micro));
    versions
}

fn mode_bits(version: Version) -> usize {
    match version {
        Version::Micro(a) => (a - 1) as usize,
        Version::Normal(_) => 4,
    }
}

fn length_bits(version: Version, mode: Mode) -> usize {
    match version {
        Version::Micro(a) => {
            let a = a as usize;
            match mode {
                Mode::Numeric => 2 + a,
                Mode::Alphanumeric | Mode::Byte => 1 + a,
                Mode::Kanji => a,
            }
        }
        Version::Normal(v) if v <= 9 => match mode {
            Mode::Numeric => 10,
            Mode::Alphanumeric => 9,
            Mode::Byte | Mode::Kanji => 8,
        },
        Version::Normal(v) if v <= 26 => match mode {
            Mode::Numeric => 12,
            Mode::Alphanumeric => 11,
            Mode::Byte => 16,
            Mode::Kanji => 10,
        },
        Version::Normal(_) => match mode {
            Mode::Numeric => 14,
            Mode::Alphanumeric => 13,
            Mode::Byte => 16,
            Mode::Kanji => 12,
        },
    }
}

fn supported(version: Version, mode: Mode) -> bool {
    match version {
        Version::Normal(_) => true,
        Version::Micro(a) => match mode {
            Mode::Numeric => true,
            Mode::Alphanumeric => a >= 2,
            Mode::Byte | Mode::Kanji => a >= 3,
        },
    }
}

fn count(mode: Mode, len: usize) -> usize {
    match mode {
        Mode::Kanji => len / 2,
        _ => len,
    }
}

fn data_bits(mode: Mode, count: usize) -> usize {
    match mode {
        Mode::Numeric => (count * 10 + 2) / 3,
        Mode::Alphanumeric => (count * 11 + 1) / 2,
        Mode::Byte => count * 8,
        Mode::Kanji => count * 13,
    }
}

fn expected_push(version: Version, mode: Mode, len: usize) -> Result<(), QrError> {
    if !supported(version, mode) {
        Err(QrError::UnsupportedCharacterSet)
    } else if count(mode, len) >= 1 << length_bits(version, mode) {
        Err(QrError::DataTooLong)
    } else {
        Ok(())
    }
}

fn segment_len(version: Version, mode: Mode, len: usize) -> usize {
    mode_bits(version) + length_bits(version, mode) + data_bits(mode, count(mode, len))
}

fn terminator_len(version: Version) -> usize {
    match version {
        Version::Micro(a) => a as usize * 2 + 1,
        Version::Normal(_) => 4,
    }
}

fn paddable(version: Version, len: usize, cap: usize) -> bool {
    let end = len + terminator_len(version).min(cap - len);
    end >= cap || (end + 7) / 8 <= cap / 8
}

fn sample(mode: Mode, len: usize) -> Vec<u8> {
    match mode {
        Mode::Numeric => (0..len).map(|i| b'0' + (i % 10) as u8).collect(),
        Mode::Alphanumeric => (0..len).map(|i| b"0Z $%*+-./:A9"[i % 13]).collect(),
        Mode::Byte => (0..len).map(|i| (i * 37 % 256) as u8).collect(),
        Mode::Kanji => (0..len)
            .map(|i| b"\x93\x5f\x81\x40\x9f\xfc\xe0\x40\xeb\xbf\xe4\xaa\x88\x9f\xea\xa4"[i % 16])
            .collect(),
    }
}

fn number_bits(value: usize, width: usize) -> Vec<bool> {
    (0..width).map(|i| (value >> (width - 1 - i)) & 1 == 1).collect()
}

fn alphanumeric_value(b: u8) -> usize {
    b"0123456789ABCDEFGHIJKLMNOPQRSTUVWXYZ $%*+-./:".iter().position(|c| *c == b).unwrap()
}

fn kanji_value(hi: u8, lo: u8) -> usize {
    let point = hi as usize * 256 + lo as usize;
    let moved = if point < 0xe040 { point - 0x8140 } else { point - 0xc140 };
    (moved / 256) * 0xc0 + moved % 256
}

fn mode_indicator(version: Version, mode: Mode) -> usize {
    match (version, mode) {
        (Version::Micro(_), Mode::Numeric) => 0,
        (Version::Micro(_), Mode::Alphanumeric) => 1,
        (Version::Micro(_), Mode::Byte) => 2,
        (Version::Micro(_), Mode::Kanji) => 3,
        (Version::Normal(_), Mode::Numeric) => 1,
        (Version::Normal(_), Mode::Alphanumeric) => 2,
        (Version::Normal(_), Mode::Byte) => 4,
        (Version::Normal(_), Mode::Kanji) => 8,
    }
}

fn expected_segment(version: Version, mode: Mode, data: &[u8]) -> Vec<bool> {
    let mut bits = number_bits(mode_indicator(version, mode), mode_bits(version));
    bits.extend(number_bits(count(mode, data.len()), length_bits(version, mode)));
    match mode {
        Mode::Numeric => {
            for chunk in data.chunks(3) {
                let value = chunk.iter().fold(0, |a, b| a * 10 + (b - b'0') as usize);
                bits.extend(number_bits(value, [4, 7, 10][chunk.len() - 1]));
            }
        }
        Mode::Alphanumeric => {
            for chunk in data.chunks(2) {
                let value = chunk.iter().fold(0, |a, b| a * 45 + alphanumeric_value(*b));
                bits.extend(number_bits(value, [6, 11][chunk.len() - 1]));
            }
        }
        Mode::Byte => {
            for b in data {
                bits.extend(number_bits(*b as usize, 8));
            }
        }
        Mode::Kanji => {
            for chunk in data.chunks(2) {
                bits.extend(number_bits(kanji_value(chunk[0], chunk[1]), 13));
            }
        }
    }
    bits
}

fn expected_terminated(content: &[bool], version: Version, cap: usize) -> Vec<bool> {
    let mut bits = content.to_vec();
    let terminator = terminator_len(version).min(cap - content.len());
    bits.extend(vec![false; terminator]);
    if bits.len() < cap {
        while bits.len() % 8 != 0 {
            bits.push(false);
        }
        let mut turn = 0;
        while bits.len() / 8 < cap / 8 {
            bits.extend(number_bits(if turn % 2 == 0 { 0xec } else { 0x11 }, 8));
            turn += 1;
        }
        if cap % 8 != 0 {
            bits.extend(vec![false; 8]);
        }
    }
    bits
}

fn pack(bits: &[bool]) -> Vec<u8> {
    bits.chunks(8)
        .map(|chunk| chunk.iter().enumerate().fold(0u8, |byte, (i, bit)| byte | (*bit as u8) << (7 - i)))
        .collect()
}

const MODES: [Mode; 4] = [Mode::Numeric, Mode::Alphanumeric, Mode::Byte, Mode::Kanji];

const LEVELS: [Ecc; 4] = [Ecc::L, Ecc::M, Ecc::Q, Ecc::H];

#[test]
fn numeric_segment_of_the_standard() {
    let mut bits = Bits::new(qrencode::Version::Normal(1));
    assert_eq!(
        push_data_for_selected_mode(&mut bits, b"01234567", &Mode::Numeric),
        Ok(())
    );
    assert_eq!(bits.len(), 41);
    assert_eq!(
        bits.into_bytes(),
        vec![0b0001_0000, 0b0010_0000, 0b0000_1100, 0b0101_0110, 0b0110_0001, 0b1000_0000]
    );
}

#[test]
fn numeric_segment_in_a_micro_symbol() {
    let mut bits = Bits::new(qrencode::Version::Micro(3));
    assert_eq!(
        push_data_for_selected_mode(&mut bits, b"0123456789012345", &Mode::Numeric),
        Ok(())
    );
    assert_eq!(bits.len(), 2 + 5 + 54);
    assert_eq!(
        bits.into_bytes(),
        vec![0b0010_0000, 0b0000_0110, 0b0010_1011, 0b0011_0101, 0b0011_0111, 0b0000_1010, 0b0111_0101, 0b0010_1000]
    );
}

#[test]
fn alphanumeric_segment_of_the_standard() {
    let mut bits = Bits::new(qrencode::Version::Normal(1));
    assert_eq!(
        push_data_for_selected_mode(&mut bits, b"AC-42", &Mode::Alphanumeric),
        Ok(())
    );
    assert_eq!(bits.len(), 4 + 9 + 28);
    assert_eq!(
        bits.into_bytes(),
        vec![0b0010_0000, 0b0010_1001, 0b1100_1110, 0b1110_0111, 0b0010_0001, 0b0000_0000]
    );
}

#[test]
fn byte_segment_is_verbatim() {
    let mut bits = Bits::new(qrencode::Version::Normal(1));
    assert_eq!(
        push_data_for_selected_mode(&mut bits, b"\x12\x34\x56\x78\x9a\xbc\xde\xf0", &Mode::Byte),
        Ok(())
    );
    assert_eq!(bits.len(), 4 + 8 + 64);
    assert_eq!(
        bits.into_bytes(),
        vec![0x40, 0x81, 0x23, 0x45, 0x67, 0x89, 0xab, 0xcd, 0xef, 0x00]
    );
}

#[test]
fn kanji_segment_of_the_standard() {
    let mut bits = Bits::new(qrencode::Version::Normal(1));
    assert_eq!(
        push_data_for_selected_mode(&mut bits, b"\x93\x5f\xe4\xaa", &Mode::Kanji),
        Ok(())
    );
    assert_eq!(bits.len(), 4 + 8 + 26);
    assert_eq!(
        bits.into_bytes(),
        vec![0b1000_0000, 0b0010_0110, 0b1100_1111, 0b1110_1010, 0b1010_1000]
    );
}

#[test]
fn second_segment_follows_the_first() {
    let mut bits = Bits::new(qrencode::Version::Normal(1));
    assert_eq!(push_data_for_selected_mode(&mut bits, b"12", &Mode::Numeric), Ok(()));
    assert_eq!(bits.len(), 21);
    assert_eq!(push_data_for_selected_mode(&mut bits, b"A", &Mode::Alphanumeric), Ok(()));
    assert_eq!(bits.len(), 21 + 19);
    let mut first = Bits::new(qrencode::Version::Normal(1));
    first.push_numeric_data(b"12").unwrap();
    let head = first.into_bytes();
    let all = bits.into_bytes();
    assert_eq!(all[..2], head[..2]);
    assert_eq!(all[2] & 0xf8, head[2] & 0xf8);
}

#[test]
fn illegal_bytes_are_refused_before_anything_is_pushed() {
    let cases: [(Mode, &[u8]); 8] = [
        (Mode::Numeric, b"12a4"),
        (Mode::Numeric, b"/"),
        (Mode::Numeric, b":"),
        (Mode::Alphanumeric, b"abc"),
        (Mode::Alphanumeric, b"A,B"),
        (Mode::Kanji, b"\x93"),
        (Mode::Kanji, b"\x93\x5f\x20\x20"),
        (Mode::Kanji, b"\xeb\xc0"),
    ];
    for (mode, data) in cases {
        for version in all_versions() {
            let mut bits = Bits::new(outside(version));
            assert_eq!(
                push_data_for_selected_mode(&mut bits, data, &mode),
                Err(QrError::InvalidCharacter)
            );
            assert_eq!(bits.len(), 0);
        }
    }
}

#[test]
fn stream_of_no_version_is_refused() {
    for version in [
        qrencode::Version::Normal(0),
        qrencode::Version::Normal(41),
        qrencode::Version::Micro(0),
        qrencode::Version::Micro(5),
        qrencode::Version::Micro(-1),
    ] {
        let mut bits = Bits::new(version);
        assert_eq!(
            push_data_for_selected_mode(&mut bits, b"1", &Mode::Numeric),
            Err(QrError::InvalidVersion)
        );
        assert_eq!(bits.len(), 0);
        assert_eq!(push_terminator(&mut bits, Ecc::L), Err(QrError::InvalidVersion));
        assert_eq!(bits.len(), 0);
    }
}

#[test]
fn micro_versions_lack_the_later_modes() {
    let cases = [
        (1, Mode::Alphanumeric, &b"A"[..]),
        (1, Mode::Byte, b"?"),
        (1, Mode::Kanji, b"\x93\x5f"),
        (2, Mode::Byte, b"?"),
        (2, Mode::Kanji, b"\x93\x5f"),
    ];
    for (v, mode, data) in cases {
        let mut bits = Bits::new(qrencode::Version::Micro(v));
        assert_eq!(
            push_data_for_selected_mode(&mut bits, data, &mode),
            Err(QrError::UnsupportedCharacterSet)
        );
        assert_eq!(bits.len(), 0);
    }
}

#[test]
fn character_count_must_fit_its_indicator() {
    let mut bits = Bits::new(qrencode::Version::Micro(1));
    assert_eq!(
        push_data_for_selected_mode(&mut bits, b"12345678", &Mode::Numeric),
        Err(QrError::DataTooLong)
    );
    let mut bits = Bits::new(qrencode::Version::Micro(1));
    assert_eq!(push_data_for_selected_mode(&mut bits, b"1234567", &Mode::Numeric), Ok(()));
    let mut bits = Bits::new(qrencode::Version::Normal(9));
    assert_eq!(
        push_data_for_selected_mode(&mut bits, &sample(Mode::Byte, 256), &Mode::Byte),
        Err(QrError::DataTooLong)
    );
    let mut bits = Bits::new(qrencode::Version::Normal(9));
    assert_eq!(
        push_data_for_selected_mode(&mut bits, &sample(Mode::Byte, 255), &Mode::Byte),
        Ok(())
    );
    assert_eq!(bits.len(), 4 + 8 + 255 * 8);
}

#[test]
fn very_long_payloads_fail_like_long_ones() {
    let data = sample(Mode::Numeric, 0x20000);
    let mut bits = Bits::new(qrencode::Version::Normal(40));
    assert_eq!(
        push_data_for_selected_mode(&mut bits, &data, &Mode::Numeric),
        Err(QrError::DataTooLong)
    );
    let data = sample(Mode::Byte, 0x20000);
    let mut bits = Bits::new(qrencode::Version::Micro(2));
    assert_eq!(
        push_data_for_selected_mode(&mut bits, &data, &Mode::Byte),
        Err(QrError::UnsupportedCharacterSet)
    );
    let data = sample(Mode::Byte, 0x10000);
    let mut bits = Bits::new(qrencode::Version::Normal(40));
    assert_eq!(
        push_data_for_selected_mode(&mut bits, &data, &Mode::Byte),
        Err(QrError::DataTooLong)
    );
    let data = sample(Mode::Byte, 0xffff);
    let mut bits = Bits::new(qrencode::Version::Normal(40));
    assert_eq!(push_data_for_selected_mode(&mut bits, &data, &Mode::Byte), Ok(()));
}

#[test]
fn push_ends_as_stated_for_every_version_and_mode() {
    for version in all_versions() {
        for mode in MODES {
            for len in (0..70).chain([254, 255, 256, 510, 511, 512, 1023, 1024, 2048, 4096, 8192]) {
                if mode == Mode::Kanji && len % 2 == 1 {
                    continue;
                }
                let data = sample(mode, len);
                let mut bits = Bits::new(outside(version));
                let r = push_data_for_selected_mode(&mut bits, &data, &mode);
                assert_eq!(r, expected_push(version, mode, len));
                match r {
                    Ok(()) => assert_eq!(bits.len(), segment_len(version, mode, len)),
                    Err(QrError::UnsupportedCharacterSet) => assert_eq!(bits.len(), 0),
                    Err(_) => assert_eq!(bits.len(), mode_bits(version)),
                }
            }
        }
    }
}

#[test]
fn terminator_fills_the_symbol() {
    let mut bits = Bits::new(qrencode::Version::Normal(1));
    assert_eq!(
        push_data_for_selected_mode(&mut bits, b"HELLO WORLD", &Mode::Alphanumeric),
        Ok(())
    );
    assert_eq!(push_terminator(&mut bits, Ecc::Q), Ok(()));
    assert_eq!(
        bits.into_bytes(),
        vec![
            0b00100000, 0b01011011, 0b00001011, 0b01111000, 0b11010001, 0b01110010, 0b11011100,
            0b01001101, 0b01000011, 0b01000000, 0b11101100, 0b00010001, 0b11101100,
        ]
    );
}

#[test]
fn terminator_of_a_micro_symbol() {
    let mut bits = Bits::new(qrencode::Version::Micro(1));
    assert_eq!(push_data_for_selected_mode(&mut bits, b"99999", &Mode::Numeric), Ok(()));
    assert_eq!(push_terminator(&mut bits, Ecc::L), Ok(()));
    assert_eq!(bits.into_bytes(), vec![0b101_11111, 0b00111_110, 0b0011_0000]);
    let mut bits = Bits::new(qrencode::Version::Micro(1));
    assert_eq!(push_data_for_selected_mode(&mut bits, b"", &Mode::Numeric), Ok(()));
    assert_eq!(push_terminator(&mut bits, Ecc::L), Ok(()));
    assert_eq!(bits.into_bytes(), vec![0b000_000_00, 0b11101100, 0]);
}

#[test]
fn terminator_refuses_a_stream_beyond_the_capacity() {
    let mut bits = Bits::new(qrencode::Version::Micro(1));
    assert_eq!(push_data_for_selected_mode(&mut bits, b"9999999", &Mode::Numeric), Ok(()));
    let before = bits.len();
    assert_eq!(push_terminator(&mut bits, Ecc::L), Err(QrError::DataTooLong));
    assert_eq!(bits.len(), before);
}

#[test]
fn terminator_refuses_a_level_that_the_version_lacks() {
    for (v, ec) in [(1, Ecc::M), (1, Ecc::Q), (1, Ecc::H), (2, Ecc::Q), (3, Ecc::H), (4, Ecc::H)] {
        let mut bits = Bits::new(qrencode::Version::Micro(v));
        assert_eq!(push_terminator(&mut bits, ec), Err(QrError::InvalidVersion));
        assert_eq!(bits.len(), 0);
    }
}

#[test]
fn terminator_refuses_a_stream_that_ends_in_the_half_codeword() {
    let mut bits = Bits::new(qrencode::Version::Micro(3));
    assert_eq!(
        push_data_for_selected_mode(&mut bits, b"12345678901234567890", &Mode::Numeric),
        Ok(())
    );
    assert_eq!(bits.len(), 74);
    assert_eq!(push_terminator(&mut bits, Ecc::L), Err(QrError::UnsupportedLength));
    assert_eq!(bits.len(), 74);
}

#[test]
fn terminator_ends_as_stated_for_every_version_and_level() {
    for version in all_versions() {
        for ec in LEVELS {
            for mode in MODES {
                for len in 0..48 {
                    if mode == Mode::Kanji && len % 2 == 1 {
                        continue;
                    }
                    let mut bits = Bits::new(outside(version));
                    if push_data_for_selected_mode(&mut bits, &sample(mode, len), &mode).is_err() {
                        continue;
                    }
                    let before = bits.len();
                    let expected = match bits.max_len(level(ec)) {
                        Err(_) => Err(QrError::InvalidVersion),
                        Ok(cap) if before > cap => Err(QrError::DataTooLong),
                        Ok(cap) if !paddable(version, before, cap) => Err(QrError::UnsupportedLength),
                        Ok(_) => Ok(()),
                    };
                    assert_eq!(push_terminator(&mut bits, ec), expected);
                    match expected {
                        Ok(()) => {
                            let cap = bits.max_len(level(ec)).unwrap();
                            assert!(bits.len() >= cap);
                            assert_eq!((bits.len() + 7) / 8, (cap + 7) / 8);
                            assert_eq!(bits.into_bytes().len(), (cap + 7) / 8);
                        }
                        Err(_) => assert_eq!(bits.len(), before),
                    }
                }
            }
        }
    }
}

#[test]
fn first_illegal_position_is_the_least() {
    assert_eq!(Mode::Numeric.first_illegal_position(b"0123456789"), None);
    assert_eq!(Mode::Numeric.first_illegal_position(b"012x45y"), Some(3));
    assert_eq!(Mode::Numeric.first_illegal_position(b""), None);
    assert_eq!(Mode::Alphanumeric.first_illegal_position(b"HELLO WORLD $%*+-./:09"), None);
    assert_eq!(Mode::Alphanumeric.first_illegal_position(b"HELLO world"), Some(6));
    assert_eq!(Mode::Alphanumeric.first_illegal_position(b"#"), Some(0));
    assert_eq!(Mode::Byte.first_illegal_position(b"\x00\xff anything"), None);
    assert_eq!(Mode::Kanji.first_illegal_position(b"\x93\x5f\xe4\xaa"), None);
    assert_eq!(Mode::Kanji.first_illegal_position(b"\x93\x5f\xe4"), Some(2));
    assert_eq!(Mode::Kanji.first_illegal_position(b"\x93\x5f\x80\x40\xe4\xaa"), Some(2));
    assert_eq!(Mode::Kanji.first_illegal_position(b"\x81\x7f"), Some(0));
    assert_eq!(Mode::Kanji.first_illegal_position(b"\x81\x3f"), Some(0));
    assert_eq!(Mode::Kanji.first_illegal_position(b"\x81\x40\x9f\xfc\xe0\x40\xeb\xbf"), None);
    assert_eq!(Mode::Kanji.first_illegal_position(b"\x81\x40\x9f\xfd"), Some(2));
    assert_eq!(Mode::Kanji.first_illegal_position(b"\xeb\xc0"), Some(0));
    assert_eq!(Mode::Kanji.first_illegal_position(b"\xec\x40"), Some(0));
    assert_eq!(Mode::Kanji.first_illegal_position(b"\xa0\x40"), Some(0));
}

#[test]
fn admits_agrees_with_the_character_sets() {
    for b in 0..=255u8 {
        assert_eq!(Mode::Numeric.admits(&[b]), b.is_ascii_digit());
        assert_eq!(
            Mode::Alphanumeric.admits(&[b]),
            b.is_ascii_digit() || b.is_ascii_uppercase() || b" $%*+-./:".contains(&b)
        );
        assert!(Mode::Byte.admits(&[b]));
        assert!(!Mode::Kanji.admits(&[b]));
    }
}

#[test]
fn every_kanji_pair_is_packed_into_thirteen_bits() {
    for hi in 0..=255u8 {
        for lo in 0..=255u8 {
            if Mode::Kanji.admits(&[hi, lo]) {
                let mut bits = Bits::new(qrencode::Version::Normal(1));
                assert_eq!(push_data_for_selected_mode(&mut bits, &[hi, lo], &Mode::Kanji), Ok(()));
                assert_eq!(bits.len(), 25);
            }
        }
    }
}

#[test]
fn mode_is_selected_or_validated() {
    assert_eq!(select_or_validate(b"abc", None), Ok(Mode::Byte));
    assert_eq!(select_or_validate(b"123", None), Ok(Mode::Byte));
    assert_eq!(select_or_validate(b"123", Some(Mode::Numeric)), Ok(Mode::Numeric));
    assert_eq!(select_or_validate(b"", Some(Mode::Kanji)), Ok(Mode::Kanji));
    assert_eq!(
        select_or_validate(b"12c4d", Some(Mode::Numeric)),
        Err(IllegalByte { position: 2, byte: b'c' })
    );
    assert_eq!(
        select_or_validate(b"QR code", Some(Mode::Alphanumeric)),
        Err(IllegalByte { position: 3, byte: b'c' })
    );
    assert_eq!(
        select_or_validate(b"\x93\x5f\x93", Some(Mode::Kanji)),
        Err(IllegalByte { position: 2, byte: 0x93 })
    );
    assert_eq!(
        select_or_validate(b"QR code", Some(Mode::Kanji)),
        Err(IllegalByte { position: 0, byte: b'Q' })
    );
}

#[test]
fn widths_of_the_header_fields() {
    assert_eq!(Version::Normal(1).mode_bits(), 4);
    assert_eq!(Version::Micro(1).mode_bits(), 0);
    assert_eq!(Version::Micro(4).mode_bits(), 3);
    assert_eq!(Version::Normal(9).length_bits(Mode::Numeric), 10);
    assert_eq!(Version::Normal(10).length_bits(Mode::Numeric), 12);
    assert_eq!(Version::Normal(26).length_bits(Mode::Byte), 16);
    assert_eq!(Version::Normal(27).length_bits(Mode::Kanji), 12);
    assert_eq!(Version::Micro(3).length_bits(Mode::Alphanumeric), 4);
    assert_eq!(Version::Normal(1).segment_bits(Mode::Numeric, 8), 41);
    assert_eq!(Version::Normal(1).segment_bits(Mode::Alphanumeric, 5), 41);
    assert_eq!(Version::Normal(40).segment_bits(Mode::Byte, 3), 44);
    assert_eq!(Version::Micro(3).segment_bits(Mode::Kanji, 4), 31);
    assert_eq!(Version::Normal(1).terminator_bits(), 4);
    assert_eq!(Version::Micro(2).terminator_bits(), 5);
    assert!(Version::Normal(1).count_fits(Mode::Byte, 255));
    assert!(!Version::Normal(1).count_fits(Mode::Byte, 256));
    assert!(Version::Micro(2).supports(Mode::Alphanumeric));
    assert!(!Version::Micro(2).supports(Mode::Byte));
    for version in all_versions() {
        for mode in MODES {
            assert_eq!(version.supports(mode), supported(version, mode));
            assert_eq!(version.length_bits(mode), length_bits(version, mode));
            assert_eq!(outside(version).mode_bits_count(), version.mode_bits());
        }
        assert_eq!(outside(version).width() as usize, version.width());
    }
}

#[test]
fn segments_are_packed_as_stated() {
    for version in all_versions() {
        for mode in MODES {
            for len in (0..40).chain([41, 64, 100, 255]) {
                if mode == Mode::Kanji && len % 2 == 1 {
                    continue;
                }
                let data = sample(mode, len);
                let mut bits = Bits::new(outside(version));
                if push_data_for_selected_mode(&mut bits, &data, &mode).is_err() {
                    continue;
                }
                let expected = expected_segment(version, mode, &data);
                assert_eq!(bits.len(), expected.len());
                assert_eq!(bits.into_bytes(), pack(&expected));
            }
        }
    }
}

#[test]
fn every_byte_is_packed_as_stated() {
    let version = Version::Normal(10);
    let all: Vec<u8> = (0..=255).collect();
    let mut bits = Bits::new(outside(version));
    assert_eq!(push_data_for_selected_mode(&mut bits, &all, &Mode::Byte), Ok(()));
    assert_eq!(bits.into_bytes(), pack(&expected_segment(version, Mode::Byte, &all)));
    let characters = b"0123456789ABCDEFGHIJKLMNOPQRSTUVWXYZ $%*+-./:";
    for first in characters {
        for second in characters {
            let data = [*first, *second, *second];
            let mut bits = Bits::new(outside(version));
            assert_eq!(push_data_for_selected_mode(&mut bits, &data, &Mode::Alphanumeric), Ok(()));
            assert_eq!(bits.into_bytes(), pack(&expected_segment(version, Mode::Alphanumeric, &data)));
        }
    }
    for hi in 0..=255u8 {
        for lo in 0..=255u8 {
            if Mode::Kanji.admits(&[hi, lo]) {
                let mut bits = Bits::new(outside(version));
                assert_eq!(push_data_for_selected_mode(&mut bits, &[hi, lo], &Mode::Kanji), Ok(()));
                assert_eq!(bits.into_bytes(), pack(&expected_segment(version, Mode::Kanji, &[hi, lo])));
            }
        }
    }
    for value in 0..1000 {
        let data = format!("{value:03}{value}");
        let mut bits = Bits::new(outside(version));
        assert_eq!(push_data_for_selected_mode(&mut bits, data.as_bytes(), &Mode::Numeric), Ok(()));
        assert_eq!(bits.into_bytes(), pack(&expected_segment(version, Mode::Numeric, data.as_bytes())));
    }
}

#[test]
fn two_segments_are_packed_one_after_the_other() {
    let version = Version::Normal(2);
    let mut bits = Bits::new(outside(version));
    assert_eq!(push_data_for_selected_mode(&mut bits, b"12345", &Mode::Numeric), Ok(()));
    assert_eq!(push_data_for_selected_mode(&mut bits, b"AB C", &Mode::Alphanumeric), Ok(()));
    assert_eq!(push_data_for_selected_mode(&mut bits, b"\x93\x5f", &Mode::Kanji), Ok(()));
    let mut expected = expected_segment(version, Mode::Numeric, b"12345");
    expected.extend(expected_segment(version, Mode::Alphanumeric, b"AB C"));
    expected.extend(expected_segment(version, Mode::Kanji, b"\x93\x5f"));
    assert_eq!(bits.len(), expected.len());
    assert_eq!(bits.into_bytes(), pack(&expected));
}

#[test]
fn terminated_streams_are_padded_as_stated() {
    for version in all_versions() {
        for ec in LEVELS {
            for mode in MODES {
                for len in 0..48 {
                    if mode == Mode::Kanji && len % 2 == 1 {
                        continue;
                    }
                    let data = sample(mode, len);
                    let mut bits = Bits::new(outside(version));
                    if push_data_for_selected_mode(&mut bits, &data, &mode).is_err() {
                        continue;
                    }
                    if push_terminator(&mut bits, ec).is_err() {
                        continue;
                    }
                    let cap = bits.max_len(level(ec)).unwrap();
                    let content = expected_segment(version, mode, &data);
                    let expected = expected_terminated(&content, version, cap);
                    assert_eq!(bits.len(), expected.len());
                    assert_eq!(bits.into_bytes(), pack(&expected));
                }
            }
        }
    }
}

#[test]
fn levels_that_a_version_admits() {
    for version in all_versions() {
        for ec in LEVELS {
            let bits = Bits::new(outside(version));
            assert_eq!(admits_level(&version, ec), bits.max_len(level(ec)).is_ok());
        }
    }
    assert!(admits_level(&Version::Micro(1), Ecc::L));
    assert!(!admits_level(&Version::Micro(1), Ecc::M));
    assert!(admits_level(&Version::Micro(3), Ecc::M));
    assert!(!admits_level(&Version::Micro(3), Ecc::Q));
    assert!(admits_level(&Version::Micro(4), Ecc::Q));
    assert!(!admits_level(&Version::Micro(4), Ecc::H));
    assert!(admits_level(&Version::Normal(40), Ecc::H));
    for ec in LEVELS {
        for version in [Version::Normal(0), Version::Normal(41), Version::Micro(0), Version::Micro(5)] {
            assert!(!admits_level(&version, ec));
            assert!(Bits::new(outside(version)).max_len(level(ec)).is_err());
        }
    }
}

#[test]
fn only_a_terminated_stream_fills_its_symbol() {
    let mut bits = Bits::new(qrencode::Version::Normal(1));
    assert!(!fills_symbol(&bits, Ecc::L));
    assert_eq!(push_data_for_selected_mode(&mut bits, b"1234", &Mode::Numeric), Ok(()));
    assert!(!fills_symbol(&bits, Ecc::L));
    assert_eq!(push_terminator(&mut bits, Ecc::L), Ok(()));
    assert!(fills_symbol(&bits, Ecc::L));
    assert!(!fills_symbol(&bits, Ecc::M));
    let mut bits = Bits::new(qrencode::Version::Micro(1));
    assert_eq!(push_data_for_selected_mode(&mut bits, b"12345", &Mode::Numeric), Ok(()));
    assert_eq!(bits.len(), 20);
    assert!(fills_symbol(&bits, Ecc::L));
    assert!(!fills_symbol(&bits, Ecc::M));
}

#[test]
fn capacity_of_every_version_and_level() {
    for version in all_versions() {
        for ec in LEVELS {
            let bits = Bits::new(outside(version));
            assert_eq!(capacity_of(&version, ec), bits.max_len(level(ec)).ok());
        }
    }
    assert_eq!(capacity_of(&Version::Normal(1), Ecc::L), Some(152));
    assert_eq!(capacity_of(&Version::Normal(1), Ecc::H), Some(72));
    assert_eq!(capacity_of(&Version::Normal(40), Ecc::L), Some(23648));
    assert_eq!(capacity_of(&Version::Normal(40), Ecc::H), Some(10208));
    assert_eq!(capacity_of(&Version::Micro(1), Ecc::L), Some(20));
    assert_eq!(capacity_of(&Version::Micro(3), Ecc::M), Some(68));
    assert_eq!(capacity_of(&Version::Micro(4), Ecc::Q), Some(80));
    assert_eq!(capacity_of(&Version::Micro(4), Ecc::H), None);
    assert_eq!(capacity_of(&Version::Normal(41), Ecc::L), None);
    assert_eq!(capacity_of(&Version::Normal(0), Ecc::L), None);
}
