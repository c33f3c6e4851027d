use qrencode::bits::Bits;
use qrtool::command::encode;
use qrtool::{
    encode_with_error_correction_level, encode_with_mode, encode_with_version, Ecc, Metadata, Mode,
    QrCode, QrError, Variant, Version,
};

fn symbol(bits: qrencode::bits::Bits, ec: Ecc) -> QrCode {
    let level = match ec {
        Ecc::L => qrencode::EcLevel::L,
        Ecc::M => qrencode::EcLevel::M,
        Ecc::Q => qrencode::EcLevel::Q,
        Ecc::H => qrencode::EcLevel::H,
    };
    let code = qrencode::QrCode::with_bits(bits, level).unwrap();
    let version = match code.version() {
        qrencode::Version::Normal(v) => Version::Normal(v),
        qrencode::Version::Micro(v) => Version::Micro(v),
    };
    let modules = code.into_colors().into_iter().map(|c| c == qrencode::Color::Dark).collect();
    QrCode::new(version, ec, modules).unwrap()
}

fn with_mode(data: &[u8], version: Version, mode: Mode, ec: Ecc) -> Result<QrCode, QrError> {
    encode_with_mode(data, version, mode, ec).map(|bits| symbol(bits, ec))
}

fn with_version(data: &[u8], version: Version, ec: Ecc) -> Result<QrCode, QrError> {
    encode_with_version(data, version, ec).map(|bits| symbol(bits, ec))
}

fn with_error_correction_level(data: &[u8], ec: Ecc) -> Result<QrCode, QrError> {
    encode_with_error_correction_level(data, ec).map(|bits| symbol(bits, ec))
}

fn construct(
    input: &[u8],
    ec: Ecc,
    symbol_version: Option<i16>,
    variant: &Variant,
    mode: Option<Mode>,
) -> Result<QrCode, QrError> {
    encode(input, ec, symbol_version, variant, mode).map(|bits| symbol(bits, ec))
}


fn picture(code: &QrCode) -> String {
    let side = code.width();
    let mut text = String::new();
    for y in 0..side {
        for x in 0..side {
            text.push(if code.is_dark(x, y) { '#' } else { '.' });
        }
        text.push('\n');
    }
    text
}

fn reference(data: &[u8], version: qrencode::Version, mode: Mode, level: qrencode::EcLevel) -> Vec<bool> {
    let mut bits = Bits::new(version);
    match mode {
        Mode::Numeric => bits.push_numeric_data(data),
        Mode::Alphanumeric => bits.push_alphanumeric_data(data),
        Mode::Byte => bits.push_byte_data(data),
        Mode::Kanji => bits.push_kanji_data(data),
    }
    .unwrap();
    bits.push_terminator(level).unwrap();
    qrencode::QrCode::with_bits(bits, level)
        .unwrap()
        .into_colors()
        .into_iter()
        .map(|c| c == qrencode::Color::Dark)
        .collect()
}

#[test]
fn symbol_of_the_standard() {
    let code = with_mode(b"01234567", Version::Normal(1), Mode::Numeric, Ecc::M).unwrap();
    assert_eq!(code.version(), Version::Normal(1));
    assert_eq!(code.error_correction_level(), Ecc::M);
    assert_eq!(code.width(), 21);
    assert_eq!(
        picture(&code),
        "\
#######..#.##.#######
#.....#..####.#.....#
#.###.#.#.....#.###.#
#.###.#.##....#.###.#
#.###.#.#.###.#.###.#
#.....#.#...#.#.....#
#######.#.#.#.#######
........#..##........
#.#####..#..#.#####..
...#.#.##.#.#..#.##..
..#...##.#.#.#..#####
....#....#.....####..
...######..#.#..#....
........#.#####..##..
#######..##.#.##.....
#.....#.#.#####...#.#
#.###.#.#...#..#.##..
#.###.#.##..#..#.....
#.###.#.#.##.#..#.#..
#.....#........##.##.
#######.####.#..#.#..
"
    );
}

#[test]
fn micro_symbol_of_the_standard() {
    let code = with_mode(b"01234567", Version::Micro(2), Mode::Numeric, Ecc::L).unwrap();
    assert_eq!(code.version(), Version::Micro(2));
    assert_eq!(code.width(), 13);
    assert_eq!(
        picture(&code),
        "\
#######.#.#.#
#.....#.###.#
#.###.#..##.#
#.###.#..####
#.###.#.###..
#.....#.#...#
#######..####
.........##..
##.#....#...#
.##.#.#.#.#.#
###..#######.
...#.#....##.
###.#..##.###
"
    );
}

#[test]
fn symbol_in_every_mode() {
    let cases: [(Mode, &[u8]); 4] = [
        (Mode::Numeric, b"31415926535897932384626433832795"),
        (Mode::Alphanumeric, b"HTTP://EXAMPLE.COM/A-B $1.00 50%"),
        (Mode::Byte, b"QR code \x00\xff\x80"),
        (Mode::Kanji, b"\x93\x5f\xe4\xaa\x81\x40\xeb\xbf"),
    ];
    for (mode, data) in cases {
        let code = with_mode(data, Version::Normal(3), mode, Ecc::Q).unwrap();
        assert_eq!(
            code.to_colors(),
            reference(data, qrencode::Version::Normal(3), mode, qrencode::EcLevel::Q)
        );
        assert_eq!(code.width(), 29);
        assert_eq!(code.to_colors().len(), 29 * 29);
    }
    let code = with_mode(b"QR", Version::Micro(4), Mode::Byte, Ecc::Q).unwrap();
    assert_eq!(
        code.to_colors(),
        reference(b"QR", qrencode::Version::Micro(4), Mode::Byte, qrencode::EcLevel::Q)
    );
    assert_eq!(code.width(), 17);
}

#[test]
fn symbol_of_a_version_holds_bytes() {
    let code = with_version(b"12345", Version::Normal(2), Ecc::H).unwrap();
    assert_eq!(
        code.to_colors(),
        reference(b"12345", qrencode::Version::Normal(2), Mode::Byte, qrencode::EcLevel::H)
    );
    assert_eq!(code.metadata(), Metadata::new(2, Ecc::H));
}

#[test]
fn metadata_of_every_version_and_level() {
    for ec in [Ecc::L, Ecc::M, Ecc::Q, Ecc::H] {
        for v in 1..=40 {
            let code = with_version(b"", Version::Normal(v), ec).unwrap();
            assert_eq!(code.metadata(), Metadata::new(v as usize, ec));
            assert_eq!(code.metadata().symbol_version(), v as usize);
            assert_eq!(code.metadata().error_correction_level(), ec);
            assert_eq!(code.width(), v as usize * 4 + 17);
        }
    }
    let code = with_mode(b"", Version::Micro(4), Mode::Numeric, Ecc::Q).unwrap();
    assert_eq!(code.metadata(), Metadata::new(4, Ecc::Q));
    assert_eq!(code.width(), 17);
}

#[test]
fn construction_errors() {
    assert!(matches!(
        with_version(b"", Version::Normal(0), Ecc::L),
        Err(QrError::InvalidVersion)
    ));
    assert!(matches!(
        with_version(b"", Version::Normal(41), Ecc::L),
        Err(QrError::InvalidVersion)
    ));
    assert!(matches!(
        with_version(b"", Version::Micro(0), Ecc::L),
        Err(QrError::InvalidVersion)
    ));
    assert!(matches!(
        with_version(b"", Version::Micro(5), Ecc::L),
        Err(QrError::InvalidVersion)
    ));
    assert!(matches!(
        with_mode(b"12x", Version::Normal(1), Mode::Numeric, Ecc::L),
        Err(QrError::InvalidCharacter)
    ));
    assert!(matches!(
        with_version(b"x", Version::Micro(2), Ecc::L),
        Err(QrError::UnsupportedCharacterSet)
    ));
    assert!(matches!(
        with_mode(b"1", Version::Micro(1), Mode::Numeric, Ecc::M),
        Err(QrError::InvalidVersion)
    ));
    assert!(matches!(
        with_version(b">>>>>>>>", Version::Normal(1), Ecc::H),
        Err(QrError::DataTooLong)
    ));
    assert!(with_version(b">>>>>>>", Version::Normal(1), Ecc::H).is_ok());
    assert!(matches!(
        with_mode(b"12345678901234567890", Version::Micro(3), Mode::Numeric, Ecc::L),
        Err(QrError::UnsupportedLength)
    ));
    assert!(with_mode(b"123456789012345678901", Version::Micro(3), Mode::Numeric, Ecc::L).is_ok());
}

#[test]
fn smallest_version_is_chosen() {
    let cases: [(usize, Ecc, i16); 12] = [
        (0, Ecc::L, 1),
        (7, Ecc::M, 1),
        (17, Ecc::L, 1),
        (18, Ecc::L, 2),
        (7, Ecc::H, 1),
        (8, Ecc::H, 2),
        (15, Ecc::H, 3),
        (230, Ecc::L, 9),
        (231, Ecc::L, 10),
        (271, Ecc::L, 10),
        (2953, Ecc::L, 40),
        (1273, Ecc::H, 40),
    ];
    for (len, ec, version) in cases {
        let data = vec![b'a'; len];
        let code = with_error_correction_level(&data, ec).unwrap();
        assert_eq!(code.version(), Version::Normal(version));
        assert_eq!(code.error_correction_level(), ec);
        let same = with_version(&data, Version::Normal(version), ec).unwrap();
        assert_eq!(code.to_colors(), same.to_colors());
        if version > 1 {
            assert!(with_version(&data, Version::Normal(version - 1), ec).is_err());
        }
    }
}

#[test]
fn payload_beyond_the_largest_version_is_refused() {
    assert!(matches!(
        with_error_correction_level(&vec![0u8; 2954], Ecc::L),
        Err(QrError::DataTooLong)
    ));
    assert!(matches!(
        with_error_correction_level(&vec![0u8; 1274], Ecc::H),
        Err(QrError::DataTooLong)
    ));
    assert!(matches!(
        with_error_correction_level(&vec![0u8; 200_000], Ecc::M),
        Err(QrError::DataTooLong)
    ));
}

#[test]
fn terminated_stream_becomes_a_symbol() {
    let mut bits = Bits::new(qrencode::Version::Normal(1));
    qrtool::push_data_for_selected_mode(&mut bits, b"HELLO WORLD", &Mode::Alphanumeric).unwrap();
    qrtool::push_terminator(&mut bits, Ecc::Q).unwrap();
    let code = symbol(bits, Ecc::Q);
    assert_eq!(code.metadata(), Metadata::new(1, Ecc::Q));
    assert_eq!(
        code.to_colors(),
        reference(b"HELLO WORLD", qrencode::Version::Normal(1), Mode::Alphanumeric, qrencode::EcLevel::Q)
    );
}

#[test]
fn symbol_needs_a_version_a_level_and_its_modules() {
    assert!(QrCode::new(Version::Normal(1), Ecc::L, vec![false; 441]).is_some());
    assert!(QrCode::new(Version::Normal(1), Ecc::L, vec![false; 440]).is_none());
    assert!(QrCode::new(Version::Normal(1), Ecc::L, Vec::new()).is_none());
    assert!(QrCode::new(Version::Normal(0), Ecc::L, Vec::new()).is_none());
    assert!(QrCode::new(Version::Normal(41), Ecc::L, vec![false; 181 * 181]).is_none());
    assert!(QrCode::new(Version::Normal(40), Ecc::H, vec![true; 177 * 177]).is_some());
    assert!(QrCode::new(Version::Micro(1), Ecc::L, vec![false; 121]).is_some());
    assert!(QrCode::new(Version::Micro(1), Ecc::M, vec![false; 121]).is_none());
    assert!(QrCode::new(Version::Micro(4), Ecc::Q, vec![false; 289]).is_some());
    assert!(QrCode::new(Version::Micro(4), Ecc::H, vec![false; 289]).is_none());
    assert!(QrCode::new(Version::Micro(5), Ecc::L, vec![false; 361]).is_none());
    let mut modules = vec![false; 441];
    modules[1] = true;
    modules[21] = true;
    let code = QrCode::new(Version::Normal(1), Ecc::Q, modules.clone()).unwrap();
    assert_eq!(code.version(), Version::Normal(1));
    assert_eq!(code.error_correction_level(), Ecc::Q);
    assert_eq!(code.metadata(), Metadata::new(1, Ecc::Q));
    assert_eq!(code.width(), 21);
    assert_eq!(code.to_colors(), modules);
    assert!(code.is_dark(1, 0));
    assert!(code.is_dark(0, 1));
    assert!(!code.is_dark(0, 0));
    assert!(!code.is_dark(1, 1));
}

#[test]
fn stream_of_a_symbol_is_terminated() {
    for (data, version, mode, ec) in [
        (&b"QR code"[..], Version::Normal(1), Mode::Byte, Ecc::M),
        (b"0123456789", Version::Micro(2), Mode::Numeric, Ecc::L),
        (b"HELLO WORLD", Version::Normal(40), Mode::Alphanumeric, Ecc::H),
    ] {
        let bits = encode_with_mode(data, version, mode, ec).unwrap();
        assert!(qrtool::fills_symbol(&bits, ec));
        let mut same = Bits::new(match version {
            Version::Normal(v) => qrencode::Version::Normal(v),
            Version::Micro(v) => qrencode::Version::Micro(v),
        });
        qrtool::push_data_for_selected_mode(&mut same, data, &mode).unwrap();
        qrtool::push_terminator(&mut same, ec).unwrap();
        assert_eq!(bits.len(), same.len());
        assert_eq!(bits.into_bytes(), same.into_bytes());
    }
    let bits = encode_with_error_correction_level(&[b'a'; 18], Ecc::L).unwrap();
    assert_eq!(bits.version(), qrencode::Version::Normal(2));
    assert_eq!(bits.len(), 272);
    assert!(matches!(encode_with_version(b"", Version::Normal(41), Ecc::L), Err(QrError::InvalidVersion)));
}

#[test]
fn symbol_of_a_run() {
    let code = construct(b"QR code", Ecc::M, None, &Variant::Normal, Some(Mode::Byte)).unwrap();
    assert_eq!(code.metadata(), Metadata::new(1, Ecc::M));
    let code = construct(b"QR code", Ecc::M, Some(5), &Variant::Normal, Some(Mode::Byte)).unwrap();
    assert_eq!(code.metadata(), Metadata::new(5, Ecc::M));
    let same = construct(b"QR code", Ecc::M, Some(5), &Variant::Normal, None).unwrap();
    assert_eq!(same.to_colors(), code.to_colors());
    let code = construct(b"42", Ecc::L, Some(1), &Variant::Micro, Some(Mode::Numeric)).unwrap();
    assert_eq!(code.version(), Version::Micro(1));
    assert!(matches!(
        construct(b"QR code", Ecc::M, Some(41), &Variant::Normal, Some(Mode::Byte)),
        Err(QrError::InvalidVersion)
    ));
    assert!(matches!(
        construct(b"QR code", Ecc::M, Some(5), &Variant::Micro, Some(Mode::Byte)),
        Err(QrError::InvalidVersion)
    ));
    assert!(matches!(
        construct(b"QR code", Ecc::M, Some(1), &Variant::Normal, Some(Mode::Numeric)),
        Err(QrError::InvalidCharacter)
    ));
    assert!(matches!(
        construct(b"QR code", Ecc::M, Some(1), &Variant::Normal, Some(Mode::Alphanumeric)),
        Err(QrError::InvalidCharacter)
    ));
    assert!(matches!(
        construct(b"QR code", Ecc::M, Some(1), &Variant::Normal, Some(Mode::Kanji)),
        Err(QrError::InvalidCharacter)
    ));
}

#[test]
fn symbols_of_every_version_level_and_mode() {
    let payloads: [(Mode, &[u8]); 4] = [
        (Mode::Numeric, b"0123456789"),
        (Mode::Alphanumeric, b"QR-CODE 1"),
        (Mode::Byte, b"QR code"),
        (Mode::Kanji, b"\x93\x5f\xe4\xaa"),
    ];
    let mut made = 0;
    for ec in [Ecc::L, Ecc::M, Ecc::Q, Ecc::H] {
        let mut versions: Vec<Version> = (1..=10).map(Version::Normal).collect();
        versions.extend([Version::Normal(26), Version::Normal(27), Version::Normal(40)]);
        versions.extend((1..=4).map(Version::Micro));
        for version in versions {
            for (mode, data) in payloads {
                match with_mode(data, version, mode, ec) {
                    Ok(code) => {
                        made += 1;
                        assert!(qrtool::admits_level(&version, ec));
                        assert!(version.supports(mode));
                        assert_eq!(code.version(), version);
                        assert_eq!(code.error_correction_level(), ec);
                        assert_eq!(code.to_colors().len(), version.width() * version.width());
                    }
                    Err(QrError::UnsupportedCharacterSet) => assert!(!version.supports(mode)),
                    Err(QrError::InvalidVersion) => assert!(!qrtool::admits_level(&version, ec)),
                    Err(QrError::DataTooLong) => assert!(matches!(version, Version::Micro(_))),
                    Err(QrError::UnsupportedLength) => {
                        assert!(matches!(version, Version::Micro(1) | Version::Micro(3)))
                    }
                    Err(e) => panic!("{e:?}"),
                }
            }
        }
    }
    assert!(made >= 4 * 13 * 4);
}
