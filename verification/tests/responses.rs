use bl::commands::{BootInfo, Crc32, Response};
use bl::crc32::{check_trailer, open_sealed};
use bl::error::Error;

fn seal(payload: &[u8]) -> Vec<u8> {
    let sum = crc::Crc::<u32>::new(&crc::CRC_32_ISO_HDLC).checksum(payload);
    let mut raw = payload.to_vec();
    raw.extend_from_slice(&sum.to_le_bytes());
    raw
}

fn boot_info_payload() -> Vec<u8> {
    vec![
        0x01, 0x00, 0x06, 0x16, // version
        0x00, // sign
        0x01, // encrypt
        0xa0, 0xa1, 0xa2, 0xa3, 0xa4, 0xa5, // not looked at
        0xfb, 0xaf, 0x35, 0xcf, 0x0e, 0xb4, // chip id, least significant byte first
        0x77, 0x88, // not looked at
    ]
}

#[test]
fn unit_response_ignores_its_input() {
    assert_eq!(<() as Response>::from_raw(&[]), Ok(()));
    assert_eq!(<() as Response>::from_raw(&[1, 2, 3]), Ok(()));
    assert_eq!(<() as Response>::size_hint(), Some(0));
}

#[test]
fn bytes_response_is_a_copy() {
    assert_eq!(<Vec<u8> as Response>::from_raw(&[9, 8, 7]), Ok(vec![9, 8, 7]));
    assert_eq!(<Vec<u8> as Response>::from_raw(&[]), Ok(vec![]));
    assert_eq!(<Vec<u8> as Response>::size_hint(), None);
}

#[test]
fn text_response_is_the_utf8_text() {
    assert_eq!(
        <String as Response>::from_raw(b"CHIPWB03A00_BL\x00\x00"),
        Ok("CHIPWB03A00_BL\u{0}\u{0}".to_string())
    );
    assert_eq!(
        <String as Response>::from_raw(&[0xe2, 0x82, 0xac, 0x21]),
        Ok("\u{20ac}!".to_string())
    );
    assert_eq!(<String as Response>::from_raw(&[]), Ok(String::new()));
    assert_eq!(<String as Response>::size_hint(), None);
}

#[test]
fn text_response_refuses_invalid_utf8() {
    assert_eq!(<String as Response>::from_raw(&[0xff, 0xfe]), Err(Error::TextDecodeError));
    assert_eq!(<String as Response>::from_raw(&[0x41, 0xe2, 0x82]), Err(Error::TextDecodeError));
    assert_eq!(<String as Response>::from_raw(&[0xc0, 0x80]), Err(Error::TextDecodeError));
}

#[test]
fn boot_info_fields() {
    let info = BootInfo::from_raw(&boot_info_payload()).unwrap();
    assert_eq!(info.boot_rom_version, [0x01, 0x00, 0x06, 0x16]);
    assert_eq!(info.sign, 0x00);
    assert_eq!(info.encrypt, 0x01);
    assert_eq!(info.chip_id, vec![0xb4, 0x0e, 0xcf, 0x35, 0xaf, 0xfb]);
    assert_eq!(BootInfo::size_hint(), None);
}

#[test]
fn boot_info_chip_id_is_bytes_12_to_17_reversed() {
    let raw: Vec<u8> = (0..40u8).collect();
    let info = BootInfo::from_raw(&raw).unwrap();
    let mut expected = raw[12..18].to_vec();
    expected.reverse();
    assert_eq!(info.chip_id, expected);
    assert_eq!(info.chip_id, vec![17, 16, 15, 14, 13, 12]);
    assert_eq!(info.boot_rom_version, [0, 1, 2, 3]);
    assert_eq!(info.sign, 4);
    assert_eq!(info.encrypt, 5);
}

#[test]
fn boot_info_of_exactly_eighteen_bytes() {
    let raw = &boot_info_payload()[..18];
    let info = BootInfo::from_raw(raw).unwrap();
    assert_eq!(info.chip_id, vec![0xb4, 0x0e, 0xcf, 0x35, 0xaf, 0xfb]);
}

#[test]
fn boot_info_too_short_is_a_protocol_violation() {
    let raw = &boot_info_payload()[..17];
    assert_eq!(BootInfo::from_raw(raw), Err(Error::ProtocolViolation(raw.to_vec())));
    assert_eq!(BootInfo::from_raw(&[]), Err(Error::ProtocolViolation(vec![])));
}

#[test]
fn crc32_of_the_check_string() {
    // the catalogue's check value of CRC-32/ISO-HDLC
    let mut raw = b"123456789".to_vec();
    raw.extend_from_slice(&[0x26, 0x39, 0xf4, 0xcb]);
    assert_eq!(open_sealed(&raw), Ok(&b"123456789"[..]));
    assert_eq!(
        <Crc32<Vec<u8>> as Response>::from_raw(&raw),
        Ok(Crc32 { data: b"123456789".to_vec() })
    );
}

#[test]
fn crc32_round_trip() {
    let mac = vec![0xb4, 0x0e, 0xcf, 0x35, 0xaf, 0xfb];
    let decoded = <Crc32<Vec<u8>> as Response>::from_raw(&seal(&mac)).unwrap();
    assert_eq!(decoded.data, mac);
    // read access goes through to the inner value
    assert_eq!(decoded.len(), 6);
    assert_eq!(decoded[0], 0xb4);
    assert_eq!(*decoded, mac);
}

#[test]
fn crc32_round_trip_of_an_empty_payload() {
    // the checksum of nothing is zero
    assert_eq!(seal(&[]), vec![0, 0, 0, 0]);
    assert_eq!(
        <Crc32<Vec<u8>> as Response>::from_raw(&[0, 0, 0, 0]),
        Ok(Crc32 { data: vec![] })
    );
}

#[test]
fn crc32_hands_the_body_to_the_inner_decoder() {
    assert_eq!(
        <Crc32<String> as Response>::from_raw(&seal(b"hello")),
        Ok(Crc32 { data: "hello".to_string() })
    );
    assert_eq!(
        <Crc32<String> as Response>::from_raw(&seal(&[0xff])),
        Err(Error::TextDecodeError)
    );
    assert_eq!(<Crc32<()> as Response>::from_raw(&seal(&[1, 2])), Ok(Crc32 { data: () }));
    let nested = seal(&seal(&[5, 6, 7]));
    assert_eq!(
        <Crc32<Crc32<Vec<u8>>> as Response>::from_raw(&nested),
        Ok(Crc32 { data: Crc32 { data: vec![5, 6, 7] } })
    );
}

#[test]
fn crc32_every_flipped_trailer_bit_is_a_mismatch() {
    let good = seal(&[0xb4, 0x0e, 0xcf, 0x35, 0xaf, 0xfb]);
    let n = good.len();
    for byte in n - 4..n {
        for bit in 0..8 {
            let mut bad = good.clone();
            bad[byte] ^= 1 << bit;
            assert_eq!(
                <Crc32<Vec<u8>> as Response>::from_raw(&bad),
                Err(Error::ChecksumMismatch)
            );
        }
    }
}

#[test]
fn crc32_a_changed_body_is_a_mismatch() {
    let mut raw = seal(&[1, 2, 3, 4, 5]);
    raw[0] ^= 0x80;
    assert_eq!(<Crc32<Vec<u8>> as Response>::from_raw(&raw), Err(Error::ChecksumMismatch));
    // a mismatch comes first, before the inner decoder could object
    let mut text = seal(&[0xff, 0xff]);
    text[5] ^= 1;
    assert_eq!(<Crc32<String> as Response>::from_raw(&text), Err(Error::ChecksumMismatch));
}

#[test]
fn crc32_short_input_is_an_error() {
    for len in 0..4 {
        let raw = vec![0u8; len];
        assert_eq!(<Crc32<Vec<u8>> as Response>::from_raw(&raw), Err(Error::ChecksumMismatch));
        assert_eq!(<Crc32<()> as Response>::from_raw(&raw), Err(Error::ChecksumMismatch));
        assert_eq!(open_sealed(&raw), Err(Error::ChecksumMismatch));
    }
    assert_eq!(<Crc32<Vec<u8>> as Response>::size_hint(), None);
}

#[test]
fn check_trailer_compares_with_the_given_sum() {
    let raw = [0xaa, 0xbb, 0x78, 0x56, 0x34, 0x12];
    assert_eq!(check_trailer(&raw, 0x1234_5678), Ok(&[0xaa, 0xbb][..]));
    assert_eq!(check_trailer(&raw, 0x1234_5679), Err(Error::ChecksumMismatch));
    assert_eq!(check_trailer(&raw[2..], 0x1234_5678), Ok(&[][..]));
    assert_eq!(check_trailer(&raw[3..], 0x0012_3456), Err(Error::ChecksumMismatch));
}
