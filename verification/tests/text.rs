use reward_oracle::address::{contains_address, Address, Rank};
use reward_oracle::config::{parse_sha256_sum, ChecksumError};
use reward_oracle::custom_serde::hex_bytes::{self, HexError};
use reward_oracle::custom_serde::{checksumed_address, u256_dec, ChecksumedAddress};
use reward_oracle::decimal::FromDecStrErr;
use reward_oracle::uint::U256;

fn address(text: &str) -> Address {
    Address::from_text(text).unwrap()
}

#[test]
fn address_text_is_read_with_and_without_prefix() {
    let a = address("0x5C9d6aFE82C8f1c33aB274C577932F2D40778347");
    assert_eq!(
        a.bytes,
        [
            0x5c, 0x9d, 0x6a, 0xfe, 0x82, 0xc8, 0xf1, 0xc3, 0x3a, 0xb2, 0x74, 0xc5, 0x77, 0x93,
            0x2f, 0x2d, 0x40, 0x77, 0x83, 0x47
        ]
    );
    assert_eq!(address("5c9d6afe82c8f1c33ab274c577932f2d40778347"), a);
    assert_eq!(address("0X5c9d6afe82c8f1c33ab274c577932f2d40778347".trim_start_matches("0X")), a);
}

#[test]
fn address_text_may_hold_blanks() {
    let a = address("0x5C9d6aFE82C8f1c33aB274C577932F2D40778347");
    assert_eq!(address("0x5C9d6aFE82C8f1c33aB2 74C577932F2D40778347\n"), a);
    assert_eq!(address("0x\t5C9d6aFE82C8f1c33aB274C577932F2D4077834 7"), a);
    assert_eq!(Address::from_text(" 0x5C9d6aFE82C8f1c33aB274C577932F2D40778347"), None);
}

#[test]
fn malformed_address_text_is_refused() {
    assert_eq!(Address::from_text(""), None);
    assert_eq!(Address::from_text("0x"), None);
    assert_eq!(Address::from_text("0x5C9d6aFE82C8f1c33aB274C577932F2D4077834"), None);
    assert_eq!(Address::from_text("0x5C9d6aFE82C8f1c33aB274C577932F2D407783470"), None);
    assert_eq!(Address::from_text("0x5C9d6aFE82C8f1c33aB274C577932F2D4077834700"), None);
    assert_eq!(Address::from_text("0x5C9d6aFE82C8f1c33aB274C577932F2D4077834g"), None);
    assert_eq!(Address::from_text("0x0x5C9d6aFE82C8f1c33aB274C577932F2D40778347"), None);
    assert_eq!(Address::from_text("0x5C9d6aFE82C8f1c33aB274C577932F2D40778347 x"), None);
    assert_eq!(Address::from_text("0x5C9d6aFE82C8f1c33aB274C577932F2D4077834\u{e9}"), None);
}

#[test]
fn checksum_text_follows_the_hash() {
    for text in [
        "0x5aAeb6053F3E94C9b9A09f33669435E7Ef1BeAed",
        "0xfB6916095ca1df60bB79Ce92cE3Ea74c37c5d359",
        "0xdbF03B407c01E7cD3CBea99509d93f8DDDC8C6FB",
        "0xD1220A0cf47c7B9Be7A2E6BA89F429762e7b9aDb",
        "0x5C9d6aFE82C8f1c33aB274C577932F2D40778347",
        "0x0000000000000000000000000000000000000000",
    ] {
        let a = address(&text.to_lowercase());
        assert_eq!(a.to_checksum(), text);
        assert_eq!(checksumed_address::serialize(&a), text);
        assert_eq!(ChecksumedAddress::serialize_as(&a), text);
    }
}

#[test]
fn addresses_are_ordered_by_their_bytes() {
    let low = address("0x00000000000000000000000000000000000000ff");
    let mid = address("0x0000000000000000000000000000000000000100");
    let high = address("0x0100000000000000000000000000000000000000");
    assert_eq!(low.rank(&mid), Rank::Below);
    assert_eq!(mid.rank(&low), Rank::Above);
    assert_eq!(mid.rank(&high), Rank::Below);
    assert_eq!(high.rank(&low), Rank::Above);
    assert_eq!(high.rank(&high), Rank::Same);
    assert!(high.same(&high));
    assert!(!high.same(&low));
    assert!(contains_address(&vec![low, high], &high));
    assert!(!contains_address(&vec![low, high], &mid));
    assert!(!contains_address(&vec![], &mid));
}

#[test]
fn order_agrees_with_the_order_of_the_byte_arrays() {
    let samples = [
        address("0x0000000000000000000000000000000000000000"),
        address("0x00000000000000000000000000000000000000ff"),
        address("0x000000000000000000000000000000000000ff00"),
        address("0x7fffffffffffffffffffffffffffffffffffffff"),
        address("0x8000000000000000000000000000000000000000"),
        address("0xffffffffffffffffffffffffffffffffffffffff"),
    ];
    for a in &samples {
        for b in &samples {
            let expected = match a.bytes.cmp(&b.bytes) {
                std::cmp::Ordering::Less => Rank::Below,
                std::cmp::Ordering::Equal => Rank::Same,
                std::cmp::Ordering::Greater => Rank::Above,
            };
            assert_eq!(a.rank(b), expected);
        }
    }
}

#[test]
fn amounts_travel_as_decimal_text() {
    let v = U256::from_dec_str("100000000000000000000").unwrap();
    assert_eq!(u256_dec::serialize(&v), "100000000000000000000");
    assert_eq!(u256_dec::deserialize("100000000000000000000"), Ok(v));
    assert_eq!(u256_dec::deserialize("0x10"), Err(FromDecStrErr::InvalidCharacter));
    assert_eq!(u256_dec::deserialize(&"9".repeat(78)), Err(FromDecStrErr::InvalidLength));
    assert_eq!(u256_dec::deserialize(&u256_dec::serialize(&v)), Ok(v));
}

#[test]
fn bytes_travel_as_prefixed_hex() {
    assert_eq!(hex_bytes::serialize(&[]), "0x");
    assert_eq!(hex_bytes::serialize(&[0x00, 0x0f, 0xa0, 0xff]), "0x000fa0ff");
    assert_eq!(hex_bytes::deserialize("0x000fa0ff"), Ok(vec![0x00, 0x0f, 0xa0, 0xff]));
    assert_eq!(hex_bytes::deserialize("000FA0Ff"), Ok(vec![0x00, 0x0f, 0xa0, 0xff]));
    assert_eq!(hex_bytes::deserialize("0x0x0x12"), Ok(vec![0x12]));
    assert_eq!(hex_bytes::deserialize("0x"), Ok(vec![]));
    assert_eq!(hex_bytes::deserialize(""), Ok(vec![]));
    assert_eq!(hex_bytes::deserialize("0x123"), Err(HexError::InvalidHex));
    assert_eq!(hex_bytes::deserialize("0xzz"), Err(HexError::InvalidHex));
    assert_eq!(hex_bytes::deserialize("0X12"), Err(HexError::InvalidHex));
    assert_eq!(hex_bytes::deserialize("12 34"), Err(HexError::InvalidHex));
    assert_eq!(hex_bytes::deserialize("\u{e9}"), Err(HexError::InvalidHex));
    assert_eq!(hex_bytes::deserialize("a\u{e9}b"), Err(HexError::InvalidHex));
    let bytes: Vec<u8> = (0..=255).collect();
    assert_eq!(hex_bytes::deserialize(&hex_bytes::serialize(&bytes)), Ok(bytes));
}

#[test]
fn checksum_of_the_configuration_is_read() {
    let text = "ba7816bf8f01cfea414140de5dae2223b00361a396177a9cb410ff61f20015ad";
    let expected = [
        0xba, 0x78, 0x16, 0xbf, 0x8f, 0x01, 0xcf, 0xea, 0x41, 0x41, 0x40, 0xde, 0x5d, 0xae, 0x22,
        0x23, 0xb0, 0x03, 0x61, 0xa3, 0x96, 0x17, 0x7a, 0x9c, 0xb4, 0x10, 0xff, 0x61, 0xf2, 0x00,
        0x15, 0xad,
    ];
    assert_eq!(parse_sha256_sum(text), Ok(expected));
    assert_eq!(parse_sha256_sum(&format!("0x{text}")), Ok(expected));
    assert_eq!(parse_sha256_sum(&text.to_uppercase()), Ok(expected));
    assert_eq!(
        parse_sha256_sum(&text[2..]),
        Err(ChecksumError::InvalidByteLength { length: 31 })
    );
    assert_eq!(
        parse_sha256_sum(&format!("{text}00")),
        Err(ChecksumError::InvalidByteLength { length: 33 })
    );
    assert_eq!(parse_sha256_sum(""), Err(ChecksumError::InvalidByteLength { length: 0 }));
    assert_eq!(parse_sha256_sum(&text[1..]), Err(ChecksumError::InvalidHex));
    assert_eq!(parse_sha256_sum("0xnothex"), Err(ChecksumError::InvalidHex));
}
