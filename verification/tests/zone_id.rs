use geo_plegmata::adapters::dggrid::isea3h::{
    extract_res_from_cellid, extract_res_from_z3, extract_res_from_z7,
};
use geo_plegmata::error::DggsError;
use geo_plegmata::models::common::ZoneID;

#[test]
fn zone_id_accepts_16_and_18_letters_and_digits() {
    let sixteen = "0123456789abcdeF";
    let eighteen = "05ZzAa0123456789xY";
    assert_eq!(ZoneID::new(sixteen).unwrap().id, sixteen);
    assert_eq!(ZoneID::new(eighteen).unwrap().id, eighteen);
    assert_eq!(ZoneID::new(eighteen).unwrap().to_string(), eighteen);
}

#[test]
fn zone_id_rejects_other_lengths() {
    for len in 0..40usize {
        let text = "a".repeat(len);
        let made = ZoneID::new(&text);
        if len == 16 || len == 18 {
            assert!(made.is_ok());
        } else {
            assert_eq!(made.err(), Some(DggsError::InvalidZoneIdFormat));
        }
    }
}

#[test]
fn zone_id_rejects_other_characters() {
    for bad in ["0123456789abcde-", "0123456789abcde ", "_123456789abcdef", "0123456789abcdef.1", "0123456789ab\u{e9}cde"] {
        assert_eq!(ZoneID::new(bad).err(), Some(DggsError::InvalidZoneIdFormat));
    }
    // sixteen characters, each a letter, none of them ASCII
    let greek = "\u{3b1}".repeat(16);
    assert_eq!(ZoneID::new(&greek).err(), Some(DggsError::InvalidZoneIdFormat));
    // sixteen bytes in eight characters
    let eight = "\u{3b1}".repeat(8);
    assert_eq!(eight.len(), 16);
    assert_eq!(ZoneID::new(&eight).err(), Some(DggsError::InvalidZoneIdFormat));
}

#[test]
fn zone_id_agrees_with_the_standard_character_class() {
    for c in (0u32..0x3000).filter_map(char::from_u32) {
        let mut text = "0".repeat(15);
        text.push(c);
        assert_eq!(ZoneID::new(&text).is_ok(), c.is_ascii_alphanumeric(), "{:?}", c);
    }
}

#[test]
fn zone_id_default_is_valid() {
    let zone = ZoneID::default();
    assert_eq!(zone.id, "0000000000000000");
    assert!(ZoneID::new(&zone.id).is_ok());
}

#[test]
fn z3_level_is_the_two_digit_prefix() {
    assert_eq!(extract_res_from_z3("05abcdef"), Ok(5));
    assert_eq!(extract_res_from_z3("00"), Ok(0));
    assert_eq!(extract_res_from_z3("99zz"), Ok(99));
    assert_eq!(extract_res_from_z3("1234"), Ok(12));
}

#[test]
fn z3_rejects_what_is_no_prefix() {
    for bad in [
        "", "5", "a5", "5a", "-5", "+5", "+5abc", "+7xx", "++", "+", " 5", "5 ", "\u{e9}",
        "0\u{e9}", "\u{661}\u{662}", "+a", "ab",
    ] {
        assert_eq!(extract_res_from_z3(bad), Err(DggsError::InvalidZoneIdFormat), "{:?}", bad);
    }
}

#[test]
fn z3_agrees_with_the_standard_parser_on_digits() {
    let alphabet = ['0', '1', '9', '+', '-', 'a', ' ', '\u{e9}', '5'];
    for a in alphabet {
        for b in alphabet {
            for tail in ["", "7", "abc"] {
                let mut text = String::new();
                text.push(a);
                text.push(b);
                text.push_str(tail);
                if !text.is_char_boundary(2) {
                    assert!(extract_res_from_z3(&text).is_err());
                    continue;
                }
                // the standard parser, but for the sign that it lets lead a number
                let expected = if a == '+' { None } else { text[..2].parse::<u8>().ok() };
                assert_eq!(extract_res_from_z3(&text).ok(), expected, "{:?}", text);
            }
        }
    }
}

fn z7_reference(id: &str) -> Option<u8> {
    match id.len() {
        1 => Some(0),
        2 => Some(1),
        _ => {
            // letters and digits only: no sign leads the number
            if id.contains('+') {
                return None;
            }
            let num = u64::from_str_radix(id, 16).ok()?;
            let shifted = num << 4;
            let lz = shifted.leading_zeros();
            if lz > 63 {
                return None;
            }
            Some((2 + lz) as u8)
        }
    }
}

#[test]
fn z7_level_counts_leading_zero_bits() {
    assert_eq!(extract_res_from_z7("7"), Ok(0));
    assert_eq!(extract_res_from_z7("zz"), Ok(1));
    // 0x0fff_ffff_ffff_ffff moved four bits to the left has no leading zero
    assert_eq!(extract_res_from_z7("0fffffffffffffff"), Ok(2));
    // 0x001 moved four bits to the left is 0x10: 59 leading zeros
    assert_eq!(extract_res_from_z7("001"), Ok(61));
    assert_eq!(extract_res_from_z7("01f"), Ok(2 + 55));
    assert_eq!(extract_res_from_z7("+1f"), Err(DggsError::InvalidZoneIdFormat));
    assert_eq!(extract_res_from_z7("+ffffffffffffffff"), Err(DggsError::InvalidZoneIdFormat));
    assert_eq!(extract_res_from_z7("00a2FFffffffffffff").ok(), z7_reference("00a2FFffffffffffff"));
    // 0xa2ff_ffff_ffff_ffff moved four bits to the left starts with the bits 0010
    assert_eq!(extract_res_from_z7("00a2FFffffffffffff"), Ok(4));
}

#[test]
fn z7_rejects_what_is_no_number() {
    for bad in ["", "000", "xyz", "12g", "-12", "1 2", "10000000000000000", "f000000000000000", "+ab+"] {
        assert_eq!(z7_reference(bad), None);
        assert_eq!(extract_res_from_z7(bad), Err(DggsError::InvalidZoneIdFormat), "{:?}", bad);
    }
}

#[test]
fn z7_agrees_with_the_standard_parser_on_digits() {
    let samples = [
        "0", "00", "+0", "+00", "001", "abc", "ABC", "aBc123", "ffffffffffffffff", "0ffffffffffffffff",
        "00000000000000000001", "1ffffffffffffffff", "+ffffffffffffffff", "+", "++1", "\u{e9}",
        "\u{e9}1", "a\u{e9}", "0800000000000000", "08000000000000001", "123456789abcdef0",
        "fedcba9876543210", "0x12", "12 ", " 12", "1_2", "\u{ff11}\u{ff12}\u{ff13}",
    ];
    for id in samples {
        assert_eq!(extract_res_from_z7(id).ok(), z7_reference(id), "{:?}", id);
    }
    let mut x: u64 = 0x9e37_79b9_7f4a_7c15;
    for _ in 0..2000 {
        x ^= x << 13;
        x ^= x >> 7;
        x ^= x << 17;
        let digits = (x % 18) as usize;
        let text = format!("{:x}", x.rotate_left((x % 64) as u32) >> (x % 61));
        let text: String = text.chars().take(digits + 1).collect();
        assert_eq!(extract_res_from_z7(&text).ok(), z7_reference(&text), "{:?}", text);
    }
}

#[test]
fn level_is_read_by_grid_type() {
    assert_eq!(extract_res_from_cellid("05abcdef", "ISEA3H"), Ok(5));
    assert_eq!(
        extract_res_from_cellid("xx", "ISEA3H"),
        Err(DggsError::InvalidZoneIdFormat)
    );
    assert_eq!(
        extract_res_from_cellid("05abcdef", "IGEO7"),
        Err(DggsError::UnsupportedResolutionExtraction)
    );
    for other in ["", "isea3h", "H3", "ISEA3H ", "IGEO", "ISEA3"] {
        assert_eq!(
            extract_res_from_cellid("05abcdef", other),
            Err(DggsError::UnsupportedDggsType)
        );
    }
}
