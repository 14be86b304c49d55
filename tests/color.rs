use pixie::color::{Color, HexColorError};

#[test]
fn hex_of_white_and_black() {
    assert_eq!(Color::white().to_hex(), "#FFFFFF");
    assert_eq!(Color::black().to_hex(), "#000000");
    assert_eq!(Color::new(1, 171, 16).to_hex(), "#01AB10");
}

#[test]
fn from_hex_reads_both_cases() {
    assert_eq!(Color::from_hex("#FF8000"), Ok(Color::new(255, 128, 0)));
    assert_eq!(Color::from_hex("#ff8000"), Ok(Color::new(255, 128, 0)));
    assert_eq!(Color::from_hex("#aBcDeF"), Ok(Color::new(0xab, 0xcd, 0xef)));
}

#[test]
fn from_hex_needs_exactly_one_leading_hash() {
    assert_eq!(Color::from_hex("102030"), Err(HexColorError::Length { found: 6 }));
    assert_eq!(Color::from_hex("##102030"), Err(HexColorError::Length { found: 8 }));
    assert_eq!(Color::from_hex("1020304"), Err(HexColorError::MissingHash));
    assert_eq!(Color::from_hex("x102030"), Err(HexColorError::MissingHash));
}

#[test]
fn from_hex_length_errors() {
    assert_eq!(Color::from_hex("#FFF"), Err(HexColorError::Length { found: 4 }));
    assert_eq!(Color::from_hex(""), Err(HexColorError::Length { found: 0 }));
    assert_eq!(Color::from_hex("#FFFFFFF"), Err(HexColorError::Length { found: 8 }));
}

#[test]
fn from_hex_component_errors() {
    assert_eq!(Color::from_hex("#GG0000"), Err(HexColorError::Red));
    assert_eq!(Color::from_hex("#00ZZ00"), Err(HexColorError::Green));
    assert_eq!(Color::from_hex("#0000+F"), Err(HexColorError::Blue));
    assert_eq!(Color::from_hex("#+F0000"), Err(HexColorError::Red));
}

#[test]
fn hex_round_trip_on_many_colors() {
    for r in [0u8, 1, 15, 16, 127, 128, 200, 255] {
        for g in [0u8, 9, 10, 255] {
            for b in [0u8, 170, 255] {
                let c = Color::new(r, g, b);
                assert_eq!(Color::from_hex(&c.to_hex()), Ok(c));
            }
        }
    }
}

#[test]
fn from_hex_counts_characters_not_bytes() {
    assert_eq!(Color::from_hex("#é0000"), Err(HexColorError::Length { found: 6 }));
    assert_eq!(Color::from_hex("#é00000"), Err(HexColorError::Red));
}
