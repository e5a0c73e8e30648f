use il_tz::{generate, int2tz, str2tz, tz2str, validate, TZDigit, TZError};

#[test]
fn padding_does_not_change_the_parse() {
    assert_eq!(str2tz("37").unwrap(), str2tz("000000037").unwrap());
    assert_eq!(str2tz("5").unwrap(), str2tz("000000005").unwrap());
}

#[test]
fn overlong_input_reports_invalid_length() {
    match str2tz("1234567890") {
        Err(TZError::InvalidTZLength(m)) => assert_eq!(m, "1234567890"),
        _ => panic!("expected a length failure"),
    }
    match int2tz(1_000_000_000) {
        Err(TZError::InvalidTZLength(m)) => assert_eq!(m, "1000000000"),
        _ => panic!("expected a length failure"),
    }
}

#[test]
fn non_digit_reports_first_offending_character() {
    match str2tz("12345a789") {
        Err(TZError::InvalidTZDigit(m)) => assert_eq!(m, "a"),
        _ => panic!("expected a digit failure"),
    }
    match str2tz("-1") {
        Err(TZError::InvalidTZDigit(m)) => assert_eq!(m, "-"),
        _ => panic!("expected a digit failure"),
    }
}

#[test]
fn empty_string_parses_to_all_zeros() {
    assert_eq!(str2tz("").unwrap(), [TZDigit::Zero; 9]);
}

#[test]
fn validate_compares_stored_and_computed_check_digit() {
    let valid = str2tz("037015971").unwrap();
    assert!(validate(&valid));
    let invalid = str2tz("037015972").unwrap();
    assert!(!validate(&invalid));
}

#[test]
fn every_generated_id_validates() {
    for tz in generate(0, 1000) {
        assert!(validate(&tz));
    }
    for tz in generate(999_999_000, 999_999_999) {
        assert!(validate(&tz));
    }
}

#[test]
fn generated_ids_are_strictly_ascending() {
    let list = generate(37015900, 37016000);
    let rendered: Vec<String> = list.iter().map(tz2str).collect();
    for pair in rendered.windows(2) {
        assert!(pair[0] < pair[1]);
    }
}

#[test]
fn inverted_range_collapses_onto_its_end() {
    assert_eq!(generate(300, 3), generate(3, 3));
    assert_eq!(generate(999_999_999, 7), generate(7, 7));
}

#[test]
fn tz2str_renders_nine_characters_with_leading_zeros() {
    assert_eq!(tz2str(&str2tz("037015971").unwrap()), "037015971");
    assert_eq!(tz2str(&int2tz(11).unwrap()), "000000011");
    assert_eq!(tz2str(&int2tz(0).unwrap()), "000000000");
}

#[test]
fn the_doubling_reduce_transform_maps_as_documented() {
    let expected = [
        TZDigit::Zero,
        TZDigit::Two,
        TZDigit::Four,
        TZDigit::Six,
        TZDigit::Eight,
        TZDigit::One,
        TZDigit::Three,
        TZDigit::Five,
        TZDigit::Seven,
        TZDigit::Nine,
    ];
    let digits = [
        TZDigit::Zero,
        TZDigit::One,
        TZDigit::Two,
        TZDigit::Three,
        TZDigit::Four,
        TZDigit::Five,
        TZDigit::Six,
        TZDigit::Seven,
        TZDigit::Eight,
        TZDigit::Nine,
    ];
    for i in 0..10 {
        assert_eq!(digits[i].to_sum(), expected[i]);
    }
}

#[test]
fn digit_conversions_round_trip() {
    assert!(matches!(TZDigit::from_u8(7), Ok(TZDigit::Seven)));
    assert!(matches!(TZDigit::from_char('3'), Ok(TZDigit::Three)));
    assert_eq!(TZDigit::Nine.to_u8(), 9);
    assert_eq!(u8::from(TZDigit::Four), 4);
    match TZDigit::from_u8(10) {
        Err(TZError::InvalidTZDigit(m)) => assert_eq!(m, "10"),
        _ => panic!("expected a digit failure"),
    }
    match TZDigit::from_char('x') {
        Err(TZError::InvalidTZDigit(m)) => assert_eq!(m, "x"),
        _ => panic!("expected a digit failure"),
    }
}

#[test]
fn known_checksum_scenarios() {
    let valid = int2tz(37015971).unwrap();
    assert!(validate(&valid));
    let invalid = int2tz(37015936).unwrap();
    assert!(!validate(&invalid));
}

#[test]
fn generate_covers_exactly_the_rounded_range() {
    // Bounds not on multiples of ten lose their low-order digit.
    let list = generate(101, 199);
    assert_eq!(list.len(), 10);
    assert_eq!(tz2str(&list[0])[..8], *"00000010");
    assert_eq!(tz2str(&list[9])[..8], *"00000019");
}
