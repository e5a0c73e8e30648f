use il_tz::{generate, int2tz, str2tz, validate, TZDigit, MAX_TZ_RANGE};

#[test]
fn test_str_9() {
    let tz = str2tz("123456789").unwrap();
    assert_eq!(
        tz,
        [
            TZDigit::One,
            TZDigit::Two,
            TZDigit::Three,
            TZDigit::Four,
            TZDigit::Five,
            TZDigit::Six,
            TZDigit::Seven,
            TZDigit::Eight,
            TZDigit::Nine
        ]
    );
    let tz = str2tz("002345678").unwrap();
    assert_eq!(
        tz,
        [
            TZDigit::Zero,
            TZDigit::Zero,
            TZDigit::Two,
            TZDigit::Three,
            TZDigit::Four,
            TZDigit::Five,
            TZDigit::Six,
            TZDigit::Seven,
            TZDigit::Eight
        ]
    );
    let tz = str2tz("000000000").unwrap();
    assert_eq!(tz, [TZDigit::Zero; 9]);
    let tz = str2tz("999999999").unwrap();
    assert_eq!(tz, [TZDigit::Nine; 9]);
}

#[test]
fn test_str_long() {
    let tz = str2tz("1234567890");
    assert!(tz.is_err());
    let tz = str2tz("12345678901");
    assert!(tz.is_err());
    let tz = str2tz("123456789012");
    assert!(tz.is_err());
}

#[test]
fn test_str_short() {
    assert_eq!(str2tz("12345678").unwrap(), str2tz("012345678").unwrap());
    assert_eq!(str2tz("1234567").unwrap(), str2tz("001234567").unwrap());
    assert_eq!(str2tz("123456").unwrap(), str2tz("000123456").unwrap());
    assert_eq!(str2tz("12345").unwrap(), str2tz("000012345").unwrap());
    assert_eq!(str2tz("1234").unwrap(), str2tz("000001234").unwrap());
    assert_eq!(str2tz("123").unwrap(), str2tz("000000123").unwrap());
    assert_eq!(str2tz("12").unwrap(), str2tz("000000012").unwrap());
    assert_eq!(str2tz("1").unwrap(), str2tz("000000001").unwrap());
    assert_eq!(str2tz("").unwrap(), str2tz("000000000").unwrap());
}

#[test]
fn test_int_good() {
    assert_eq!(int2tz(123456789).unwrap(), str2tz("123456789").unwrap());
    assert_eq!(int2tz(11).unwrap(), str2tz("000000011").unwrap());
    assert_eq!(int2tz(MAX_TZ_RANGE).unwrap(), str2tz("999999999").unwrap());
}

#[test]
fn test_bad_input() {
    let tz = int2tz(1_000_000_000);
    assert!(tz.is_err());
    let tz = str2tz("-1");
    assert!(tz.is_err());
    let tz = str2tz("12345a789");
    assert!(tz.is_err());
}

#[test]
fn test_valid_tz() {
    let input = [37015971, 037015906, 037015955, 037015963];
    for i in input {
        let tz = int2tz(i).unwrap();
        assert!(validate(&tz));
    }
}

#[test]
fn test_invalid_tz() {
    let input = [3701591, 037015936, 037515955, 0000963];
    for i in input {
        let tz = int2tz(i).unwrap();
        assert!(!validate(&tz));
    }
}

#[test]
fn test_generate() {
    let list = generate(37015900, 37016000);
    assert_eq!(list.len(), 11);
    let valid = str2tz("037015971").unwrap();
    assert!(list.contains(&valid));
    let list = generate(100, 200);
    assert_eq!(list.len(), 11);
    let valid = int2tz(141).unwrap();
    assert!(list.contains(&valid));
}

#[test]
fn test_generate_invalid() {
    let list = generate(300, 3);
    assert_eq!(list.len(), 1);
    assert_eq!(list[0], [TZDigit::Zero; 9]);
    let list = generate(0, 1);
    assert_eq!(list.len(), 1);
    assert_eq!(list[0], [TZDigit::Zero; 9]);
    let list = generate(0, 0);
    assert_eq!(list.len(), 1);
    assert_eq!(list[0], [TZDigit::Zero; 9]);
    let list = generate(MAX_TZ_RANGE + 10, MAX_TZ_RANGE + 200);
    assert_eq!(list.len(), 1);
    assert_eq!(list[0], int2tz(999_999_998).unwrap());
}
