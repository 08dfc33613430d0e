use torii_indexing::address::{overflows_as_decimal, Address, PRIME_HIGH, PRIME_LOW};

const BRINK: &str = "11579208923731619542357098500868790785326998466564056403945758400791312963993";

#[test]
fn hexadecimal_and_decimal_texts_are_read() {
    assert_eq!(Address::parse("0x123"), Ok(Address::new(0, 0x123).unwrap()));
    assert_eq!(Address::parse("0xAbC"), Ok(Address::new(0, 0xabc).unwrap()));
    assert_eq!(Address::parse("1337"), Ok(Address::new(0, 1337).unwrap()));
    assert_eq!(Address::parse("000"), Ok(Address::new(0, 0).unwrap()));
    assert_eq!(
        Address::parse("0x100000000000000000000000000000002"),
        Ok(Address::new(1, 2).unwrap())
    );
    assert_eq!(
        Address::parse("0x0000000000000000000000000000000000000000000000000000000000000009"),
        Ok(Address::new(0, 9).unwrap())
    );
}

#[test]
fn texts_that_are_no_numerals_are_refused() {
    let invalid_hex = "failed to create Felt from string: invalid hex string";
    let invalid_dec = "failed to create Felt from string: invalid dec string";
    assert_eq!(Address::parse("0x"), Err(invalid_hex.to_string()));
    assert_eq!(Address::parse("0x1g"), Err(invalid_hex.to_string()));
    assert_eq!(Address::parse(""), Err(invalid_dec.to_string()));
    assert_eq!(Address::parse("12a"), Err(invalid_dec.to_string()));
    assert_eq!(
        Address::parse("0x00000000000000000000000000000000000000000000000000000000000000001"),
        Err("failed to create Felt from string: hex string too big".to_string())
    );
    assert_eq!(
        Address::parse("0xffffffffffffffffffffffffffffffffffffffffffffffffffffffffffffffff"),
        Err("failed to create Felt from string: representative out of range".to_string())
    );
}

#[test]
fn negative_decimals_count_down_from_the_prime() {
    assert_eq!(Address::parse("-1"), Ok(Address::new(PRIME_HIGH, 0).unwrap()));
    assert_eq!(Address::parse("-0"), Ok(Address::new(0, 0).unwrap()));
    assert!(Address::parse("-").is_err());
    assert!(Address::parse("--1").is_err());
    assert!(Address::parse("-0x1").is_err());
}

#[test]
fn numbers_count_modulo_the_prime() {
    let zero = Address::new(0, 0).unwrap();
    let one = Address::new(0, 1).unwrap();
    let prime = "3618502788666131213697322783095070105623107215331596699973092056135872020481";
    let next = "3618502788666131213697322783095070105623107215331596699973092056135872020482";
    assert_eq!(Address::parse(prime), Ok(zero));
    assert_eq!(Address::parse(next), Ok(one));
    assert_eq!(Address::parse(&format!("-{next}")), Ok(Address::new(PRIME_HIGH, 0).unwrap()));
    assert_eq!(
        Address::parse("0x800000000000011000000000000000000000000000000000000000000000001"),
        Ok(zero)
    );
    assert_eq!(
        Address::parse("0x800000000000011000000000000000000000000000000000000000000000002"),
        Err("failed to create Felt from string: representative out of range".to_string())
    );
}

#[test]
fn addresses_end_at_the_prime() {
    assert!(Address::new(PRIME_HIGH, PRIME_LOW).is_none());
    assert!(Address::new(PRIME_HIGH + 1, 0).is_none());
    let last = Address::new(PRIME_HIGH, PRIME_LOW - 1).unwrap();
    assert_eq!(last.parts(), (PRIME_HIGH, 0));
    assert_eq!(
        last.to_hex(),
        "0x800000000000011000000000000000000000000000000000000000000000000"
    );
}

#[test]
fn addresses_are_shown_without_leading_zeros() {
    assert_eq!(Address::new(0, 0).unwrap().to_hex(), "0x0");
    assert_eq!(Address::new(0, 0xabc).unwrap().to_hex(), "0xabc");
    assert_eq!(
        Address::new(1, 2).unwrap().to_hex(),
        "0x100000000000000000000000000000002"
    );
}

#[test]
fn shown_addresses_read_back() {
    for (high, low) in [
        (0, 0),
        (0, 15),
        (0, 16),
        (0, u128::MAX),
        (1, 0),
        (0x1234_5678, 0x9abc),
        (PRIME_HIGH, 0),
    ] {
        let address = Address::new(high, low).unwrap();
        let read = Address::parse(&address.to_hex()).unwrap();
        assert!(read.same(&address));
        assert_eq!(read.parts(), (high, low));
    }
}

#[test]
fn overflowing_decimals_are_told_apart() {
    assert!(!overflows_as_decimal(""));
    assert!(!overflows_as_decimal("0x123"));
    assert!(!overflows_as_decimal(BRINK));
    assert!(!overflows_as_decimal(&format!("{BRINK}5")));
    for digit in 6..=9 {
        assert!(overflows_as_decimal(&format!("{BRINK}{digit}")));
    }
    assert!(overflows_as_decimal(&format!("-00{BRINK}61")));
    assert!(!overflows_as_decimal(&format!("0x{BRINK}6")));
    assert!(!overflows_as_decimal(&format!("--{BRINK}6")));
    assert!(Address::parse(&format!("{BRINK}5")).is_ok());
    assert!(Address::parse(&format!("{BRINK}50")).is_err());
    assert!(Address::parse(&format!("1{BRINK}6")).is_err());
}
