use vizsink::color::Color;

#[test]
fn color_from_str_test() {
    // Test hex -> rgb
    assert!(
        Color::from_hex("#44ba39".to_string()).unwrap()
            == Color {
                r: 68,
                g: 186,
                b: 57,
                a: None
            }
    );

    // Test hex -> rgb (no `#`)
    assert!(
        Color::from_hex("44ba39".to_string()).unwrap()
            == Color {
                r: 68,
                g: 186,
                b: 57,
                a: None
            }
    );

    // Test hex -> rgba
    assert!(
        Color::from_hex("44ba395a".to_string()).unwrap()
            == Color {
                r: 68,
                g: 186,
                b: 57,
                a: Some(90)
            }
    );

    // Test non-valid hex
    assert!(Color::from_hex("egf".to_string()) == None);

    // Test non-valid hex component
    assert!(
        Color::from_hex("44bx39".to_string()).unwrap()
            == Color {
                r: 68,
                g: 0,
                b: 57,
                a: None
            }
    );
}

#[test]
fn from_hex_upper_case_and_alpha_with_hash() {
    assert_eq!(
        Color::from_hex("#FFA0C8E1".to_string()),
        Some(Color { r: 255, g: 160, b: 200, a: Some(225) })
    );
}

#[test]
fn from_hex_plus_sign_pair() {
    // `u8::from_str_radix` accepts a leading '+', so "+a" reads as 10.
    assert_eq!(
        Color::from_hex("+a+b+c".to_string()),
        Some(Color { r: 10, g: 11, b: 12, a: None })
    );
    // a '-' is not accepted for an unsigned value
    assert_eq!(
        Color::from_hex("-a0000".to_string()),
        Some(Color { r: 0, g: 0, b: 0, a: None })
    );
}

#[test]
fn from_hex_wrong_lengths() {
    assert_eq!(Color::from_hex("".to_string()), None);
    assert_eq!(Color::from_hex("#".to_string()), None);
    assert_eq!(Color::from_hex("#12345".to_string()), None);
    assert_eq!(Color::from_hex("1234567".to_string()), None);
    assert_eq!(Color::from_hex("##123456".to_string()), None);
}

#[test]
fn from_hex_multibyte_pairs_read_as_zero() {
    // "é" is two bytes: three of them make six bytes, each pair invalid.
    assert_eq!(
        Color::from_hex("ééé".to_string()),
        Some(Color { r: 0, g: 0, b: 0, a: None })
    );
}

#[test]
fn hex_round_trip_examples() {
    for (r, g, b) in [(0u8, 0u8, 0u8), (255, 255, 255), (1, 16, 171)] {
        let code = format!("{:02x}{:02x}{:02x}", r, g, b);
        assert_eq!(Color::from_hex(code.clone()), Some(Color { r, g, b, a: None }));
        assert_eq!(Color::from_hex(format!("#{}", code)), Some(Color { r, g, b, a: None }));
    }
}

#[test]
fn hex_round_trip_upper_case() {
    for (r, g, b, a) in [(0u8, 0u8, 0u8, 0u8), (255, 255, 255, 255), (1, 16, 171, 205)] {
        let code = format!("{:02X}{:02X}{:02X}", r, g, b);
        assert_eq!(Color::from_hex(code.clone()), Some(Color { r, g, b, a: None }));
        let with_alpha = format!("{:02X}{:02X}{:02X}{:02X}", r, g, b, a);
        assert_eq!(Color::from_hex(with_alpha.clone()), Some(Color { r, g, b, a: Some(a) }));
        assert_eq!(Color::from_hex(format!("#{}", with_alpha)), Some(Color { r, g, b, a: Some(a) }));
    }
}
