use price_sessions::{Price, SessionKey};

#[test]
fn key_text_is_symbol_hyphen_ordinal() {
    assert_eq!(SessionKey::new("BTCUSDT", 0).text(), "BTCUSDT-0");
    assert_eq!(SessionKey::new("BTCUSDT", 1).text(), "BTCUSDT-1");
    assert_eq!(SessionKey::new("ETHUSDT", 9).text(), "ETHUSDT-9");
}

#[test]
fn key_text_writes_every_digit_in_order() {
    assert_eq!(SessionKey::new("X", 10).text(), "X-10");
    assert_eq!(SessionKey::new("X", 1234567890).text(), "X-1234567890");
    assert_eq!(SessionKey::new("X", 100).text(), "X-100");
    assert_eq!(SessionKey::new("X", 909).text(), "X-909");
}

#[test]
fn key_text_of_the_largest_ordinal() {
    assert_eq!(
        SessionKey::new("BTCUSDT", u64::MAX).text(),
        "BTCUSDT-18446744073709551615"
    );
}

#[test]
fn key_text_agrees_with_the_formatter() {
    let ordinals: [u64; 8] = [0, 7, 10, 99, 100, 65535, 4294967296, u64::MAX - 1];
    for n in ordinals {
        assert_eq!(SessionKey::new("SYM", n).text(), format!("SYM-{}", n));
    }
}

#[test]
fn key_text_keeps_a_symbol_with_hyphens_and_an_empty_symbol() {
    assert_eq!(SessionKey::new("BTC-USDT", 3).text(), "BTC-USDT-3");
    assert_eq!(SessionKey::new("", 3).text(), "-3");
}

#[test]
fn key_parts_come_back() {
    let key = SessionKey::new("BTCUSDT", 42);
    assert_eq!(key.symbol(), "BTCUSDT");
    assert_eq!(key.ordinal(), 42);
}

#[test]
fn keys_are_equal_when_symbol_and_ordinal_agree() {
    let a = SessionKey::new("BTCUSDT", 1);
    let b = SessionKey::new("BTCUSDT", 1);
    let other_ordinal = SessionKey::new("BTCUSDT", 2);
    let other_symbol = SessionKey::new("ETHUSDT", 1);
    assert!(a.same_as(&b));
    assert!(!a.same_as(&other_ordinal));
    assert!(!a.same_as(&other_symbol));
    assert_eq!(a, b);
    assert_ne!(a, other_ordinal);
    assert_ne!(a, other_symbol);
}

#[test]
fn a_cloned_key_is_the_same_key() {
    let key = SessionKey::new("BTCUSDT", 5);
    let copy = key.clone();
    assert!(copy.same_as(&key));
    assert_eq!(copy.text(), "BTCUSDT-5");
}

#[test]
fn different_keys_have_different_texts() {
    let keys = vec![
        SessionKey::new("A", 1),
        SessionKey::new("A", 11),
        SessionKey::new("A-1", 1),
        SessionKey::new("A1", 1),
        SessionKey::new("", 1),
        SessionKey::new("-", 1),
    ];
    for i in 0..keys.len() {
        for j in 0..keys.len() {
            if i != j {
                assert_ne!(keys[i].text(), keys[j].text());
            }
        }
    }
}

#[test]
fn price_keeps_its_bits() {
    let bits = 42.0f64.to_bits();
    let price = Price::from_bits(bits);
    assert_eq!(price.to_bits(), bits);
    assert_eq!(f64::from_bits(price.to_bits()), 42.0);
    assert_eq!(Price::from_bits(bits), price);
    assert_ne!(Price::from_bits(43.0f64.to_bits()), price);
}

#[test]
fn price_tells_the_two_zeros_apart_and_keeps_a_nan() {
    let plus = Price::from_bits(0.0f64.to_bits());
    let minus = Price::from_bits((-0.0f64).to_bits());
    assert_ne!(plus, minus);
    let nan = Price::from_bits(f64::NAN.to_bits());
    assert!(f64::from_bits(nan.to_bits()).is_nan());
    assert_eq!(nan, Price::from_bits(f64::NAN.to_bits()));
}
