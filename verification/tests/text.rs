use websockproxy_relay::text::{enclosed, join, prefixed, push_decimal, push_hex_byte};

#[test]
fn numbers_have_no_leading_zeros() {
    for number in [0, 7, 10, 99, 100, 4_294_967_295, u64::MAX] {
        let mut output = String::from("n=");
        push_decimal(&mut output, number);
        assert_eq!(output, format!("n={number}"));
    }
}

#[test]
fn bytes_have_two_digits() {
    let mut output = String::new();
    for byte in [0x00, 0x0f, 0xa0, 0xff] {
        push_hex_byte(&mut output, byte);
    }
    assert_eq!(output, "000fa0ff");
}

#[test]
fn parts_are_joined() {
    assert_eq!(join(&Vec::new(), ", "), "");
    assert_eq!(join(&vec!["a".to_string()], ", "), "a");
    assert_eq!(join(&vec!["a".to_string(), "".to_string(), "c".to_string()], ", "), "a, , c");
}

#[test]
fn texts_are_put_together() {
    assert_eq!(prefixed("a", "b"), "ab");
    assert_eq!(enclosed("a", "b", "c"), "abc");
}
