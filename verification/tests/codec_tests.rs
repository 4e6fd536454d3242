use kv::{decode_value, encode_value, Value};

fn roundtrip(v: Value) {
    let bytes = encode_value(&v);
    let back = decode_value(&bytes).expect("encoded value must decode");
    assert_eq!(back, v);
}

#[test]
fn roundtrip_string() {
    roundtrip(Value::Str("hello world".to_string()));
    roundtrip(Value::Str(String::new()));
    roundtrip(Value::Str("naïve – ünïcode ✓".to_string()));
}

#[test]
fn roundtrip_binary() {
    roundtrip(Value::Binary(vec![0u8, 1, 2, 255, 254]));
    roundtrip(Value::Binary(Vec::new()));
}

#[test]
fn roundtrip_integer() {
    roundtrip(Value::Integer(0));
    roundtrip(Value::Integer(42));
    roundtrip(Value::Integer(-42));
    roundtrip(Value::Integer(i64::MAX));
    roundtrip(Value::Integer(i64::MIN));
}

#[test]
fn roundtrip_double() {
    roundtrip(Value::Float(2.5f64.to_bits()));
    roundtrip(Value::Float((-0.0f64).to_bits()));
    roundtrip(Value::Float(f64::INFINITY.to_bits()));
}

#[test]
fn roundtrip_bool_and_empty() {
    roundtrip(Value::Bool(true));
    roundtrip(Value::Bool(false));
    roundtrip(Value::Empty);
}

#[test]
fn encoding_distinguishes_variants() {
    let s = encode_value(&Value::Str("a".to_string()));
    let b = encode_value(&Value::Binary(vec![b'a']));
    assert_ne!(s, b);
    assert_eq!(decode_value(&s), Some(Value::Str("a".to_string())));
    assert_eq!(decode_value(&b), Some(Value::Binary(vec![b'a'])));
}

#[test]
fn corrupt_bytes_do_not_decode() {
    assert_eq!(decode_value(&Vec::new()), None);
    assert_eq!(decode_value(&vec![9u8]), None);
    assert_eq!(decode_value(&vec![3u8, 1, 2]), None);
    assert_eq!(decode_value(&vec![5u8, 7]), None);
    assert_eq!(decode_value(&vec![1u8, 0xff, 0xfe]), None);
}

#[test]
fn value_conversions_build_the_right_variant() {
    assert_eq!(Value::from("s"), Value::Str("s".to_string()));
    assert_eq!(Value::from(7i64), Value::Integer(7));
    assert_eq!(Value::from(true), Value::Bool(true));
    assert_eq!(Value::default(), Value::Empty);
}
