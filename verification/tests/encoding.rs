use dhcp_server::sources::encoding::{big_endian, encode_custom};
use dhcp_server::value::{Node, Num};

#[test]
fn scalars_are_encoded() {
    assert_eq!(encode_custom(&Node::Null), Some(vec![]));
    assert_eq!(encode_custom(&Node::Bool(true)), Some(vec![1]));
    assert_eq!(encode_custom(&Node::Bool(false)), Some(vec![0]));
    assert_eq!(
        encode_custom(&Node::Number(Num::Int(1234567890))),
        Some(vec![0, 0, 0, 0, 73, 150, 2, 210])
    );
    assert_eq!(encode_custom(&Node::Number(Num::Int(0))), Some(vec![0; 8]));
    assert_eq!(encode_custom(&Node::Number(Num::Int(-1))), Some(vec![255; 8]));
    assert_eq!(
        encode_custom(&Node::Number(Num::Int(-2))),
        Some(vec![255, 255, 255, 255, 255, 255, 255, 254])
    );
    assert_eq!(
        encode_custom(&Node::Number(Num::Int(i64::MIN))),
        Some(i64::MIN.to_be_bytes().to_vec())
    );
    assert_eq!(
        encode_custom(&Node::Number(Num::Int(i64::MAX))),
        Some(i64::MAX.to_be_bytes().to_vec())
    );
    assert_eq!(
        encode_custom(&Node::Number(Num::UInt(u64::MAX))),
        Some(vec![255; 8])
    );
    assert_eq!(
        encode_custom(&Node::Number(Num::UInt(1 << 63))),
        Some(vec![128, 0, 0, 0, 0, 0, 0, 0])
    );
    assert_eq!(
        encode_custom(&Node::Number(Num::Float(1.5f64.to_bits()))),
        Some(1.5f64.to_be_bytes().to_vec())
    );
    assert_eq!(encode_custom(&Node::String("héllo".to_string())), Some("héllo".as_bytes().to_vec()));
    assert_eq!(encode_custom(&Node::String(String::new())), Some(vec![]));
}

#[test]
fn collections_have_no_encoding() {
    assert_eq!(encode_custom(&Node::Sequence(vec![])), None);
    assert_eq!(encode_custom(&Node::Sequence(vec![Node::Bool(true)])), None);
    assert_eq!(encode_custom(&Node::Mapping(vec![])), None);
}

#[test]
fn encoding_is_deterministic() {
    let values = [
        Node::Null,
        Node::Bool(true),
        Node::Number(Num::Int(-77)),
        Node::Number(Num::UInt(u64::MAX - 1)),
        Node::Number(Num::Float(0.1f64.to_bits())),
        Node::String("text".to_string()),
    ];
    for value in values.iter() {
        assert_eq!(encode_custom(value), encode_custom(&value.duplicate()));
        assert_eq!(encode_custom(value), encode_custom(value));
    }
}

#[test]
fn big_endian_bytes_hold_the_value() {
    for value in [0u64, 1, 255, 256, 0x0102_0304_0506_0708, u64::MAX, 1 << 63] {
        let bytes = big_endian(value);
        assert_eq!(bytes, value.to_be_bytes().to_vec());
        let mut back: u64 = 0;
        for b in bytes {
            back = back << 8 | b as u64;
        }
        assert_eq!(back, value);
    }
}
