use bounded_bytes::Bytes;
use bounded_bytes::Error;

#[test]
fn from_serialized_matches_packed_cbor() {
    let value = (1u8, 300u16, -7i8);
    let b: Bytes<32> = Bytes::from_serialized(&value).unwrap();
    let reference = serde_cbor::ser::to_vec_packed(&value).unwrap();
    assert_eq!(b.as_slice(), reference.as_slice());
}

#[test]
fn from_serialized_of_string_value() {
    let value = String::from("hi");
    let b: Bytes<16> = Bytes::from_serialized(&value).unwrap();
    let reference = serde_cbor::ser::to_vec_packed(&value).unwrap();
    assert_eq!(b.as_slice(), reference.as_slice());
    assert!(b.len() <= 16);
}

#[test]
fn from_serialized_overflow_is_recoverable() {
    let value = String::from("this will not fit in four bytes");
    let r: Result<Bytes<4>, Error> = Bytes::from_serialized(&value);
    assert_eq!(r.unwrap_err(), Error::EncodingFailed);
}
