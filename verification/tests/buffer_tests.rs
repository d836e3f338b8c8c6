use bounded_bytes::Bytes;
use bounded_bytes::Error;
use std::cmp::Ordering;

#[test]
fn new_buffer_is_empty() {
    let b: Bytes<8> = Bytes::new();
    assert_eq!(b.len(), 0);
    assert!(b.is_empty());
    assert_eq!(b.capacity(), 8);
}

#[test]
fn from_and_into_vec_round_trip() {
    let b: Bytes<8> = Bytes::from(vec![1u8, 2, 3]);
    assert_eq!(b.len(), 3);
    assert_eq!(b.into_vec(), vec![1u8, 2, 3]);
}

#[test]
fn try_from_slice_copies_exactly() {
    let b: Bytes<32> = Bytes::try_from_slice(b"abc").unwrap();
    assert_eq!(b.len(), 3);
    assert_eq!(b.into_vec(), b"abc".to_vec());
}

#[test]
fn try_from_slice_rejects_oversized() {
    let data = [0u8; 33];
    let r: Result<Bytes<32>, Error> = Bytes::try_from_slice(&data);
    assert_eq!(r.unwrap_err(), Error::CapacityExceeded);
}

#[test]
fn try_from_slice_accepts_full_capacity() {
    let data = [7u8; 32];
    let b: Bytes<32> = Bytes::try_from_slice(&data).unwrap();
    assert_eq!(b.len(), 32);
    assert_eq!(b.as_slice(), &data);
}

#[test]
fn get_and_set_access_single_bytes() {
    let mut b: Bytes<8> = Bytes::try_from_slice(b"abc").unwrap();
    assert_eq!(b.get(1), b'b');
    b.set(1, b'z');
    assert_eq!(b.as_slice(), b"azc");
    assert_eq!(b.len(), 3);
}

#[test]
fn as_mut_slice_writes_in_place() {
    let mut b: Bytes<8> = Bytes::try_from_slice(b"abc").unwrap();
    b.as_mut_slice()[0] = b'z';
    assert_eq!(b.as_slice(), b"zbc");
    assert_eq!(b.len(), 3);
}

#[test]
fn insert_slice_at_middle() {
    let mut b: Bytes<16> = Bytes::try_from_slice(b"hello").unwrap();
    b.insert_slice_at(b"XY", 2).unwrap();
    assert_eq!(b.as_slice(), b"heXYllo");
}

#[test]
fn insert_slice_at_ends() {
    let mut b: Bytes<16> = Bytes::try_from_slice(b"cd").unwrap();
    b.insert_slice_at(b"ab", 0).unwrap();
    assert_eq!(b.as_slice(), b"abcd");
    b.insert_slice_at(b"ef", 4).unwrap();
    assert_eq!(b.as_slice(), b"abcdef");
}

#[test]
fn insert_slice_at_rejects_bad_offset() {
    let mut b: Bytes<16> = Bytes::try_from_slice(b"ab").unwrap();
    let r = b.insert_slice_at(b"xy", 3);
    assert_eq!(r.unwrap_err(), Error::InvalidIndex);
    assert_eq!(b.as_slice(), b"ab");
}

#[test]
fn insert_slice_at_rejects_overflow_and_keeps_content() {
    let mut b: Bytes<6> = Bytes::try_from_slice(b"hello").unwrap();
    let r = b.insert_slice_at(b"XY", 2);
    assert_eq!(r.unwrap_err(), Error::CapacityExceeded);
    assert_eq!(b.as_slice(), b"hello");
}

#[test]
fn extend_from_slice_appends() {
    let mut b: Bytes<8> = Bytes::try_from_slice(b"ab").unwrap();
    b.extend_from_slice(b"cd").unwrap();
    assert_eq!(b.as_slice(), b"abcd");
}

#[test]
fn extend_from_slice_rejects_overflow() {
    let mut b: Bytes<4> = Bytes::try_from_slice(b"abc").unwrap();
    let r = b.extend_from_slice(b"de");
    assert_eq!(r.unwrap_err(), Error::CapacityExceeded);
    assert_eq!(b.as_slice(), b"abc");
}

#[test]
fn push_byte_fills_then_fails_with_attempted_size() {
    let mut b: Bytes<2> = Bytes::new();
    b.push_byte(1).unwrap();
    b.push_byte(2).unwrap();
    let r = b.push_byte(3);
    assert_eq!(r.unwrap_err(), Error::InvalidLength(3));
    assert_eq!(b.as_slice(), &[1u8, 2]);
}

#[test]
fn length_never_exceeds_capacity() {
    let mut b: Bytes<4> = Bytes::new();
    let ops: [u8; 10] = [9, 8, 7, 6, 5, 4, 3, 2, 1, 0];
    for (i, x) in ops.iter().enumerate() {
        let _ = b.push_byte(*x);
        let _ = b.extend_from_slice(&ops[..i]);
        let _ = b.insert_slice_at(&ops[i..], i);
        assert!(b.len() <= 4);
    }
}

#[test]
fn equality_scenario() {
    let a: Bytes<32> = Bytes::try_from_slice(b"abc").unwrap();
    let b: Bytes<32> = Bytes::try_from_slice(b"abc").unwrap();
    let c: Bytes<32> = Bytes::try_from_slice(b"abd").unwrap();
    assert!(a.eq_slice(b"abc"));
    assert!(a == b);
    assert!(!a.eq_slice(b"abd"));
    assert!(a != c);
}

#[test]
fn clone_keeps_bytes() {
    let a: Bytes<8> = Bytes::try_from_slice(b"xyz").unwrap();
    let b = a.clone();
    assert!(a == b);
    assert_eq!(b.as_slice(), b"xyz");
}

#[test]
fn cmp_slice_is_lexicographic() {
    let a: Bytes<8> = Bytes::try_from_slice(b"abc").unwrap();
    assert_eq!(a.cmp_slice(b"abd"), Ordering::Less);
    assert_eq!(a.cmp_slice(b"abc"), Ordering::Equal);
    assert_eq!(a.cmp_slice(b"abb"), Ordering::Greater);
    assert_eq!(a.cmp_slice(b"abcd"), Ordering::Less);
    assert_eq!(a.cmp_slice(b"ab"), Ordering::Greater);
}

#[test]
fn default_is_empty() {
    let b: Bytes<8> = Default::default();
    assert!(b.is_empty());
}

#[test]
fn buffer_order_is_lexicographic() {
    let a: Bytes<8> = Bytes::try_from_slice(b"abc").unwrap();
    let b: Bytes<8> = Bytes::try_from_slice(b"abd").unwrap();
    let p: Bytes<8> = Bytes::try_from_slice(b"ab").unwrap();
    assert!(a < b);
    assert_eq!(a.partial_cmp(&b), Some(Ordering::Less));
    assert!(p < a);
    assert!(a <= a.clone());
}

#[test]
fn render_escapes_like_a_byte_literal() {
    let a: Bytes<8> = Bytes::try_from_slice(b"a\t\xff'").unwrap();
    let shown = a.render();
    assert_eq!(shown, b"b'a\\t\\xff\\''".to_vec());
}

#[test]
fn render_keeps_printables() {
    let a: Bytes<16> = Bytes::try_from_slice(b"Az 9~").unwrap();
    assert_eq!(a.render(), b"b'Az 9~'".to_vec());
}

#[test]
fn render_hex_escapes_control_bytes() {
    let a: Bytes<8> = Bytes::try_from_slice(&[0x01, 0x1f, 0x80]).unwrap();
    assert_eq!(a.render(), b"b'\\x01\\x1f\\x80'".to_vec());
}
