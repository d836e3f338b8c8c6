//! The compact encoder: renders a serializable value into a buffer using
//! the packed (positional, tag-free) binary encoding, inside scratch storage
//! sized exactly to the capacity.

use vstd::prelude::*;

use crate::Error;
use crate::buffer::Bytes;

verus! {

/// Relies on `serde_cbor::Serializer` over `serde_cbor::ser::SliceWrite` in
/// packed format: it writes the encoding of `value` into `buf` in place and
/// reports how many bytes it wrote. `SliceWrite` keeps the slice's length
/// and refuses to write past its end, so a reported count never exceeds the
/// scratch length; the write fails when the scratch is too small or when
/// `value`'s own serialization fails.
#[verifier::external_body]
fn cbor_encode_packed<T: serde::Serialize>(value: &T, buf: &mut Vec<u8>) -> (r: Result<usize, ()>)
    ensures
        final(buf)@.len() == old(buf)@.len(),
        r matches Ok(n) ==> n <= final(buf)@.len(),
{
    let writer = serde_cbor::ser::SliceWrite::new(buf.as_mut_slice());
    let mut ser = serde_cbor::Serializer::new(writer).packed_format();
    match value.serialize(&mut ser) {
        Ok(()) => Ok(ser.into_inner().bytes_written()),
        Err(_) => Err(()),
    }
}

impl<const N: usize> Bytes<N> {
    /// Encodes `value` positionally into scratch storage of exactly `N`
    /// bytes, then keeps the bytes actually written. An encoding that does
    /// not fit the capacity, like any other encoder failure, is surfaced as
    /// a recoverable `EncodingFailed` rather than ending the process.
    pub fn from_serialized<T: serde::Serialize>(value: &T) -> (r: Result<Self, Error>)
        ensures
            r matches Ok(b) ==> b.wf(),
            r matches Err(e) ==> e == Error::EncodingFailed,
    {
        let mut scratch: Vec<u8> = Vec::new();
        let mut i: usize = 0;
        while i < N
            invariant
                i <= N,
                scratch@.len() == i,
            decreases N - i,
        {
            scratch.push(0);
            i = i + 1;
        }
        match cbor_encode_packed(value, &mut scratch) {
            Ok(size) => {
                scratch.truncate(size);
                Ok(Self::from(scratch))
            },
            Err(_) => Err(Error::EncodingFailed),
        }
    }
}

} // verus!
