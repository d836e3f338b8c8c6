//! The serialization adapter's atomic byte-string wire shape.
//!
//! On the wire the buffer is one length-prefixed blob: a header byte of
//! major type `0x40` carrying the length immediately (below 24) or naming
//! how many big-endian length bytes follow (`0x58`, `0x59`, `0x5a`, `0x5b`
//! for 1, 2, 4 and 8), then the payload bytes verbatim. The decoder accepts
//! any well-formed header; the encoder emits the shortest form.

use vstd::prelude::*;

use vstd::arithmetic::div_mod::lemma_fundamental_div_mod;

use crate::Error;
use crate::buffer::Bytes;
use crate::buffer::push_range;

verus! {

/// 256 raised to `k`: the number of values `k` length bytes can carry.
pub open spec fn pow256(k: nat) -> nat
    decreases k,
{
    if k == 0 {
        1
    } else {
        256 * pow256((k - 1) as nat)
    }
}

/// The `k`-byte big-endian rendering of `v` (truncated to `k` bytes).
pub open spec fn be_bytes(v: nat, k: nat) -> Seq<u8>
    decreases k,
{
    if k == 0 {
        Seq::empty()
    } else {
        be_bytes(v / 256, (k - 1) as nat).push((v % 256) as u8)
    }
}

/// The value carried by a big-endian byte sequence.
pub open spec fn be_val(s: Seq<u8>) -> nat
    decreases s.len(),
{
    if s.len() == 0 {
        0
    } else {
        be_val(s.drop_last()) * 256 + (s.last() as nat)
    }
}

/// The shortest header announcing a byte string of `len` payload bytes.
pub open spec fn wire_header(len: nat) -> Seq<u8> {
    if len < 24 {
        seq![(0x40 + len) as u8]
    } else if len < pow256(1) {
        seq![0x58u8] + be_bytes(len, 1)
    } else if len < pow256(2) {
        seq![0x59u8] + be_bytes(len, 2)
    } else if len < pow256(4) {
        seq![0x5au8] + be_bytes(len, 4)
    } else {
        seq![0x5bu8] + be_bytes(len, 8)
    }
}

/// The full wire form of a payload: header, then the payload verbatim.
pub open spec fn wire_encoding(data: Seq<u8>) -> Seq<u8> {
    wire_header(data.len()) + data
}

/// Reads a header: the header size and the announced payload length,
/// or nothing when the input starts with no well-formed header.
pub open spec fn parse_header(input: Seq<u8>) -> Option<(nat, nat)> {
    if input.len() == 0 {
        None
    } else {
        let b0 = input[0];
        if 0x40 <= b0 && b0 < 0x58 {
            Some((1nat, (b0 - 0x40) as nat))
        } else if b0 == 0x58 && input.len() >= 2 {
            Some((2nat, input[1] as nat))
        } else if b0 == 0x59 && input.len() >= 3 {
            Some((3nat, be_val(input.subrange(1, 3))))
        } else if b0 == 0x5a && input.len() >= 5 {
            Some((5nat, be_val(input.subrange(1, 5))))
        } else if b0 == 0x5b && input.len() >= 9 {
            Some((9nat, be_val(input.subrange(1, 9))))
        } else {
            None
        }
    }
}

/// The payload of a complete byte-string encoding: the header must be
/// well formed and announce exactly the bytes that follow it.
pub open spec fn parse_wire(input: Seq<u8>) -> Option<Seq<u8>> {
    match parse_header(input) {
        None => None,
        Some((h, m)) => if input.len() == h + m {
            Some(input.skip(h as int))
        } else {
            None
        },
    }
}

/// A big-endian rendering carries back the value it was made from.
pub proof fn lemma_be_round_trip(v: nat, k: nat)
    requires
        v < pow256(k),
    ensures
        be_bytes(v, k).len() == k,
        be_val(be_bytes(v, k)) == v,
    decreases k,
{
    if k == 0 {
        assert(v == 0);
    } else {
        let p = pow256((k - 1) as nat);
        assert(v < 256 * p);
        assert(v / 256 < p) by (nonlinear_arith)
            requires
                v < 256 * p,
        ;
        lemma_be_round_trip(v / 256, (k - 1) as nat);
        let s = be_bytes(v, k);
        assert(s.drop_last() =~= be_bytes(v / 256, (k - 1) as nat));
        lemma_fundamental_div_mod(v as int, 256);
    }
}

/// Appends the `k`-byte big-endian rendering of `v` to `out`.
fn push_be(out: &mut Vec<u8>, v: u64, k: usize)
    requires
        k <= 8,
        old(out)@.len() + k <= usize::MAX,
    ensures
        final(out)@ == old(out)@ + be_bytes(v as nat, k as nat),
    decreases k,
{
    if k == 0 {
        proof {
            assert(out@ =~= out@ + be_bytes(v as nat, 0));
        }
        return ;
    }
    push_be(out, v / 256, k - 1);
    out.push((v % 256) as u8);
    proof {
        assert(out@ =~= old(out)@ + be_bytes(v as nat, k as nat));
    }
}

/// Reads `k` big-endian bytes starting at `start` as one value.
#[verifier::loop_isolation(false)]
fn read_be(input: &[u8], start: usize, k: usize) -> (r: u64)
    requires
        start + k <= input@.len(),
        start + k <= usize::MAX,
        k <= 8,
    ensures
        r as nat == be_val(input@.subrange(start as int, (start + k) as int)),
{
    let mut acc: u64 = 0;
    let mut i: usize = 0;
    proof {
        assert(pow256(0) == 1);
        assert(pow256(1) == 256);
        assert(pow256(2) == 0x10000);
        assert(pow256(3) == 0x1000000);
        assert(pow256(4) == 0x100000000);
        assert(pow256(5) == 0x10000000000);
        assert(pow256(6) == 0x1000000000000);
        assert(pow256(7) == 0x100000000000000);
        assert(input@.subrange(start as int, start as int) =~= Seq::<u8>::empty());
    }
    while i < k
        invariant
            i <= k,
            acc as nat == be_val(input@.subrange(start as int, (start + i) as int)),
            (acc as nat) < pow256(i as nat),
        decreases k - i,
    {
        proof {
            lemma_pow256_increases(i as nat, 7);
            let s = input@.subrange(start as int, (start + i + 1) as int);
            assert(s.drop_last() =~= input@.subrange(start as int, (start + i) as int));
            assert(s.last() == input@[start + i]);
        }
        acc = acc * 256 + (input[start + i] as u64);
        i = i + 1;
    }
    acc
}

/// `pow256` grows with its exponent.
proof fn lemma_pow256_increases(i: nat, j: nat)
    requires
        i <= j,
    ensures
        pow256(i) <= pow256(j),
    decreases j,
{
    if i < j {
        lemma_pow256_increases(i, (j - 1) as nat);
    }
}

impl<const N: usize> Bytes<N> {
    /// Encodes the content as one atomic byte-string value.
    pub fn encode_wire(&self) -> (r: Vec<u8>)
        requires
            self.wf(),
        ensures
            r@ == wire_encoding(self@),
    {
        let len = self.len();
        let v = len as u64;
        let mut out: Vec<u8> = Vec::new();
        proof {
            assert(pow256(0) == 1);
            assert(pow256(1) == 256);
            assert(pow256(2) == 0x10000);
            assert(pow256(3) == 0x1000000);
            assert(pow256(4) == 0x100000000);
        }
        if v < 24 {
            out.push(0x40 + (v as u8));
        } else if v < 256 {
            out.push(0x58);
            push_be(&mut out, v, 1);
        } else if v < 65536 {
            out.push(0x59);
            push_be(&mut out, v, 2);
        } else if v < 4294967296 {
            out.push(0x5a);
            push_be(&mut out, v, 4);
        } else {
            out.push(0x5b);
            push_be(&mut out, v, 8);
        }
        proof {
            assert(out@ =~= wire_header(self@.len()));
        }
        push_range(&mut out, self.as_slice(), 0, len);
        proof {
            assert(out@ =~= wire_encoding(self@));
        }
        out
    }

    /// Decodes one atomic byte-string value into a fresh buffer. Inputs that
    /// are not a single complete byte string are rejected as `InvalidFormat`;
    /// a well-formed payload longer than the capacity is rejected with
    /// `InvalidLength` carrying that payload length.
    pub fn decode_wire(input: &[u8]) -> (r: Result<Self, Error>)
        ensures
            parse_wire(input@) is None ==> (r matches Err(e) && e == Error::InvalidFormat),
            parse_wire(input@) matches Some(d) ==> {
                &&& d.len() > N ==> (r matches Err(e) && e == Error::InvalidLength(
                    d.len() as usize,
                ))
                &&& d.len() <= N ==> (r matches Ok(b) && b@ == d && b.wf())
            },
    {
        if input.len() == 0 {
            return Err(Error::InvalidFormat);
        }
        let b0 = input[0];
        let h: usize;
        let m: u64;
        if 0x40 <= b0 && b0 < 0x58 {
            h = 1;
            m = (b0 - 0x40) as u64;
        } else if b0 == 0x58 && input.len() >= 2 {
            h = 2;
            m = input[1] as u64;
        } else if b0 == 0x59 && input.len() >= 3 {
            h = 3;
            m = read_be(input, 1, 2);
        } else if b0 == 0x5a && input.len() >= 5 {
            h = 5;
            m = read_be(input, 1, 4);
        } else if b0 == 0x5b && input.len() >= 9 {
            h = 9;
            m = read_be(input, 1, 8);
        } else {
            return Err(Error::InvalidFormat);
        }
        let rest = input.len() - h;
        if (rest as u64) != m {
            return Err(Error::InvalidFormat);
        }
        if rest > N {
            return Err(Error::InvalidLength(rest));
        }
        let mut bytes: Vec<u8> = Vec::new();
        push_range(&mut bytes, input, h, input.len());
        proof {
            assert(bytes@ =~= input@.skip(h as int));
        }
        Ok(Self::from(bytes))
    }
}

impl<const N: usize> Bytes<N> {
    /// The atomic-blob decode entry: copies a byte-string payload that was
    /// presented at once. Succeeds exactly when the blob fits the capacity;
    /// otherwise fails with `InvalidLength` carrying the blob's size.
    pub fn decode_bytes(blob: &[u8]) -> (r: Result<Self, Error>)
        ensures
            r is Ok <==> blob@.len() <= N,
            r matches Ok(b) ==> b@ == blob@ && b.wf(),
            r matches Err(e) ==> e == Error::InvalidLength(blob@.len() as usize),
    {
        if blob.len() > N {
            return Err(Error::InvalidLength(blob.len()));
        }
        let mut bytes: Vec<u8> = Vec::new();
        push_range(&mut bytes, blob, 0, blob.len());
        proof {
            assert(bytes@ =~= blob@);
        }
        Ok(Self::from(bytes))
    }

    /// The sequence decode entry over elements that are all at hand: pushes
    /// them one at a time, failing with `InvalidLength` carrying `N + 1` the
    /// moment an element would not fit. A pull-style cursor can do the same
    /// by feeding each element to `push_byte`.
    #[verifier::loop_isolation(false)]
    pub fn decode_seq(elems: &[u8]) -> (r: Result<Self, Error>)
        requires
            N < usize::MAX,
        ensures
            r is Ok <==> elems@.len() <= N,
            r matches Ok(b) ==> b@ == elems@ && b.wf(),
            r matches Err(e) ==> e == Error::InvalidLength((N + 1) as usize),
    {
        let mut buf = Self::new();
        let mut i: usize = 0;
        while i < elems.len()
            invariant
                i <= elems@.len(),
                buf@ == elems@.subrange(0, i as int),
                buf.wf(),
            decreases elems@.len() - i,
        {
            match buf.push_byte(elems[i]) {
                Ok(_) => {},
                Err(e) => {
                    return Err(e);
                },
            }
            proof {
                assert(buf@ =~= elems@.subrange(0, (i + 1) as int));
            }
            i = i + 1;
        }
        proof {
            assert(buf@ =~= elems@);
        }
        Ok(buf)
    }
}

/// Round trip through the atomic wire shape: decoding what `wire_encoding`
/// produced gives the payload back, for every payload an 8-byte length
/// field can announce.
pub proof fn lemma_wire_round_trip(data: Seq<u8>)
    requires
        data.len() < pow256(8),
    ensures
        parse_wire(wire_encoding(data)) == Some(data),
{
    let len = data.len();
    let input = wire_encoding(data);
    assert(pow256(0) == 1);
    assert(pow256(1) == 256);
    assert(pow256(2) == 0x10000);
    assert(pow256(3) == 0x1000000);
    assert(pow256(4) == 0x100000000);
    if len < 24 {
        assert(input[0] == (0x40 + len) as u8);
        assert(input.skip(1) =~= data);
    } else if len < pow256(1) {
        assert(input[0] == 0x58);
        assert(be_bytes(len / 256, 0) =~= Seq::<u8>::empty());
        assert(be_bytes(len, 1) =~= seq![(len % 256) as u8]);
        assert(input[1] == (len % 256) as u8);
        assert(len % 256 == len);
        assert(input.skip(2) =~= data);
    } else if len < pow256(2) {
        lemma_be_round_trip(len, 2);
        assert(input[0] == 0x59);
        assert(input.subrange(1, 3) =~= be_bytes(len, 2));
        assert(input.skip(3) =~= data);
    } else if len < pow256(4) {
        lemma_be_round_trip(len, 4);
        assert(input[0] == 0x5a);
        assert(input.subrange(1, 5) =~= be_bytes(len, 4));
        assert(input.skip(5) =~= data);
    } else {
        lemma_be_round_trip(len, 8);
        assert(input[0] == 0x5b);
        assert(input.subrange(1, 9) =~= be_bytes(len, 8));
        assert(input.skip(9) =~= data);
    }
}

/// Round trip for a buffer: any content the capacity admits decodes back
/// from its own atomic encoding.
pub proof fn lemma_buffer_round_trip<const N: usize>(b: Bytes<N>)
    requires
        b.wf(),
    ensures
        parse_wire(wire_encoding(b@)) == Some(b@),
{
    assert(pow256(8) == 0x10000000000000000) by {
        assert(pow256(0) == 1);
        assert(pow256(1) == 256);
        assert(pow256(2) == 0x10000);
        assert(pow256(3) == 0x1000000);
        assert(pow256(4) == 0x100000000);
        assert(pow256(5) == 0x10000000000);
        assert(pow256(6) == 0x1000000000000);
        assert(pow256(7) == 0x100000000000000);
    }
    lemma_wire_round_trip(b@);
}

} // verus!
