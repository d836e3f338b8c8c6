//! Derived views of the buffer: equality with anything byte-like,
//! lexicographic ordering, and the escaped diagnostic rendering.

use vstd::prelude::*;

use core::cmp::Ordering;

use crate::buffer::Bytes;

verus! {

/// Lexicographic byte order: the first differing byte decides; a proper
/// prefix orders before the longer sequence.
pub open spec fn lex_cmp(a: Seq<u8>, b: Seq<u8>) -> Ordering
    decreases a.len(),
{
    if a.len() == 0 && b.len() == 0 {
        Ordering::Equal
    } else if a.len() == 0 {
        Ordering::Less
    } else if b.len() == 0 {
        Ordering::Greater
    } else if a[0] < b[0] {
        Ordering::Less
    } else if a[0] > b[0] {
        Ordering::Greater
    } else {
        lex_cmp(a.skip(1), b.skip(1))
    }
}

/// Lexicographic order refines equality: two byte sequences compare
/// `Equal` exactly when they are the same sequence.
pub proof fn lemma_lex_cmp_equal_iff(a: Seq<u8>, b: Seq<u8>)
    ensures
        lex_cmp(a, b) == Ordering::Equal <==> a == b,
    decreases a.len(),
{
    if a.len() != 0 && b.len() != 0 && a[0] == b[0] {
        lemma_lex_cmp_equal_iff(a.skip(1), b.skip(1));
        if a.skip(1) == b.skip(1) {
            assert forall|i: int| 0 <= i < a.len() implies a[i] == b[i] by {
                if i > 0 {
                    assert(a[i] == a.skip(1)[i - 1]);
                    assert(b[i] == b.skip(1)[i - 1]);
                }
            }
            assert(a =~= b);
        }
        if a == b {
            assert(a.skip(1) =~= b.skip(1));
        }
    } else {
        if a.len() == 0 && b.len() == 0 {
            assert(a =~= b);
        }
    }
}

/// The lower-case hex digit for a value below 16.
pub open spec fn hex_digit(v: u8) -> u8 {
    if v < 10 {
        (0x30 + v) as u8
    } else {
        (0x57 + v) as u8
    }
}

/// How one byte renders inside an escaped byte-string literal: the named
/// escapes, printable bytes verbatim, and `\xNN` for everything else.
pub open spec fn escape_byte(b: u8) -> Seq<u8> {
    if b == 0x09 {
        seq![0x5cu8, 0x74u8]
    } else if b == 0x0d {
        seq![0x5cu8, 0x72u8]
    } else if b == 0x0a {
        seq![0x5cu8, 0x6eu8]
    } else if b == 0x5c {
        seq![0x5cu8, 0x5cu8]
    } else if b == 0x27 {
        seq![0x5cu8, 0x27u8]
    } else if b == 0x22 {
        seq![0x5cu8, 0x22u8]
    } else if 0x20 <= b && b <= 0x7e {
        seq![b]
    } else {
        seq![0x5cu8, 0x78u8, hex_digit(b / 16), hex_digit(b % 16)]
    }
}

/// The escape of a whole byte sequence, byte for byte.
pub open spec fn escaped(s: Seq<u8>) -> Seq<u8>
    decreases s.len(),
{
    if s.len() == 0 {
        Seq::empty()
    } else {
        escape_byte(s[0]) + escaped(s.skip(1))
    }
}

/// The full diagnostic rendering: the escaped bytes between `b'` and `'`.
pub open spec fn rendered(s: Seq<u8>) -> Seq<u8> {
    seq![0x62u8, 0x27u8] + escaped(s) + seq![0x27u8]
}

/// Escaping distributes over concatenation.
pub proof fn lemma_escaped_app(a: Seq<u8>, b: Seq<u8>)
    ensures
        escaped(a + b) == escaped(a) + escaped(b),
    decreases a.len(),
{
    if a.len() == 0 {
        assert(a + b =~= b);
        assert(escaped(a) + escaped(b) =~= escaped(b));
    } else {
        assert((a + b).skip(1) =~= a.skip(1) + b);
        lemma_escaped_app(a.skip(1), b);
        assert(escape_byte((a + b)[0]) + (escaped(a.skip(1)) + escaped(b)) =~= (escape_byte(a[0])
            + escaped(a.skip(1))) + escaped(b));
    }
}

/// Appends the rendering of one byte to `out`.
fn push_escape(out: &mut Vec<u8>, b: u8)
    ensures
        final(out)@ == old(out)@ + escape_byte(b),
{
    if b == 0x09 {
        out.push(0x5c);
        out.push(0x74);
    } else if b == 0x0d {
        out.push(0x5c);
        out.push(0x72);
    } else if b == 0x0a {
        out.push(0x5c);
        out.push(0x6e);
    } else if b == 0x5c {
        out.push(0x5c);
        out.push(0x5c);
    } else if b == 0x27 {
        out.push(0x5c);
        out.push(0x27);
    } else if b == 0x22 {
        out.push(0x5c);
        out.push(0x22);
    } else if 0x20 <= b && b <= 0x7e {
        out.push(b);
    } else {
        out.push(0x5c);
        out.push(0x78);
        let hi = b / 16;
        let lo = b % 16;
        out.push(if hi < 10 { 0x30 + hi } else { 0x57 + hi });
        out.push(if lo < 10 { 0x30 + lo } else { 0x57 + lo });
    }
    proof {
        assert(out@ =~= old(out)@ + escape_byte(b));
    }
}

impl<const N: usize> Bytes<N> {
    /// The ASCII diagnostic form of the content, rendered as an escaped,
    /// single-quoted byte-string literal; for logging, not a wire format.
    #[verifier::loop_isolation(false)]
    pub fn render(&self) -> (r: Vec<u8>)
        ensures
            r@ == rendered(self@),
    {
        let s = self.as_slice();
        let mut out: Vec<u8> = Vec::new();
        out.push(0x62);
        out.push(0x27);
        proof {
            assert(self@.subrange(0, 0) =~= Seq::<u8>::empty());
            assert(out@ =~= seq![0x62u8, 0x27u8] + escaped(self@.subrange(0, 0)));
        }
        let mut i: usize = 0;
        while i < s.len()
            invariant
                i <= self@.len(),
                out@ == seq![0x62u8, 0x27u8] + escaped(self@.subrange(0, i as int)),
            decreases self@.len() - i,
        {
            push_escape(&mut out, s[i]);
            proof {
                let pre = self@.subrange(0, i as int);
                assert(self@.subrange(0, (i + 1) as int) =~= pre + seq![self@[i as int]]);
                lemma_escaped_app(pre, seq![self@[i as int]]);
                assert(seq![self@[i as int]].skip(1) =~= Seq::<u8>::empty());
                assert(escaped(seq![self@[i as int]]) =~= escape_byte(self@[i as int]));
                assert(out@ =~= seq![0x62u8, 0x27u8] + escaped(self@.subrange(0, (i + 1) as int)));
            }
            i = i + 1;
        }
        out.push(0x27);
        proof {
            assert(self@.subrange(0, self@.len() as int) =~= self@);
            assert(out@ =~= rendered(self@));
        }
        out
    }

    /// Element-wise equality against any byte slice, the heterogeneous
    /// comparison the buffer offers besides buffer-to-buffer `==`.
    pub fn eq_slice(&self, other: &[u8]) -> (r: bool)
        ensures
            r <==> self@ == other@,
    {
        let s = self.as_slice();
        if s.len() != other.len() {
            return false;
        }
        let mut i: usize = 0;
        while i < other.len()
            invariant
                i <= other@.len(),
                s@ == self@,
                s@.len() == other@.len(),
                forall|j: int| 0 <= j < i ==> self@[j] == other@[j],
            decreases other@.len() - i,
        {
            if s[i] != other[i] {
                return false;
            }
            i = i + 1;
        }
        proof {
            assert(self@ =~= other@);
        }
        true
    }

    /// Lexicographic comparison against any byte slice.
    pub fn cmp_slice(&self, other: &[u8]) -> (r: Ordering)
        ensures
            r == lex_cmp(self@, other@),
    {
        let s = self.as_slice();
        let mut i: usize = 0;
        proof {
            assert(self@.skip(0) =~= self@);
            assert(other@.skip(0) =~= other@);
        }
        loop
            invariant
                i <= s@.len(),
                i <= other@.len(),
                s@ == self@,
                lex_cmp(self@, other@) == lex_cmp(self@.skip(i as int), other@.skip(i as int)),
            decreases s@.len() - i,
        {
            if i == s.len() {
                if i == other.len() {
                    return Ordering::Equal;
                } else {
                    return Ordering::Less;
                }
            }
            if i == other.len() {
                return Ordering::Greater;
            }
            let x = s[i];
            let y = other[i];
            if x < y {
                return Ordering::Less;
            }
            if x > y {
                return Ordering::Greater;
            }
            proof {
                assert(self@.skip(i as int).skip(1) =~= self@.skip(i + 1));
                assert(other@.skip(i as int).skip(1) =~= other@.skip(i + 1));
            }
            i = i + 1;
        }
    }
}

impl<const N: usize> PartialEq for Bytes<N> {
    fn eq(&self, other: &Self) -> (r: bool) {
        self.eq_slice(other.as_slice())
    }
}

impl<const N: usize> vstd::std_specs::cmp::PartialEqSpecImpl for Bytes<N> {
    open spec fn obeys_eq_spec() -> bool {
        true
    }

    open spec fn eq_spec(&self, other: &Self) -> bool {
        self@ == other@
    }
}

impl<const N: usize> PartialOrd for Bytes<N> {
    fn partial_cmp(&self, other: &Self) -> (r: Option<Ordering>) {
        Some(self.cmp_slice(other.as_slice()))
    }
}

impl<const N: usize> vstd::std_specs::cmp::PartialOrdSpecImpl for Bytes<N> {
    open spec fn obeys_partial_cmp_spec() -> bool {
        true
    }

    open spec fn partial_cmp_spec(&self, other: &Self) -> Option<Ordering> {
        Some(lex_cmp(self@, other@))
    }
}

} // verus!
