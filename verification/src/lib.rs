//! A fixed-maximum-capacity byte buffer for allocation-sensitive code,
//! together with a serialization adapter that reads and writes the buffer
//! as a single atomic byte-string value on the wire.

use vstd::prelude::*;

mod buffer;
mod encode;
mod views;
mod wire;

pub use buffer::Bytes;
pub use views::escape_byte;
pub use views::escaped;
pub use views::hex_digit;
pub use views::lemma_lex_cmp_equal_iff;
pub use views::lex_cmp;
pub use views::rendered;
pub use wire::be_bytes;
pub use wire::be_val;
pub use wire::lemma_buffer_round_trip;
pub use wire::lemma_wire_round_trip;
pub use wire::parse_header;
pub use wire::parse_wire;
pub use wire::pow256;
pub use wire::wire_encoding;
pub use wire::wire_header;

verus! {

/// Errors reported by buffer operations and by the decode paths.
#[derive(Clone, PartialEq, Eq, Structural, Debug)]
pub enum Error {
    /// A write would have made the buffer longer than its capacity.
    /// The buffer is left unchanged.
    CapacityExceeded,
    /// Decoded data does not fit the capacity; carries the offending size.
    InvalidLength(usize),
    /// An insertion offset lies outside the current content.
    InvalidIndex,
    /// The wire input is not a well-formed byte-string encoding.
    InvalidFormat,
    /// The packed encoder failed to produce a value within the capacity.
    EncodingFailed,
}

} // verus!
