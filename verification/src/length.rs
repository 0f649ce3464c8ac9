//! Lengths: counts that travel as four-byte signed integers.

use crate::access::{FieldAccess, Meta};
use crate::scalar::{decode, read_scalar, truncate};
use crate::wire::{
    be_bytes, lemma_be_bytes_len, lemma_be_bytes_of_value, lemma_be_value_bound,
    lemma_be_value_of_bytes, lemma_radix_values, low_bytes, rewind_be, write_be,
};
use crate::writer::BufWriter;
use vstd::prelude::*;

verus! {

/// The count that the signed wire value `wire` is taken for. A negative
/// value is not a length; it comes out as the count that a cast gives: far
/// out of the range of the wire.
pub open spec fn length_of_wire(wire: i32) -> usize {
    if wire >= 0 {
        wire as usize
    } else {
        (usize::MAX + 1 + wire) as usize
    }
}

/// A length that the wire can hold survives it: the four bytes written for
/// it, with whatever follows, read back as the same length.
pub proof fn lemma_length_round_trip(value: usize, tail: Seq<u8>)
    requires
        value <= i32::MAX,
    ensures
        be_bytes(value as nat, 4).len() == 4,
        length_of_wire(decode::<i32>((be_bytes(value as nat, 4) + tail).subrange(0, 4))) == value,
{
    lemma_be_bytes_len(value as nat, 4);
    lemma_be_value_of_bytes(value as nat, 4);
    lemma_radix_values();
    assert((be_bytes(value as nat, 4) + tail).subrange(0, 4) =~= be_bytes(value as nat, 4));
}

/// The wire survives a length: four bytes that denote a length are the
/// bytes written for the length they read as.
pub proof fn lemma_wire_round_trip(bytes: Seq<u8>)
    requires
        bytes.len() == 4,
        decode::<i32>(bytes) >= 0,
    ensures
        be_bytes(length_of_wire(decode::<i32>(bytes)) as nat, 4) == bytes,
{
    lemma_be_value_bound(bytes);
    lemma_be_bytes_of_value(bytes);
    lemma_radix_values();
}

/// Names the length field, and, as a value, holds a length that is known
/// before the message is built.
pub struct LengthMeta(i32);

impl LengthMeta {
    /// The length held, as it goes on the wire.
    pub closed spec fn wire(&self) -> i32 {
        self.0
    }
}

impl Meta for LengthMeta {
    open spec fn spec_name(&self) -> Seq<char> {
        "len"@
    }

    fn name(&self) -> (r: &'static str) {
        "len"
    }
}

impl FieldAccess<LengthMeta> {
    /// The descriptor of the field type.
    pub fn meta() -> (m: LengthMeta)
        ensures
            m.spec_name() == "len"@,
            m.wire() == 0,
    {
        LengthMeta(0)
    }

    /// A length known beforehand: `value`, cut down to what the wire holds.
    pub fn constant(value: usize) -> (m: LengthMeta)
        ensures
            m.wire() == truncate::<i32>(value as nat),
    {
        LengthMeta(FieldAccess::<i32>::constant(value))
    }

    /// A length takes four bytes, whatever the buffer holds.
    pub fn size_of_field_at(buf: &[u8]) -> (n: usize)
        ensures
            n == 4,
    {
        FieldAccess::<i32>::size_of_field_at(buf)
    }

    /// The length at the front of `buf`, which must hold its four bytes.
    pub fn extract(buf: &[u8]) -> (value: usize)
        requires
            buf@.len() >= 4,
        ensures
            value == length_of_wire(decode::<i32>(buf@.subrange(0, 4))),
    {
        let wire = read_scalar::<i32>(buf);
        if wire >= 0 {
            wire as usize
        } else {
            usize::MAX - ((-(wire + 1)) as usize)
        }
    }

    /// A length is written as four bytes, whatever it is.
    pub fn measure(value: usize) -> (n: usize)
        ensures
            n == be_bytes(value as nat, 4).len(),
            n == 4,
    {
        proof {
            lemma_be_bytes_len(value as nat, 4);
        }
        4
    }

    /// Appends the low-order four bytes of `value`, most significant first.
    pub fn copy_to_buf(buf: &mut BufWriter, value: usize)
        ensures
            final(buf)@ == old(buf)@.write(be_bytes(value as nat, 4)),
    {
        write_be(buf, low_bytes(value), 4);
    }

    /// Overwrites the four bytes at `rewind` with the low-order four bytes
    /// of `value`. The bytes there must have been written before, unless the
    /// writer has failed.
    pub fn copy_to_buf_rewind(buf: &mut BufWriter, rewind: usize, value: usize)
        requires
            old(buf)@.failed || old(buf)@.covers(rewind as int, 4),
        ensures
            final(buf)@ == old(buf)@.patch(rewind as int, be_bytes(value as nat, 4)),
    {
        rewind_be(buf, rewind, low_bytes(value), 4);
    }
}

} // verus!
