//! Fixed-width integers, written most significant byte first.

use crate::access::{FieldAccess, Meta};
use crate::wire::{
    be_bytes, be_value, lemma_be_bytes_len, lemma_be_bytes_of_value, lemma_be_value_bound,
    lemma_be_value_of_bytes, lemma_radix_values, lemma_signed_unsigned, lemma_unsigned_signed,
    radix, read_be, rewind_be, to_signed, to_unsigned, write_be,
};
use crate::writer::BufWriter;
use vstd::prelude::*;

verus! {

/// An integer type with a wire form of fixed width.
///
/// The wire form of a value is the big-endian form of an unsigned number,
/// its `raw` number, on `width` bytes. The raw numbers of a type are the
/// numbers below `radix(width)`, one for each value.
pub trait Scalar: Copy + Sized {
    /// The number of bytes a value takes on the wire, from 1 to 4.
    spec fn width() -> nat;

    /// The unsigned number that stands for the value on the wire.
    spec fn raw(self) -> nat;

    /// The value that `raw` stands for.
    spec fn from_raw(raw: nat) -> Self;

    /// The name of the type.
    spec fn spec_name() -> Seq<char>;

    /// The name of a fixed-length array of the type.
    spec fn spec_array_name() -> Seq<char>;

    /// A scalar takes at least one byte and at most four.
    proof fn lemma_width()
        ensures
            1 <= Self::width() <= 4,
    ;

    /// Every value has a raw number below the radix, and comes back from it.
    proof fn lemma_raw(self)
        ensures
            self.raw() < radix(Self::width()),
            Self::from_raw(self.raw()) == self,
    ;

    /// Every number below the radix is the raw number of the value it
    /// stands for.
    proof fn lemma_from_raw(raw: nat)
        requires
            raw < radix(Self::width()),
        ensures
            Self::from_raw(raw).raw() == raw,
    ;

    /// The number of bytes a value takes on the wire.
    fn size() -> (n: usize)
        ensures
            n == Self::width(),
    ;

    /// The unsigned number that stands for the value on the wire.
    fn to_raw(self) -> (raw: u32)
        ensures
            raw == self.raw(),
    ;

    /// The value that `raw`, a number below the radix, stands for.
    fn of_raw(raw: u32) -> (value: Self)
        requires
            raw < radix(Self::width()),
        ensures
            value == Self::from_raw(raw as nat),
    ;

    /// The name of the type.
    fn name() -> (r: &'static str)
        ensures
            r@ == Self::spec_name(),
    ;

    /// The name of a fixed-length array of the type.
    fn array_name() -> (r: &'static str)
        ensures
            r@ == Self::spec_array_name(),
    ;
}

impl Scalar for u8 {
    open spec fn width() -> nat {
        1
    }

    open spec fn raw(self) -> nat {
        self as nat
    }

    open spec fn from_raw(raw: nat) -> u8 {
        raw as u8
    }

    open spec fn spec_name() -> Seq<char> {
        "u8"@
    }

    open spec fn spec_array_name() -> Seq<char> {
        "[u8; S"@
    }

    proof fn lemma_width() {
    }

    proof fn lemma_raw(self) {
        lemma_radix_values();
    }

    proof fn lemma_from_raw(raw: nat) {
        lemma_radix_values();
    }

    fn size() -> (n: usize) {
        1
    }

    fn to_raw(self) -> (raw: u32) {
        self as u32
    }

    fn of_raw(raw: u32) -> (value: u8) {
        proof {
            lemma_radix_values();
        }
        raw as u8
    }

    fn name() -> (r: &'static str) {
        "u8"
    }

    fn array_name() -> (r: &'static str) {
        "[u8; S"
    }
}

impl Scalar for i16 {
    open spec fn width() -> nat {
        2
    }

    open spec fn raw(self) -> nat {
        to_unsigned(self as int, 2)
    }

    open spec fn from_raw(raw: nat) -> i16 {
        to_signed(raw, 2) as i16
    }

    open spec fn spec_name() -> Seq<char> {
        "i16"@
    }

    open spec fn spec_array_name() -> Seq<char> {
        "[i16; S"@
    }

    proof fn lemma_width() {
    }

    proof fn lemma_raw(self) {
        lemma_radix_values();
        lemma_signed_unsigned(self as int, 2);
    }

    proof fn lemma_from_raw(raw: nat) {
        lemma_radix_values();
        lemma_unsigned_signed(raw, 2);
    }

    fn size() -> (n: usize) {
        2
    }

    fn to_raw(self) -> (raw: u32) {
        proof {
            lemma_radix_values();
        }
        if self >= 0 {
            self as u32
        } else {
            (self - i16::MIN) as u32 + 0x8000
        }
    }

    fn of_raw(raw: u32) -> (value: i16) {
        proof {
            lemma_radix_values();
        }
        if raw < 0x8000 {
            raw as i16
        } else {
            ((raw - 0x8000) as i16) + i16::MIN
        }
    }

    fn name() -> (r: &'static str) {
        "i16"
    }

    fn array_name() -> (r: &'static str) {
        "[i16; S"
    }
}

impl Scalar for i32 {
    open spec fn width() -> nat {
        4
    }

    open spec fn raw(self) -> nat {
        to_unsigned(self as int, 4)
    }

    open spec fn from_raw(raw: nat) -> i32 {
        to_signed(raw, 4) as i32
    }

    open spec fn spec_name() -> Seq<char> {
        "i32"@
    }

    open spec fn spec_array_name() -> Seq<char> {
        "[i32; S"@
    }

    proof fn lemma_width() {
    }

    proof fn lemma_raw(self) {
        lemma_radix_values();
        lemma_signed_unsigned(self as int, 4);
    }

    proof fn lemma_from_raw(raw: nat) {
        lemma_radix_values();
        lemma_unsigned_signed(raw, 4);
    }

    fn size() -> (n: usize) {
        4
    }

    fn to_raw(self) -> (raw: u32) {
        proof {
            lemma_radix_values();
        }
        if self >= 0 {
            self as u32
        } else {
            (self - i32::MIN) as u32 + 0x8000_0000
        }
    }

    fn of_raw(raw: u32) -> (value: i32) {
        proof {
            lemma_radix_values();
        }
        if raw < 0x8000_0000 {
            raw as i32
        } else {
            ((raw - 0x8000_0000) as i32) + i32::MIN
        }
    }

    fn name() -> (r: &'static str) {
        "i32"
    }

    fn array_name() -> (r: &'static str) {
        "[i32; S"
    }
}

/// The value that the bytes `bytes` denote as a `T`.
pub open spec fn decode<T: Scalar>(bytes: Seq<u8>) -> T {
    T::from_raw(be_value(bytes))
}

/// The wire form of `value`.
pub open spec fn encode<T: Scalar>(value: T) -> Seq<u8> {
    be_bytes(value.raw(), T::width())
}

/// What is left of `value` in a `T`: the value whose wire form is the
/// low-order bytes of `value`.
pub open spec fn truncate<T: Scalar>(value: nat) -> T {
    T::from_raw(value % radix(T::width()))
}

/// The descriptor of a scalar field type.
pub struct ScalarMeta<T> {
    _phantom: core::marker::PhantomData<T>,
}

impl<T: Scalar> Meta for ScalarMeta<T> {
    open spec fn spec_name(&self) -> Seq<char> {
        T::spec_name()
    }

    fn name(&self) -> (r: &'static str) {
        T::name()
    }
}

/// Reads a `T` from the front of `buf`.
pub fn read_scalar<T: Scalar>(buf: &[u8]) -> (value: T)
    requires
        buf@.len() >= T::width(),
    ensures
        value == decode::<T>(buf@.subrange(0, T::width() as int)),
{
    proof {
        T::lemma_width();
        lemma_be_value_bound(buf@.subrange(0, T::width() as int));
    }
    T::of_raw(read_be(buf, T::size()))
}

/// 256 to the `width`, for the widths a scalar can have.
fn radix_of(width: usize) -> (m: u64)
    requires
        1 <= width <= 4,
    ensures
        m == radix(width as nat),
        0x100 <= m <= 0x1_0000_0000,
{
    proof {
        lemma_radix_values();
    }
    if width == 1 {
        0x100
    } else if width == 2 {
        0x1_0000
    } else if width == 3 {
        0x100_0000
    } else {
        0x1_0000_0000
    }
}

impl<T: Scalar> FieldAccess<T> {
    /// The descriptor of the field type.
    pub fn meta() -> (m: ScalarMeta<T>)
        ensures
            m.spec_name() == T::spec_name(),
    {
        ScalarMeta { _phantom: core::marker::PhantomData }
    }

    /// The value of type `T` whose wire form is the low-order bytes of
    /// `value`.
    pub fn constant(value: usize) -> (r: T)
        ensures
            r == truncate::<T>(value as nat),
    {
        proof {
            T::lemma_width();
        }
        let m = radix_of(T::size());
        T::of_raw((value as u64 % m) as u32)
    }

    /// The number of bytes the field takes, whatever the buffer holds.
    pub fn size_of_field_at(_buf: &[u8]) -> (n: usize)
        ensures
            n == T::width(),
    {
        T::size()
    }

    /// The value at the front of `buf`, which must hold all its bytes.
    pub fn extract(buf: &[u8]) -> (value: T)
        requires
            buf@.len() >= T::width(),
        ensures
            value == decode::<T>(buf@.subrange(0, T::width() as int)),
    {
        read_scalar::<T>(buf)
    }

    /// The number of bytes a value is written as: the same for all.
    pub fn measure(value: T) -> (n: usize)
        ensures
            n == encode(value).len(),
            n == T::width(),
    {
        proof {
            lemma_be_bytes_len(value.raw(), T::width());
        }
        T::size()
    }

    /// Appends the wire form of `value` in one request.
    pub fn copy_to_buf(buf: &mut BufWriter, value: T)
        ensures
            final(buf)@ == old(buf)@.write(encode(value)),
    {
        proof {
            T::lemma_width();
        }
        write_be(buf, value.to_raw(), T::size());
    }

    /// Overwrites the bytes at `rewind` with the wire form of `value`. The
    /// bytes there must have been written before, unless the writer has
    /// failed.
    pub fn copy_to_buf_rewind(buf: &mut BufWriter, rewind: usize, value: T)
        requires
            old(buf)@.failed || old(buf)@.covers(rewind as int, T::width() as int),
        ensures
            final(buf)@ == old(buf)@.patch(rewind as int, encode(value)),
    {
        proof {
            T::lemma_width();
        }
        rewind_be(buf, rewind, value.to_raw(), T::size());
    }
}

/// A scalar survives the wire: its wire form has the width of its type, and
/// decodes to the value itself, whatever follows it in the buffer.
pub proof fn lemma_decode_encode<T: Scalar>(value: T, tail: Seq<u8>)
    ensures
        encode(value).len() == T::width(),
        decode::<T>(encode(value)) == value,
        decode::<T>((encode(value) + tail).subrange(0, T::width() as int)) == value,
{
    value.lemma_raw();
    lemma_be_bytes_len(value.raw(), T::width());
    lemma_be_value_of_bytes(value.raw(), T::width());
    vstd::arithmetic::div_mod::lemma_small_mod(value.raw(), radix(T::width()));
    assert((encode(value) + tail).subrange(0, T::width() as int) =~= encode(value));
}

/// The wire survives a scalar: bytes of the width of the type are the wire
/// form of what they decode to.
pub proof fn lemma_encode_decode<T: Scalar>(bytes: Seq<u8>)
    requires
        bytes.len() == T::width(),
    ensures
        encode(decode::<T>(bytes)) == bytes,
{
    lemma_be_value_bound(bytes);
    T::lemma_from_raw(be_value(bytes));
    lemma_be_bytes_of_value(bytes);
}

} // verus!
