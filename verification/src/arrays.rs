//! Arrays with their count in front: a count of the width of one scalar
//! type, then as many scalars of another.

use crate::access::{FieldAccess, Meta};
use crate::elements::{decode_all, encode_all, lemma_encode_all_len, read_element, write_elements};
use crate::scalar::Scalar;
use crate::wire::{
    be_bytes, be_value, lemma_be_bytes_len, lemma_be_bytes_tail, low_bytes, radix, read_be,
    write_be,
};
use crate::writer::{lemma_write_write, BufWriter};
use vstd::prelude::*;

verus! {

/// Names the field of arrays of `T` whose count is written as an `L`.
pub struct ArrayMeta<L, T> {
    pub _phantom: core::marker::PhantomData<(L, T)>,
}

impl<L, T> Meta for ArrayMeta<L, T> {
    open spec fn spec_name(&self) -> Seq<char> {
        "Array"@
    }

    fn name(&self) -> (r: &'static str) {
        "Array"
    }
}

/// An array as it lies in a buffer: the bytes of its elements and their
/// number. Elements are decoded when they are asked for.
pub struct Array<'a, L, T> {
    _phantom: core::marker::PhantomData<(L, T)>,
    buf: &'a [u8],
    len: u32,
}

impl<'a, L, T> Array<'a, L, T> {
    /// The bytes that hold the elements.
    pub closed spec fn region(&self) -> Seq<u8> {
        self.buf@
    }

    /// The number of elements.
    pub closed spec fn count(&self) -> nat {
        self.len as nat
    }

    /// An array of `len` elements that lie in `buf`.
    pub fn new(buf: &'a [u8], len: u32) -> (array: Self)
        ensures
            array.region() == buf@,
            array.count() == len,
    {
        Array { _phantom: core::marker::PhantomData, buf, len }
    }

    /// The number of elements.
    pub fn len(&self) -> (n: usize)
        ensures
            n == self.count(),
    {
        self.len as usize
    }

    /// Whether there is no element.
    pub fn is_empty(&self) -> (empty: bool)
        ensures
            empty == (self.count() == 0),
    {
        self.len == 0
    }
}

impl<'a, L, T: Scalar> Array<'a, L, T> {
    /// Whether the region holds all the elements.
    pub open spec fn is_whole(&self) -> bool {
        self.region().len() >= self.count() * T::width()
    }

    /// The `i`-th element.
    pub fn get(&self, i: usize) -> (value: T)
        requires
            self.is_whole(),
            i < self.count(),
        ensures
            value == self@[i as int],
    {
        assert((i + 1) * T::width() <= self.count() * T::width()) by (nonlinear_arith)
            requires
                i + 1 <= self.count(),
                T::width() >= 0,
        ;
        read_element::<T>(self.buf, i)
    }

    /// All the elements, in order.
    pub fn to_vec(&self) -> (values: Vec<T>)
        requires
            self.is_whole(),
        ensures
            values@ == self@,
    {
        let n = self.len();
        let mut values: Vec<T> = Vec::new();
        let mut i: usize = 0;
        while i < n
            invariant
                i <= n,
                n == self.count(),
                self.is_whole(),
                values@ == self@.take(i as int),
            decreases n - i,
        {
            let value = self.get(i);
            values.push(value);
            i += 1;
        }
        values
    }
}

impl<'a, L, T: Scalar> View for Array<'a, L, T> {
    type V = Seq<T>;

    open spec fn view(&self) -> Seq<T> {
        decode_all::<T>(self.region(), self.count())
    }
}

/// The count at the front of `buf`, read as an unsigned number of the width
/// of an `L`.
pub open spec fn array_count<L: Scalar>(buf: Seq<u8>) -> nat {
    be_value(buf.subrange(0, L::width() as int))
}

/// The bytes that an array of `count` elements takes, count included.
pub open spec fn array_size<L: Scalar, T: Scalar>(count: nat) -> nat {
    count * T::width() + L::width()
}

/// Whether `buf` holds a whole array at its front: a count, and as many
/// elements as it says.
pub open spec fn holds_array<L: Scalar, T: Scalar>(buf: Seq<u8>) -> bool {
    buf.len() >= L::width() && buf.len() >= array_size::<L, T>(array_count::<L>(buf))
}

/// The wire form of an array: the count, on the low-order bytes that fit
/// the width of an `L`, then the elements.
pub open spec fn encode_array<L: Scalar, T: Scalar>(values: Seq<T>) -> Seq<u8> {
    be_bytes(values.len(), L::width()) + encode_all(values)
}

/// An array survives the wire, if its count fits the width of an `L`. Its
/// wire form, with whatever follows, starts with its count, takes the size
/// that the count implies, and holds the elements in the region after the
/// count.
pub proof fn lemma_array_round_trip<L: Scalar, T: Scalar>(values: Seq<T>, tail: Seq<u8>)
    requires
        values.len() < radix(L::width()),
    ensures
        encode_array::<L, T>(values).len() == array_size::<L, T>(values.len()),
        array_count::<L>(encode_array::<L, T>(values) + tail) == values.len(),
        decode_all::<T>(
            (encode_array::<L, T>(values) + tail).subrange(
                L::width() as int,
                array_size::<L, T>(values.len()) as int,
            ),
            values.len(),
        ) == values,
{
    let count = be_bytes(values.len(), L::width());
    let wire = encode_array::<L, T>(values) + tail;
    lemma_be_bytes_len(values.len(), L::width());
    lemma_encode_all_len(values);
    crate::wire::lemma_be_value_of_bytes(values.len(), L::width());
    vstd::arithmetic::div_mod::lemma_small_mod(values.len(), radix(L::width()));
    assert(wire.subrange(0, L::width() as int) =~= count);
    assert(wire.subrange(L::width() as int, array_size::<L, T>(values.len()) as int) =~= encode_all(
        values,
    ) + Seq::<u8>::empty());
    crate::elements::lemma_decode_all_encode_all(values, Seq::<u8>::empty());
}

impl<L: Scalar, T: Scalar> FieldAccess<ArrayMeta<L, T>> {
    /// The descriptor of the field type.
    pub fn meta() -> (m: ArrayMeta<L, T>)
        ensures
            m.spec_name() == "Array"@,
    {
        ArrayMeta { _phantom: core::marker::PhantomData }
    }

    /// The field is its count and as many elements as the count says. The
    /// buffer must hold the count, and the size must fit a `usize`.
    pub fn size_of_field_at(buf: &[u8]) -> (n: usize)
        requires
            buf@.len() >= L::width(),
            array_size::<L, T>(array_count::<L>(buf@)) <= usize::MAX,
        ensures
            n == array_size::<L, T>(array_count::<L>(buf@)),
    {
        proof {
            L::lemma_width();
        }
        let count = read_be(buf, L::size()) as usize;
        count * T::size() + L::size()
    }

    /// The size of the field at the front of `buf`, if `buf` holds a whole
    /// one: a count, and as many elements as it says.
    pub fn checked_size_of_field_at(buf: &[u8]) -> (size: Option<usize>)
        ensures
            size is Some <==> holds_array::<L, T>(buf@),
            size matches Some(n) ==> n == array_size::<L, T>(array_count::<L>(buf@)),
    {
        proof {
            L::lemma_width();
            T::lemma_width();
        }
        if buf.len() < L::size() {
            return None;
        }
        let count = read_be(buf, L::size()) as u64;
        assert(count * T::width() <= 0xffff_ffff * 4) by (nonlinear_arith)
            requires
                0 <= count <= 0xffff_ffff,
                0 <= T::width() <= 4,
        ;
        let size = count * (T::size() as u64) + (L::size() as u64);
        if size > buf.len() as u64 {
            None
        } else {
            Some(size as usize)
        }
    }

    /// The array at the front of `buf`, which must hold all of it: its
    /// count, and the bytes of that many elements after it.
    pub fn extract(buf: &[u8]) -> (array: Array<'_, L, T>)
        requires
            holds_array::<L, T>(buf@),
        ensures
            array.count() == array_count::<L>(buf@),
            array.region() == buf@.subrange(
                L::width() as int,
                array_size::<L, T>(array_count::<L>(buf@)) as int,
            ),
            array.is_whole(),
    {
        proof {
            L::lemma_width();
            assert(buf.len() == buf@.len());
        }
        let count = read_be(buf, L::size());
        let start = L::size();
        let end = count as usize * T::size() + start;
        Array::new(&buf[start..end], count)
    }

    /// The bytes an array takes on the wire. Their number must fit a
    /// `usize`.
    pub fn measure(buffer: &[T]) -> (n: usize)
        requires
            array_size::<L, T>(buffer@.len()) <= usize::MAX,
        ensures
            n == array_size::<L, T>(buffer@.len()),
    {
        buffer.len() * T::size() + L::size()
    }

    /// Appends the count and the elements in order, all of it or, if the
    /// writer has no room for all, none. The size of the array on the wire
    /// must fit a `usize`.
    pub fn copy_to_buf(buf: &mut BufWriter, value: &[T])
        requires
            array_size::<L, T>(value@.len()) <= usize::MAX,
        ensures
            final(buf)@ == old(buf)@.write(encode_array::<L, T>(value@)),
            !old(buf)@.fits(encode_array::<L, T>(value@).len()) ==> final(buf)@.bytes == old(
                buf,
            )@.bytes,
    {
        let ghost count = be_bytes(value@.len(), L::width());
        proof {
            L::lemma_width();
            lemma_be_bytes_len(value@.len(), L::width());
            lemma_encode_all_len(value@);
            assert(0 <= T::width() * value@.len() == value@.len() * T::width())
                by (nonlinear_arith);
        }
        let size: usize = T::size() * value.len() + L::size();
        if !buf.test(size) {
            return ;
        }
        let raw = low_bytes(value.len());
        proof {
            lemma_be_bytes_tail(raw as nat, L::width(), 4);
            lemma_be_bytes_tail(value@.len(), L::width(), 4);
            lemma_write_write(old(buf)@, count, encode_all(value@));
        }
        write_be(buf, raw, L::size());
        write_elements(buf, value);
    }
}

} // verus!
