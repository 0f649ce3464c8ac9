//! Arrays of a fixed number of scalars: the scalars back to back, with no
//! count in front.

use crate::access::{FieldAccess, Meta};
use crate::elements::{decode_all, element_at, encode_all, read_element, write_elements};
use crate::scalar::Scalar;
use crate::wire::lemma_radix_positive;
use crate::writer::BufWriter;
use vstd::prelude::*;

verus! {

/// The descriptor of a fixed-length array field type.
pub struct FixedArrayMeta<T, const S: usize> {
    _phantom: core::marker::PhantomData<T>,
}

impl<T: Scalar, const S: usize> Meta for FixedArrayMeta<T, S> {
    open spec fn spec_name(&self) -> Seq<char> {
        T::spec_array_name()
    }

    fn name(&self) -> (r: &'static str) {
        T::array_name()
    }
}

impl<T: Scalar, const S: usize> FieldAccess<[T; S]> {
    /// The descriptor of the field type.
    pub fn meta() -> (m: FixedArrayMeta<T, S>)
        ensures
            m.spec_name() == T::spec_array_name(),
    {
        FixedArrayMeta { _phantom: core::marker::PhantomData }
    }

    /// The field takes the width of one element, times their number,
    /// whatever the buffer holds. That size must fit a `usize`.
    pub fn size_of_field_at(_buf: &[u8]) -> (n: usize)
        requires
            T::width() * S <= usize::MAX,
        ensures
            n == T::width() * S,
    {
        T::size() * S
    }

    /// The `S` scalars at the front of `buf`, which must hold all their
    /// bytes.
    pub fn extract(buf: &[u8]) -> (values: [T; S])
        requires
            buf@.len() >= T::width() * S,
        ensures
            values@ == decode_all::<T>(buf@, S as nat),
    {
        proof {
            lemma_radix_positive(T::width());
        }
        let mut values: [T; S] = [T::of_raw(0); S];
        let mut i: usize = 0;
        while i < S
            invariant
                i <= S,
                buf@.len() >= T::width() * S,
                forall|j: int| 0 <= j < i ==> values@[j] == element_at::<T>(buf@, j),
            decreases S - i,
        {
            assert((i + 1) * T::width() <= T::width() * S) by (nonlinear_arith)
                requires
                    i + 1 <= S,
                    T::width() >= 0,
            ;
            values[i] = read_element::<T>(buf, i);
            i += 1;
        }
        values
    }

    /// The number of bytes an array is written as: the same for all. It
    /// must fit a `usize`.
    pub fn measure(value: &[T; S]) -> (n: usize)
        requires
            T::width() * S <= usize::MAX,
        ensures
            n == encode_all(value@).len(),
            n == T::width() * S,
    {
        proof {
            crate::elements::lemma_encode_all_len(value@);
            assert(T::width() * S == S * T::width()) by (nonlinear_arith);
        }
        T::size() * S
    }

    /// Appends the elements in order, all of them or, if the writer has no
    /// room for all, none. Their size must fit a `usize`.
    pub fn copy_to_buf(buf: &mut BufWriter, value: [T; S])
        requires
            T::width() * S <= usize::MAX,
        ensures
            final(buf)@ == old(buf)@.write(encode_all(value@)),
            !old(buf)@.fits(encode_all(value@).len()) ==> final(buf)@.bytes == old(buf)@.bytes,
    {
        proof {
            crate::elements::lemma_encode_all_len(value@);
            assert(T::width() * S == S * T::width()) by (nonlinear_arith);
        }
        if !buf.test(T::size() * S) {
            return ;
        }
        write_elements(buf, value.as_slice());
    }
}

} // verus!
