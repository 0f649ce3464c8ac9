//! Scalars laid out back to back, with no padding between them.

use crate::scalar::{decode, encode, lemma_decode_encode, read_scalar, Scalar};
use crate::wire::{lemma_be_bytes_len, write_be};
use crate::writer::BufWriter;
use vstd::prelude::*;

verus! {

/// The `i`-th of the scalars laid out back to back in `buf`.
pub open spec fn element_at<T: Scalar>(buf: Seq<u8>, i: int) -> T {
    decode::<T>(buf.subrange(i * T::width(), (i + 1) * T::width()))
}

/// The first `count` scalars laid out back to back in `buf`.
pub open spec fn decode_all<T: Scalar>(buf: Seq<u8>, count: nat) -> Seq<T> {
    Seq::new(count, |i: int| element_at::<T>(buf, i))
}

/// The wire forms of `values`, back to back.
pub open spec fn encode_all<T: Scalar>(values: Seq<T>) -> Seq<u8>
    decreases values.len(),
{
    if values.len() == 0 {
        Seq::empty()
    } else {
        encode_all(values.drop_last()) + encode(values.last())
    }
}

/// Scalars back to back take the width of one, times their number.
pub proof fn lemma_encode_all_len<T: Scalar>(values: Seq<T>)
    ensures
        encode_all(values).len() == values.len() * T::width(),
    decreases values.len(),
{
    if values.len() > 0 {
        lemma_encode_all_len(values.drop_last());
        lemma_be_bytes_len(values.last().raw(), T::width());
        assert((values.len() - 1) * T::width() + T::width() == values.len() * T::width())
            by (nonlinear_arith);
    }
}

/// The `i`-th scalar of a layout is the `i`-th value laid out, whatever
/// follows the layout.
pub proof fn lemma_element_of_encode_all<T: Scalar>(values: Seq<T>, tail: Seq<u8>, i: int)
    requires
        0 <= i < values.len(),
    ensures
        element_at::<T>(encode_all(values) + tail, i) == values[i],
    decreases values.len(),
{
    let w = T::width();
    let front = values.drop_last();
    let last = encode(values.last());
    lemma_encode_all_len(values);
    lemma_encode_all_len(front);
    lemma_decode_encode(values.last(), Seq::empty());
    assert(0 <= i * w && i * w + w == (i + 1) * w && (i + 1) * w <= values.len() * w)
        by (nonlinear_arith)
        requires
            0 <= i < values.len(),
            w >= 0,
    ;
    if i == values.len() - 1 {
        assert((encode_all(values) + tail).subrange(i * w, (i + 1) * w) =~= last);
    } else {
        lemma_element_of_encode_all(front, last + tail, i);
        assert(encode_all(values) + tail =~= encode_all(front) + (last + tail));
    }
}

/// Laying values out and reading as many back gives the values, whatever
/// follows the layout.
pub proof fn lemma_decode_all_encode_all<T: Scalar>(values: Seq<T>, tail: Seq<u8>)
    ensures
        decode_all::<T>(encode_all(values) + tail, values.len()) == values,
{
    let back = decode_all::<T>(encode_all(values) + tail, values.len());
    assert forall|i: int| 0 <= i < values.len() implies back[i] == values[i] by {
        lemma_element_of_encode_all(values, tail, i);
    }
}

/// Reads the `i`-th of the scalars laid out back to back in `buf`.
pub fn read_element<T: Scalar>(buf: &[u8], i: usize) -> (value: T)
    requires
        (i + 1) * T::width() <= buf@.len(),
    ensures
        value == element_at::<T>(buf@, i as int),
{
    let w = T::size();
    assert(0 <= i * w && i * w + w == (i + 1) * w) by (nonlinear_arith);
    assert(buf@.len() <= usize::MAX) by {
        assert(buf.len() == buf@.len());
    }
    let start = i * w;
    let field = &buf[start..start + w];
    assert(field@.subrange(0, w as int) =~= field@);
    read_scalar::<T>(field)
}

/// Appends the wire forms of `values`, one request each, to a writer that
/// has room for all of them.
pub fn write_elements<T: Scalar>(buf: &mut BufWriter, values: &[T])
    requires
        old(buf)@.fits(values@.len() * T::width()),
    ensures
        final(buf)@ == old(buf)@.write(encode_all(values@)),
{
    let n = values.len();
    let mut i: usize = 0;
    proof {
        lemma_encode_all_len(values@);
    }
    while i < n
        invariant
            i <= n,
            n == values@.len(),
            old(buf)@.fits(values@.len() * T::width()),
            buf@.capacity == old(buf)@.capacity,
            !buf@.failed,
            buf@.bytes == old(buf)@.bytes + encode_all(values@.take(i as int)),
        decreases n - i,
    {
        proof {
            let done = values@.take(i as int);
            let next = values@.take(i + 1);
            T::lemma_width();
            lemma_encode_all_len(done);
            lemma_encode_all_len(next);
            assert(next.drop_last() =~= done);
            assert((i + 1) * T::width() <= values@.len() * T::width()) by (nonlinear_arith)
                requires
                    i + 1 <= values@.len(),
                    T::width() >= 0,
            ;
        }
        write_be(buf, values[i].to_raw(), T::size());
        i += 1;
    }
    proof {
        assert(values@.take(n as int) =~= values@);
    }
}

} // verus!
