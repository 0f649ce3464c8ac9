//! Zero-terminated strings: the bytes up to the first zero byte.

use crate::access::{FieldAccess, Meta};
use crate::bytes::bytes_eq;
use crate::text::utf8_lossy;
use crate::writer::BufWriter;
use std::borrow::Cow;
use vstd::prelude::*;
use vstd::slice::slice_to_vec;
use vstd::std_specs::cmp::PartialEqSpecImpl;
use vstd::utf8::{decode_utf8, encode_utf8, valid_utf8};

verus! {

/// Whether `buf` holds a zero byte.
pub open spec fn is_terminated(buf: Seq<u8>) -> bool {
    exists|i: int| 0 <= i < buf.len() && buf[i] == 0
}

/// Whether the first zero byte of `buf` is at `i`.
pub open spec fn is_terminator_at(buf: Seq<u8>, i: int) -> bool {
    &&& 0 <= i < buf.len()
    &&& buf[i] == 0
    &&& forall|j: int| 0 <= j < i ==> buf[j] != 0
}

/// A buffer has at most one first zero byte.
pub proof fn lemma_terminator_unique(buf: Seq<u8>, i: int, j: int)
    requires
        is_terminator_at(buf, i),
        is_terminator_at(buf, j),
    ensures
        i == j,
{
}

/// A text without a zero byte survives the wire. Its bytes, a terminator
/// and whatever follows make a buffer whose first zero byte is that
/// terminator; the bytes before it are the text's, and decode to the text.
pub proof fn lemma_text_round_trip(text: Seq<char>, tail: Seq<u8>)
    requires
        forall|i: int| 0 <= i < encode_utf8(text).len() ==> encode_utf8(text)[i] != 0,
    ensures
        is_terminated(encode_utf8(text) + seq![0u8] + tail),
        is_terminator_at(encode_utf8(text) + seq![0u8] + tail, encode_utf8(text).len() as int),
        (encode_utf8(text) + seq![0u8] + tail).subrange(0, encode_utf8(text).len() as int)
            == encode_utf8(text),
        valid_utf8(encode_utf8(text)),
        decode_utf8(encode_utf8(text)) == text,
{
    let bytes = encode_utf8(text);
    let wire = bytes + seq![0u8] + tail;
    assert(wire[bytes.len() as int] == 0);
    vstd::utf8::encode_utf8_valid_utf8(text);
    vstd::utf8::encode_utf8_decode_utf8(text);
}

/// The index of the first zero byte of `buf`.
fn find_terminator(buf: &[u8]) -> (i: usize)
    requires
        is_terminated(buf@),
    ensures
        is_terminator_at(buf@, i as int),
{
    let mut i: usize = 0;
    loop
        invariant
            exists|k: int| i <= k < buf@.len() && buf@[k] == 0,
            forall|j: int| 0 <= j < i ==> buf@[j] != 0,
        ensures
            is_terminator_at(buf@, i as int),
        decreases buf@.len() - i,
    {
        if buf[i] == 0 {
            break ;
        }
        i += 1;
    }
    i
}

/// A zero-terminated string: the bytes before the terminator. They need not
/// be valid text until they are asked to be.
#[derive(Debug)]
pub struct ZTString<'a> {
    buf: &'a [u8],
}

impl<'a> View for ZTString<'a> {
    type V = Seq<u8>;

    closed spec fn view(&self) -> Seq<u8> {
        self.buf@
    }
}

impl<'a> ZTString<'a> {
    /// The text as an owned value, if the bytes are valid UTF-8.
    pub fn to_owned(&self) -> (r: Result<String, std::string::FromUtf8Error>)
        ensures
            r is Ok <==> valid_utf8(self@),
            r matches Ok(s) ==> s@ == decode_utf8(self@),
    {
        String::from_utf8(slice_to_vec(self.buf))
    }

    /// The text, borrowed, if the bytes are valid UTF-8.
    pub fn to_str(&self) -> (r: Result<&'a str, core::str::Utf8Error>)
        ensures
            r is Ok <==> valid_utf8(self@),
            r matches Ok(s) ==> s@ == decode_utf8(self@),
    {
        core::str::from_utf8(self.buf)
    }

    /// The text, with a replacement character wherever the bytes are not
    /// valid UTF-8.
    pub fn to_string_lossy(&self) -> (r: Cow<'_, str>)
        ensures
            r@ == utf8_lossy(self@),
            valid_utf8(self@) ==> r@ == decode_utf8(self@),
    {
        String::from_utf8_lossy(self.buf)
    }
}

impl PartialEq for ZTString<'_> {
    fn eq(&self, other: &Self) -> (same: bool) {
        bytes_eq(self.buf, other.buf)
    }
}

impl PartialEqSpecImpl for ZTString<'_> {
    open spec fn obeys_eq_spec() -> bool {
        true
    }

    open spec fn eq_spec(&self, other: &Self) -> bool {
        self@ == other@
    }
}

impl Eq for ZTString<'_> {

}

impl PartialEq<str> for ZTString<'_> {
    fn eq(&self, other: &str) -> (same: bool) {
        bytes_eq(self.buf, other.as_bytes())
    }
}

impl PartialEqSpecImpl<str> for ZTString<'_> {
    open spec fn obeys_eq_spec() -> bool {
        true
    }

    open spec fn eq_spec(&self, other: &str) -> bool {
        self@ == encode_utf8(other@)
    }
}

impl PartialEq<&str> for ZTString<'_> {
    fn eq(&self, other: &&str) -> (same: bool) {
        bytes_eq(self.buf, other.as_bytes())
    }
}

impl PartialEqSpecImpl<&str> for ZTString<'_> {
    open spec fn obeys_eq_spec() -> bool {
        true
    }

    open spec fn eq_spec(&self, other: &&str) -> bool {
        self@ == encode_utf8(other@)
    }
}

/// Names the zero-terminated string field.
pub struct ZTStringMeta {}

impl Meta for ZTStringMeta {
    open spec fn spec_name(&self) -> Seq<char> {
        "ZTString"@
    }

    fn name(&self) -> (r: &'static str) {
        "ZTString"
    }
}

impl FieldAccess<ZTStringMeta> {
    /// The descriptor of the field type.
    pub fn meta() -> (m: ZTStringMeta)
        ensures
            m.spec_name() == "ZTString"@,
    {
        ZTStringMeta {  }
    }

    /// The field runs up to and including the first zero byte, which the
    /// buffer must hold.
    pub fn size_of_field_at(buf: &[u8]) -> (n: usize)
        requires
            is_terminated(buf@),
        ensures
            is_terminator_at(buf@, n - 1),
    {
        let end = find_terminator(buf);
        assert(end < buf.len());
        end + 1
    }

    /// The size of the field at the front of `buf`, if `buf` holds a zero
    /// byte to end it.
    pub fn checked_size_of_field_at(buf: &[u8]) -> (size: Option<usize>)
        ensures
            size is Some <==> is_terminated(buf@),
            size matches Some(n) ==> is_terminator_at(buf@, n - 1),
    {
        let n = buf.len();
        let mut i: usize = 0;
        while i < n
            invariant
                i <= n,
                n == buf@.len(),
                forall|j: int| 0 <= j < i ==> buf@[j] != 0,
            decreases n - i,
        {
            if buf[i] == 0 {
                return Some(i + 1);
            }
            i += 1;
        }
        None
    }

    /// The bytes before the first zero byte, which the buffer must hold.
    pub fn extract(buf: &[u8]) -> (s: ZTString<'_>)
        requires
            is_terminated(buf@),
        ensures
            is_terminator_at(buf@, s@.len() as int),
            s@ == buf@.subrange(0, s@.len() as int),
    {
        let end = find_terminator(buf);
        ZTString { buf: &buf[0..end] }
    }

    /// A text is written as its bytes and one terminator. Their number must
    /// fit a `usize`.
    pub fn measure(buf: &str) -> (n: usize)
        requires
            encode_utf8(buf@).len() < usize::MAX,
        ensures
            n == encode_utf8(buf@).len() + 1,
    {
        buf.len() + 1
    }

    /// Appends the bytes of `value`, then the terminator, as two requests.
    pub fn copy_to_buf(buf: &mut BufWriter, value: &str)
        ensures
            final(buf)@ == old(buf)@.write(encode_utf8(value@)).write(seq![0u8]),
    {
        buf.write(value.as_bytes());
        buf.write_u8(0);
    }

    /// Appends the bytes of `value`, then the terminator, as two requests.
    pub fn copy_to_buf_ref(buf: &mut BufWriter, value: &str)
        ensures
            final(buf)@ == old(buf)@.write(encode_utf8(value@)).write(seq![0u8]),
    {
        buf.write(value.as_bytes());
        buf.write_u8(0);
    }
}

} // verus!
