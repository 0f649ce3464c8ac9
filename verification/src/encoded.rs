//! Row values: a four-byte signed length, then that many bytes, or the
//! length -1 alone for a value that is absent.

use crate::access::{FieldAccess, Meta};
use crate::bytes::bytes_eq;
use crate::scalar::read_scalar;
use crate::wire::{
    be_bytes, be_value, lemma_be_bytes_len, lemma_be_value_of_bytes, lemma_radix_values, low_bytes,
    to_signed, write_be,
};
use crate::writer::BufWriter;
use vstd::prelude::*;
use vstd::std_specs::cmp::PartialEqSpecImpl;
use vstd::utf8::encode_utf8;

verus! {

/// An encoded row value.
#[derive(Debug, Clone, Copy)]
pub enum Encoded<'a> {
    /// No value.
    Null,
    /// A value, as the bytes that encode it.
    Value(&'a [u8]),
}

impl<'a> View for Encoded<'a> {
    type V = Option<Seq<u8>>;

    open spec fn view(&self) -> Option<Seq<u8>> {
        match self {
            Encoded::Null => None,
            Encoded::Value(bytes) => Some(bytes@),
        }
    }
}

impl<'a> Default for Encoded<'a> {
    fn default() -> (value: Self)
        ensures
            value@ is None,
    {
        Encoded::Null
    }
}

impl<'a> AsRef<Encoded<'a>> for Encoded<'a> {
    fn as_ref(&self) -> (same: &Encoded<'a>)
        ensures
            same == self,
    {
        self
    }
}

impl<'a> Encoded<'a> {
    /// Whether this is the value with the bytes `other`.
    fn holds(&self, other: &[u8]) -> (same: bool)
        ensures
            same == (self@ == Some(other@)),
    {
        match self {
            Encoded::Null => false,
            Encoded::Value(bytes) => bytes_eq(bytes, other),
        }
    }
}

impl PartialEq for Encoded<'_> {
    fn eq(&self, other: &Self) -> (same: bool) {
        match other {
            Encoded::Null => match self {
                Encoded::Null => true,
                Encoded::Value(_) => false,
            },
            Encoded::Value(bytes) => self.holds(bytes),
        }
    }
}

impl PartialEqSpecImpl for Encoded<'_> {
    open spec fn obeys_eq_spec() -> bool {
        true
    }

    open spec fn eq_spec(&self, other: &Self) -> bool {
        self@ == other@
    }
}

impl Eq for Encoded<'_> {

}

impl PartialEq<str> for Encoded<'_> {
    fn eq(&self, other: &str) -> (same: bool) {
        self.holds(other.as_bytes())
    }
}

impl PartialEqSpecImpl<str> for Encoded<'_> {
    open spec fn obeys_eq_spec() -> bool {
        true
    }

    open spec fn eq_spec(&self, other: &str) -> bool {
        self@ == Some(encode_utf8(other@))
    }
}

impl PartialEq<&str> for Encoded<'_> {
    fn eq(&self, other: &&str) -> (same: bool) {
        self.holds(other.as_bytes())
    }
}

impl PartialEqSpecImpl<&str> for Encoded<'_> {
    open spec fn obeys_eq_spec() -> bool {
        true
    }

    open spec fn eq_spec(&self, other: &&str) -> bool {
        self@ == Some(encode_utf8(other@))
    }
}

impl PartialEq<[u8]> for Encoded<'_> {
    fn eq(&self, other: &[u8]) -> (same: bool) {
        self.holds(other)
    }
}

impl PartialEqSpecImpl<[u8]> for Encoded<'_> {
    open spec fn obeys_eq_spec() -> bool {
        true
    }

    open spec fn eq_spec(&self, other: &[u8]) -> bool {
        self@ == Some(other@)
    }
}

impl PartialEq<&[u8]> for Encoded<'_> {
    fn eq(&self, other: &&[u8]) -> (same: bool) {
        self.holds(*other)
    }
}

impl PartialEqSpecImpl<&[u8]> for Encoded<'_> {
    open spec fn obeys_eq_spec() -> bool {
        true
    }

    open spec fn eq_spec(&self, other: &&[u8]) -> bool {
        self@ == Some(other@)
    }
}

/// The signed length that the first four bytes of `buf` denote.
pub open spec fn length_prefix(buf: Seq<u8>) -> int {
    to_signed(be_value(buf.subrange(0, 4)), 4)
}

/// Whether `buf` starts with a length that an encoded value can have: the
/// sentinel -1 or a length proper.
pub open spec fn has_length_prefix(buf: Seq<u8>) -> bool {
    buf.len() >= 4 && length_prefix(buf) >= -1
}

/// The number of bytes that the encoded value at the front of `buf` takes.
pub open spec fn encoded_size(buf: Seq<u8>) -> int {
    if length_prefix(buf) == -1 {
        4
    } else {
        length_prefix(buf) + 4
    }
}

/// Whether `buf` holds a whole encoded value at its front.
pub open spec fn holds_encoded(buf: Seq<u8>) -> bool {
    has_length_prefix(buf) && buf.len() >= encoded_size(buf)
}

/// The encoded value at the front of `buf`.
pub open spec fn encoded_at(buf: Seq<u8>) -> Option<Seq<u8>> {
    if length_prefix(buf) == -1 {
        None
    } else {
        Some(buf.subrange(4, 4 + length_prefix(buf)))
    }
}

/// The four bytes written for `value`: the sentinel, or the low-order four
/// bytes of the payload's length. The payload itself is not among them.
pub open spec fn encoded_header(value: Option<Seq<u8>>) -> Seq<u8> {
    match value {
        None => seq![0xffu8, 0xffu8, 0xffu8, 0xffu8],
        Some(bytes) => be_bytes(bytes.len(), 4),
    }
}

/// An absent value survives the wire: its header, with whatever follows,
/// is a whole field of four bytes that holds no value.
pub proof fn lemma_null_round_trip(tail: Seq<u8>)
    ensures
        holds_encoded(encoded_header(None) + tail),
        encoded_size(encoded_header(None) + tail) == 4,
        encoded_at(encoded_header(None) + tail) == None::<Seq<u8>>,
{
    reveal_with_fuel(be_value, 5);
    lemma_radix_values();
}

/// A value survives the wire: its header, its bytes and whatever follows
/// make a whole field of four bytes more than the value has, which holds
/// that value. This is so for payloads whose length the prefix can hold.
pub proof fn lemma_value_round_trip(payload: Seq<u8>, tail: Seq<u8>)
    requires
        payload.len() <= i32::MAX,
    ensures
        holds_encoded(encoded_header(Some(payload)) + payload + tail),
        encoded_size(encoded_header(Some(payload)) + payload + tail) == payload.len() + 4,
        encoded_at(encoded_header(Some(payload)) + payload + tail) == Some(payload),
{
    let header = encoded_header(Some(payload));
    let wire = header + payload + tail;
    lemma_be_bytes_len(payload.len(), 4);
    lemma_be_value_of_bytes(payload.len(), 4);
    lemma_radix_values();
    assert(wire.subrange(0, 4) =~= header);
}

/// Reads the length prefix at the front of `buf`.
fn read_length_prefix(buf: &[u8]) -> (len: i32)
    requires
        buf@.len() >= 4,
    ensures
        len == length_prefix(buf@),
{
    proof {
        crate::wire::lemma_be_value_bound(buf@.subrange(0, 4));
        lemma_radix_values();
    }
    read_scalar::<i32>(buf)
}

/// Names the encoded row value field.
pub struct EncodedMeta {}

impl Meta for EncodedMeta {
    open spec fn spec_name(&self) -> Seq<char> {
        "Encoded"@
    }

    fn name(&self) -> (r: &'static str) {
        "Encoded"
    }
}

impl FieldAccess<EncodedMeta> {
    /// The descriptor of the field type.
    pub fn meta() -> (m: EncodedMeta)
        ensures
            m.spec_name() == "Encoded"@,
    {
        EncodedMeta {  }
    }

    /// The field is its length prefix and, unless that is the sentinel, as
    /// many bytes as it says. The buffer must hold the prefix, and the
    /// prefix must not be below -1.
    pub fn size_of_field_at(buf: &[u8]) -> (n: usize)
        requires
            has_length_prefix(buf@),
        ensures
            n == encoded_size(buf@),
    {
        let len = read_length_prefix(buf);
        if len == -1 {
            4
        } else {
            len as usize + 4
        }
    }

    /// The size of the field at the front of `buf`, if `buf` holds a whole
    /// one: a length prefix, not below -1, and as many bytes as it asks for.
    pub fn checked_size_of_field_at(buf: &[u8]) -> (size: Option<usize>)
        ensures
            size is Some <==> holds_encoded(buf@),
            size matches Some(n) ==> n == encoded_size(buf@),
    {
        if buf.len() < 4 {
            return None;
        }
        let len = read_length_prefix(buf);
        if len == -1 {
            Some(4)
        } else if len < 0 || buf.len() - 4 < len as usize {
            None
        } else {
            Some(len as usize + 4)
        }
    }

    /// The value at the front of `buf`, which must hold all of it: none for
    /// the sentinel, else the bytes that follow the prefix, as many as it
    /// says.
    pub fn extract(buf: &[u8]) -> (value: Encoded<'_>)
        requires
            holds_encoded(buf@),
        ensures
            value@ == encoded_at(buf@),
    {
        let len = read_length_prefix(buf);
        if len == -1 {
            Encoded::Null
        } else {
            Encoded::Value(&buf[4..len as usize + 4])
        }
    }

    /// The bytes a value takes on the wire, payload included. Their number
    /// must fit a `usize`.
    pub fn measure(value: &Encoded) -> (n: usize)
        requires
            value@ matches Some(bytes) ==> bytes.len() + 4 <= usize::MAX,
        ensures
            n == match value@ {
                None => 4,
                Some(bytes) => bytes.len() + 4,
            },
    {
        match value {
            Encoded::Null => 4,
            Encoded::Value(value) => value.len() + 4,
        }
    }

    /// Appends the four-byte header of `value`. The payload is left for the
    /// caller to append.
    pub fn copy_to_buf(buf: &mut BufWriter, value: Encoded)
        ensures
            final(buf)@ == old(buf)@.write(encoded_header(value@)),
    {
        Self::copy_to_buf_ref(buf, &value)
    }

    /// Appends the four-byte header of `value`. The payload is left for the
    /// caller to append.
    pub fn copy_to_buf_ref(buf: &mut BufWriter, value: &Encoded)
        ensures
            final(buf)@ == old(buf)@.write(encoded_header(value@)),
    {
        match value {
            Encoded::Null => {
                let sentinel: [u8; 4] = [0xff, 0xff, 0xff, 0xff];
                buf.write(sentinel.as_slice());
            },
            Encoded::Value(value) => {
                write_be(buf, low_bytes(value.len()), 4);
            },
        }
    }
}

} // verus!
