//! The remainder of a message: every byte that is left.

use crate::access::{FieldAccess, Meta};
use crate::bytes::bytes_eq;
use crate::writer::BufWriter;
use vstd::prelude::*;
use vstd::std_specs::cmp::PartialEqSpecImpl;

verus! {

/// Represents the remainder of data in a message.
#[derive(Debug)]
pub struct Rest<'a> {
    buf: &'a [u8],
}

impl<'a> View for Rest<'a> {
    type V = Seq<u8>;

    closed spec fn view(&self) -> Seq<u8> {
        self.buf@
    }
}

impl<'a> AsRef<[u8]> for Rest<'a> {
    fn as_ref(&self) -> (bytes: &[u8])
        ensures
            bytes@ == self@,
    {
        self.buf
    }
}

impl<'a> core::ops::Deref for Rest<'a> {
    type Target = [u8];

    fn deref(&self) -> (bytes: &[u8])
        ensures
            bytes@ == self@,
    {
        self.buf
    }
}

impl<'a> PartialEq for Rest<'a> {
    fn eq(&self, other: &Self) -> (same: bool) {
        bytes_eq(self.buf, other.buf)
    }
}

impl<'a> PartialEqSpecImpl for Rest<'a> {
    open spec fn obeys_eq_spec() -> bool {
        true
    }

    open spec fn eq_spec(&self, other: &Self) -> bool {
        self@ == other@
    }
}

impl<'a> Eq for Rest<'a> {

}

impl PartialEq<[u8]> for Rest<'_> {
    fn eq(&self, other: &[u8]) -> (same: bool) {
        bytes_eq(self.buf, other)
    }
}

impl PartialEqSpecImpl<[u8]> for Rest<'_> {
    open spec fn obeys_eq_spec() -> bool {
        true
    }

    open spec fn eq_spec(&self, other: &[u8]) -> bool {
        self@ == other@
    }
}

impl PartialEq<&[u8]> for Rest<'_> {
    fn eq(&self, other: &&[u8]) -> (same: bool) {
        bytes_eq(self.buf, *other)
    }
}

impl PartialEqSpecImpl<&[u8]> for Rest<'_> {
    open spec fn obeys_eq_spec() -> bool {
        true
    }

    open spec fn eq_spec(&self, other: &&[u8]) -> bool {
        self@ == other@
    }
}

impl<const N: usize> PartialEq<&[u8; N]> for Rest<'_> {
    fn eq(&self, other: &&[u8; N]) -> (same: bool) {
        bytes_eq(self.buf, other.as_slice())
    }
}

impl<const N: usize> PartialEqSpecImpl<&[u8; N]> for Rest<'_> {
    open spec fn obeys_eq_spec() -> bool {
        true
    }

    open spec fn eq_spec(&self, other: &&[u8; N]) -> bool {
        self@ == other@
    }
}

/// Names the remainder field.
pub struct RestMeta {}

impl Meta for RestMeta {
    open spec fn spec_name(&self) -> Seq<char> {
        "Rest"@
    }

    fn name(&self) -> (r: &'static str) {
        "Rest"
    }
}

impl FieldAccess<RestMeta> {
    /// The descriptor of the field type.
    pub fn meta() -> (m: RestMeta)
        ensures
            m.spec_name() == "Rest"@,
    {
        RestMeta {  }
    }

    /// The field takes the whole buffer.
    pub fn size_of_field_at(buf: &[u8]) -> (n: usize)
        ensures
            n == buf@.len(),
    {
        buf.len()
    }

    /// The whole buffer, as it is.
    pub fn extract(buf: &[u8]) -> (rest: Rest<'_>)
        ensures
            rest@ == buf@,
    {
        Rest { buf }
    }

    /// A remainder is written as itself.
    pub fn measure(buf: &[u8]) -> (n: usize)
        ensures
            n == buf@.len(),
    {
        buf.len()
    }

    /// Appends `value` in one request.
    pub fn copy_to_buf(buf: &mut BufWriter, value: &[u8])
        ensures
            final(buf)@ == old(buf)@.write(value@),
    {
        buf.write(value)
    }
}

} // verus!
