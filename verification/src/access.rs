//! The handle through which every codec is reached, and the descriptors that
//! name field types.

use vstd::prelude::*;

verus! {

/// A descriptor of a field type, for diagnostics.
pub trait Meta {
    /// The name of the field type.
    spec fn spec_name(&self) -> Seq<char>;

    /// The name of the field type.
    fn name(&self) -> (r: &'static str)
        ensures
            r@ == self.spec_name(),
    ;
}

/// Ties a field type `T` to its codec. It holds nothing at run time: the
/// operations of the codec are its associated functions, one set per `T`.
///
/// For each field type these are, as far as they apply:
/// `meta` (a descriptor), `size_of_field_at` (the bytes the field takes at
/// the front of a buffer), `extract` (the value there, borrowed from the
/// buffer), `measure` (the bytes a value is written as), `copy_to_buf`
/// (appending a value) and `copy_to_buf_rewind` (overwriting an earlier one).
pub struct FieldAccess<T> {
    _phantom_data: core::marker::PhantomData<T>,
}

} // verus!
