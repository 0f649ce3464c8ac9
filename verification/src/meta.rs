//! The types that name the variable-length fields, under the names of the
//! fields themselves.

pub use crate::encoded::EncodedMeta as Encoded;
pub use crate::length::LengthMeta as Length;
pub use crate::rest::RestMeta as Rest;
pub use crate::ztstring::ZTStringMeta as ZTString;
