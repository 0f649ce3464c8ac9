//! Field codecs for the PostgreSQL wire protocol.
//!
//! Every protocol message is a sequence of fields laid out back to back in a
//! byte buffer. This crate describes each kind of field once: how many bytes
//! it occupies at the front of a buffer, which value those bytes denote, and
//! which bytes a value is written as. Decoding borrows from the buffer and
//! never copies; encoding appends to a [`writer::BufWriter`] of bounded
//! capacity, and can go back to fill in a length once it is known.
//!
//! All operations of one codec are associated functions of
//! [`access::FieldAccess`], instantiated with the type that names the field:
//! `u8`, `i16` or `i32` for a scalar, `[T; S]` for a fixed number of scalars,
//! [`arrays::ArrayMeta`] for a counted array, [`length::LengthMeta`] for a
//! length, [`ztstring::ZTStringMeta`] for a zero-terminated string,
//! [`encoded::EncodedMeta`] for a row value that may be absent, and
//! [`rest::RestMeta`] for whatever is left of a message.
//!
//! The functions that read a buffer require it to hold the field they read.
//! Where that takes more than comparing two lengths, the codec also has a
//! `checked_size_of_field_at`, which finds out.

pub mod access;
pub mod arrays;
pub mod bytes;
pub mod elements;
pub mod encoded;
pub mod fixed;
pub mod length;
pub mod meta;
pub mod rest;
pub mod scalar;
pub mod text;
pub mod wire;
pub mod writer;
pub mod ztstring;

pub use access::{FieldAccess, Meta};
pub use arrays::{Array, ArrayMeta};
pub use encoded::{Encoded, EncodedMeta};
pub use length::LengthMeta;
pub use rest::{Rest, RestMeta};
pub use writer::BufWriter;
pub use ztstring::{ZTString, ZTStringMeta};
