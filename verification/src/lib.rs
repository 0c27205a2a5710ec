//! Typed, path-addressed read access to a loaded structured document.
//!
//! A document is parsed once into an owned value tree and held in a
//! [`store::DataStore`] behind an opaque [`store::Handle`].  Callers then
//! resolve RFC 6901 JSON-Pointer paths against the tree, ask for the shape of
//! a node, enumerate an object's keys, or extract a node's payload in a
//! boundary-safe form.  Failures are reported through a last-error slot on
//! the store, never by panicking.

pub mod laws;
pub mod parse;
pub mod pointer;
pub mod store;
pub mod value;

pub use store::DataError;
pub use store::DataStore;
pub use store::Handle;
pub use store::Payload;
pub use value::Ffi__DataType;
pub use value::Node;
