//! An embeddable, process-local typed key-value store that can serialize its
//! entire contents to a single zlib-compressed binary blob and restore it
//! exactly.
//!
//! The store maps UTF-8 text keys to [`DataType`] values (nine scalar/blob
//! kinds).  The binary layout, the decoding failure modes and the store's
//! get/set/extract behaviour are all stated as contracts and verified; the
//! DEFLATE/zlib primitive is an external collaborator reached through a small
//! trusted boundary.

pub mod bytes_be;
pub mod codec;
pub mod datatype;
pub mod db;
pub mod error;
pub mod zlib;

pub use datatype::DataKind;
pub use datatype::DataType;
pub use db::SmollDB;
pub use error::Error;
pub use error::SmollError;

