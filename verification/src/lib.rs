//! A strongly-typed in-memory tree for OGC KML documents and a verified
//! bidirectional codec between that tree and canonical XML text.
//!
//! The encoder serializes the tree into an exact, schema-ordered XML
//! event sequence; the decoder parses an XML event sequence back into
//! the tree, applying the standard's default values and folding unknown
//! tags into a generic element.  Lexical XML work — escaping, tag
//! syntax, tokenizing — is delegated to the `quick_xml` crate behind a
//! small set of trusted wrappers; everything at the schema level is
//! verified.
use vstd::prelude::*;

pub mod model;
pub mod views;
pub mod txt;
pub mod xml;
pub mod encode;
pub mod parse;
pub mod decode;
pub mod writer;
pub mod laws;

verus! {

pub use crate::model::Kml;
pub use crate::model::KmlError;
pub use crate::decode::decode;
pub use crate::writer::KmlWriter;

} // verus!
