//! Reading and writing typed property values as XML.
//!
//! The writer decides, for every piece of text, whether it can be written as
//! ordinary escaped character data or has to be wrapped in a CDATA section so
//! that whitespace at its ends survives a round trip. Values of the supported
//! kinds are routed to their codecs by `write_value_xml` and `read_value_xml`.
//!
//! - `whitespace`: which texts start or end with whitespace.
//! - `format`: values that can be written as text.
//! - `event`, `emitter`, `serializer_core`: the events of a document on its
//!   way out, the XML writer they are handed to, and the writer of this
//!   library on top of it.
//! - `deserializer_core`: the events of a document on its way in, and the
//!   reader over them.
//! - `codec`, `types`, `base64`: what a kind of value needs for a codec, the
//!   kinds and their codecs, and the encoding of byte strings.
//! - `error`: what can go wrong.
//! - `laws`: what holds of writing and reading taken together.

pub mod base64;
pub mod codec;
pub mod deserializer_core;
pub mod emitter;
pub mod error;
pub mod event;
pub mod format;
pub mod laws;
pub mod serializer_core;
pub mod std_specs;
pub mod types;
pub mod whitespace;
