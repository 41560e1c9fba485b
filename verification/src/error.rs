//! What can go wrong while a document is written or read.

use vstd::prelude::*;
use vstd::std_specs::convert::FromSpecImpl;
use crate::deserializer_core::{Position, ReadEventView, XmlReadEvent};
use crate::emitter::{io_cause, split_io};
use crate::types::VariantType;

verus! {

/// An error that stops the writing of a document.
#[derive(Debug)]
#[non_exhaustive]
pub enum EncodeError {
    /// The output refused a write.
    IoError(std::io::Error),
    /// The XML writer refused an event.
    XmlError(xml::writer::Error),
    /// The caller broke a rule of this library; the text says which.
    Message(&'static str),
    /// A value is of a kind for which there is no codec.
    UnsupportedPropertyType(VariantType),
}

impl From<xml::writer::Error> for EncodeError {
    /// Takes an I/O error out of the XML writer's error, and keeps any other
    /// error of the XML writer as it is.
    fn from(error: xml::writer::Error) -> (result: EncodeError) {
        match split_io(error) {
            Ok(inner) => EncodeError::IoError(inner),
            Err(other) => EncodeError::XmlError(other),
        }
    }
}

impl FromSpecImpl<xml::writer::Error> for EncodeError {
    open spec fn obeys_from_spec() -> bool {
        true
    }

    open spec fn from_spec(error: xml::writer::Error) -> EncodeError {
        match io_cause(error) {
            Some(inner) => EncodeError::IoError(inner),
            None => EncodeError::XmlError(error),
        }
    }
}

/// Why the reading of a document stopped.
#[derive(Debug, PartialEq, Eq)]
#[non_exhaustive]
pub enum DecodeErrorKind {
    /// The parser could not make sense of the text.
    Xml(xml::reader::Error),
    /// The document ended where more was called for.
    UnexpectedEof,
    /// An event came that does not belong where it stands.
    UnexpectedXmlEvent(XmlReadEvent),
    /// The text of a value is not what its kind allows; the message says what
    /// was called for.
    InvalidContent(&'static str),
    /// A value is tagged with a name that no kind of value goes by.
    UnknownPropertyType(String),
}

/// A `DecodeErrorKind` with its texts as sequences of characters.
pub enum DecodeErrorKindView {
    Xml(xml::reader::Error),
    UnexpectedEof,
    UnexpectedXmlEvent(ReadEventView),
    InvalidContent(Seq<char>),
    UnknownPropertyType(Seq<char>),
}

impl View for DecodeErrorKind {
    type V = DecodeErrorKindView;

    open spec fn view(&self) -> DecodeErrorKindView {
        match *self {
            DecodeErrorKind::Xml(error) => DecodeErrorKindView::Xml(error),
            DecodeErrorKind::UnexpectedEof => DecodeErrorKindView::UnexpectedEof,
            DecodeErrorKind::UnexpectedXmlEvent(event) => DecodeErrorKindView::UnexpectedXmlEvent(
                event@,
            ),
            DecodeErrorKind::InvalidContent(message) => DecodeErrorKindView::InvalidContent(
                message@,
            ),
            DecodeErrorKind::UnknownPropertyType(name) => DecodeErrorKindView::UnknownPropertyType(
                name@,
            ),
        }
    }
}

/// An error that stops the reading of a document, with the place in the text
/// at which reading stood.
#[derive(Debug, PartialEq, Eq)]
pub struct DecodeError {
    pub kind: DecodeErrorKind,
    pub position: Position,
}

/// A `DecodeError` with its kind as a `DecodeErrorKindView`.
pub struct DecodeErrorView {
    pub kind: DecodeErrorKindView,
    pub position: Position,
}

impl View for DecodeError {
    type V = DecodeErrorView;

    open spec fn view(&self) -> DecodeErrorView {
        DecodeErrorView { kind: self.kind@, position: self.position }
    }
}

} // verus!
