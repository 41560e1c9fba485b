//! The boundary to the `xml` crate's event writer.
//!
//! Nothing in this file is proved. Each item states what the rest of the
//! library takes for granted about `xml::writer::EventWriter` when it writes
//! into a vector of bytes.

use vstd::prelude::*;
use crate::event::{accepts, WrittenEvent, XmlWriteEvent};

verus! {

/// The `xml` crate's writer of events into an output. Nothing of what it
/// holds is visible here.
#[verifier::external_type_specification]
#[verifier::external_body]
#[verifier::reject_recursive_types(W)]
pub struct ExEventWriter<W>(xml::writer::EventWriter<W>);

/// The error of the `xml` crate's writer. Nothing of what it holds is visible
/// here; `fault` names its variant.
#[verifier::external_type_specification]
#[verifier::external_body]
pub struct ExEmitterError(xml::writer::Error);

/// The standard library's I/O error, which is carried along and never looked
/// into.
#[verifier::external_type_specification]
#[verifier::external_body]
pub struct ExIoError(std::io::Error);

/// The events that `writer` has taken without an error since it was made,
/// oldest first.
pub uninterp spec fn written(writer: xml::writer::EventWriter<Vec<u8>>) -> Seq<WrittenEvent>;

/// The bytes that the output already held when `writer` was made over it.
pub uninterp spec fn carried(writer: xml::writer::EventWriter<Vec<u8>>) -> Seq<u8>;

/// Whether `writer` has the settings that `new_writer` gives: indentation on,
/// no document declaration, start and end tags always written out in full, and
/// the `xml` crate's defaults for the rest.
pub uninterp spec fn configured(writer: xml::writer::EventWriter<Vec<u8>>) -> bool;

/// The bytes that a writer with the settings of `new_writer` puts out when it
/// takes `events` in turn.
pub uninterp spec fn rendered(events: Seq<WrittenEvent>) -> Seq<u8>;

/// What an error of the XML writer says: one case for each variant of
/// `xml::writer::Error`, under the variant's name.
pub enum WriterFault {
    Io(std::io::Error),
    DocumentStartAlreadyEmitted,
    LastElementNameNotAvailable,
    EndElementNameIsNotEqualToLastStartElementName,
    EndElementNameIsNotSpecified,
}

/// The variant of `error`, with the I/O error that it holds if it is `Io`.
pub uninterp spec fn fault(error: xml::writer::Error) -> WriterFault;

/// The I/O error that `error` wraps, if it wraps one.
pub open spec fn io_cause(error: xml::writer::Error) -> Option<std::io::Error> {
    match fault(error) {
        WriterFault::Io(inner) => Some(inner),
        _ => None,
    }
}

/// Calls `EmitterConfig::new`, sets `perform_indent`, and clears
/// `write_document_declaration` and `normalize_empty_elements`, then
/// `create_writer` over `output`. The writer has taken no event yet and keeps
/// the bytes that `output` holds in front of what it will write.
#[verifier::external_body]
pub(crate) fn new_writer(output: Vec<u8>) -> (writer: xml::writer::EventWriter<Vec<u8>>)
    ensures
        configured(writer),
        written(writer) == Seq::<WrittenEvent>::empty(),
        carried(writer) == output@,
{
    xml::writer::EmitterConfig::new()
        .perform_indent(true)
        .write_document_declaration(false)
        .normalize_empty_elements(false)
        .create_writer(output)
}

/// Calls `EventWriter::write` with the `xml` crate's event for `event`.
///
/// A vector of bytes never refuses a write, so no I/O error comes back. With
/// the settings of `new_writer` the writer keeps the names of the open
/// elements and fails on one event only: an end of element while none is
/// open, which it refuses with `LastElementNameNotAvailable` before it writes
/// anything. Every other event is taken and joins the events written.
#[verifier::external_body]
pub(crate) fn emit(writer: &mut xml::writer::EventWriter<Vec<u8>>, event: XmlWriteEvent) -> (result:
    Result<(), xml::writer::Error>)
    requires
        configured(*old(writer)),
    ensures
        configured(*final(writer)),
        carried(*final(writer)) == carried(*old(writer)),
        result is Ok <==> accepts(written(*old(writer)), event@),
        written(*final(writer)) == if result is Ok {
            written(*old(writer)).push(event@)
        } else {
            written(*old(writer))
        },
        result matches Err(error) ==> fault(error) == WriterFault::LastElementNameNotAvailable,
{
    match event {
        XmlWriteEvent::StartElement { name } => writer.write(
            xml::writer::XmlEvent::start_element(name),
        ),
        XmlWriteEvent::EndElement => writer.write(xml::writer::XmlEvent::end_element()),
        XmlWriteEvent::Characters(text) => writer.write(xml::writer::XmlEvent::characters(text)),
        XmlWriteEvent::CData(text) => writer.write(xml::writer::XmlEvent::cdata(text)),
    }
}

/// Calls `EventWriter::into_inner`, which hands the output back: the bytes it
/// held at the start, then the text of the events written.
#[verifier::external_body]
pub(crate) fn into_sink(writer: xml::writer::EventWriter<Vec<u8>>) -> (output: Vec<u8>)
    requires
        configured(writer),
    ensures
        output@ == carried(writer) + rendered(written(writer)),
{
    writer.into_inner()
}

/// Tells the `Io` variant of `xml::writer::Error` from the others and hands out
/// the I/O error that it holds; an error of any other variant comes back as it
/// is.
#[verifier::external_body]
pub(crate) fn split_io(error: xml::writer::Error) -> (result: Result<
    std::io::Error,
    xml::writer::Error,
>)
    ensures
        result == match fault(error) {
            WriterFault::Io(inner) => Result::<std::io::Error, xml::writer::Error>::Ok(inner),
            _ => Err(error),
        },
{
    match error {
        xml::writer::Error::Io(inner) => Ok(inner),
        other => Err(other),
    }
}

} // verus!
