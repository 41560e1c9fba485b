//! The kinds of property value and the codec of each kind that has one.

pub mod binary_string;
pub mod bool;
pub mod cframe;
pub mod strings;

use vstd::prelude::*;
use crate::codec::{property, read_outcome, read_rest, read_xml, write_xml, XmlType};
use crate::deserializer_core::{Stream, XmlEventReader};
use crate::error::{DecodeError, DecodeErrorKind, DecodeErrorKindView, DecodeErrorView, EncodeError};
use crate::event::WrittenEvent;
use crate::serializer_core::XmlEventWriter;
pub use crate::types::cframe::CFrame;

verus! {

/// A reference to an instance. Zero stands for the reference to nothing.
#[derive(Clone, Copy, Debug, PartialEq, Eq, Structural)]
pub struct Ref {
    pub value: u128,
}

/// A string of bytes that need not be text.
#[derive(Clone, Debug, PartialEq, Eq)]
pub struct BinaryString {
    pub buffer: Vec<u8>,
}

impl View for BinaryString {
    type V = Seq<u8>;

    open spec fn view(&self) -> Seq<u8> {
        self.buffer@
    }
}

/// The kinds of value that a property can hold.
#[derive(Clone, Copy, Debug, PartialEq, Eq, Structural)]
pub enum VariantType {
    BinaryString,
    Bool,
    CFrame,
    Enum,
    Int32,
    Int64,
    Ref,
    String,
}

/// A property value of any kind.
#[derive(Clone, Debug, PartialEq, Eq)]
pub enum Variant {
    BinaryString(BinaryString),
    Bool(bool),
    CFrame(CFrame),
    Enum(u32),
    Int32(i32),
    Int64(i64),
    Ref(Ref),
    String(String),
}

/// A `Variant` with its texts and byte strings as sequences.
pub enum VariantView {
    BinaryString(Seq<u8>),
    Bool(bool),
    CFrame(Seq<Seq<char>>),
    Enum(u32),
    Int32(i32),
    Int64(i64),
    Ref(Ref),
    String(Seq<char>),
}

impl VariantView {
    /// The kind of the value.
    pub open spec fn ty(self) -> VariantType {
        match self {
            VariantView::BinaryString(_) => VariantType::BinaryString,
            VariantView::Bool(_) => VariantType::Bool,
            VariantView::CFrame(_) => VariantType::CFrame,
            VariantView::Enum(_) => VariantType::Enum,
            VariantView::Int32(_) => VariantType::Int32,
            VariantView::Int64(_) => VariantType::Int64,
            VariantView::Ref(_) => VariantType::Ref,
            VariantView::String(_) => VariantType::String,
        }
    }
}

impl View for Variant {
    type V = VariantView;

    open spec fn view(&self) -> VariantView {
        match *self {
            Variant::BinaryString(value) => VariantView::BinaryString(value@),
            Variant::Bool(value) => VariantView::Bool(value),
            Variant::CFrame(value) => VariantView::CFrame(value@),
            Variant::Enum(value) => VariantView::Enum(value),
            Variant::Int32(value) => VariantView::Int32(value),
            Variant::Int64(value) => VariantView::Int64(value),
            Variant::Ref(value) => VariantView::Ref(value),
            Variant::String(value) => VariantView::String(value@),
        }
    }
}

impl Variant {
    /// The kind of this value.
    pub fn ty(&self) -> (kind: VariantType)
        ensures
            kind == self@.ty(),
    {
        match self {
            Variant::BinaryString(_) => VariantType::BinaryString,
            Variant::Bool(_) => VariantType::Bool,
            Variant::CFrame(_) => VariantType::CFrame,
            Variant::Enum(_) => VariantType::Enum,
            Variant::Int32(_) => VariantType::Int32,
            Variant::Int64(_) => VariantType::Int64,
            Variant::Ref(_) => VariantType::Ref,
            Variant::String(_) => VariantType::String,
        }
    }
}

/// Whether values of `kind` have a codec.
pub open spec fn registered(kind: VariantType) -> bool {
    kind is BinaryString || kind is Bool || kind is CFrame || kind is String
}

/// The name by which a document tags a value of `kind`.
pub open spec fn tag_of(kind: VariantType) -> Seq<char>
    recommends
        registered(kind),
{
    match kind {
        VariantType::BinaryString => <BinaryString as XmlType>::xml_tag(),
        VariantType::Bool => <bool as XmlType>::xml_tag(),
        VariantType::CFrame => <CFrame as XmlType>::xml_tag(),
        _ => <String as XmlType>::xml_tag(),
    }
}

/// The kind of value that a document tags with `tag`, if there is one.
pub open spec fn kind_of_tag(tag: Seq<char>) -> Option<VariantType> {
    if tag == <BinaryString as XmlType>::xml_tag() {
        Some(VariantType::BinaryString)
    } else if tag == <bool as XmlType>::xml_tag() {
        Some(VariantType::Bool)
    } else if tag == <CFrame as XmlType>::xml_tag() {
        Some(VariantType::CFrame)
    } else if tag == <String as XmlType>::xml_tag() {
        Some(VariantType::String)
    } else {
        None
    }
}

/// The events that stand for `value` inside its element.
pub open spec fn content_of(value: VariantView) -> Seq<WrittenEvent>
    recommends
        registered(value.ty()),
{
    match value {
        VariantView::BinaryString(value) => <BinaryString as XmlType>::xml_content(value),
        VariantView::Bool(value) => <bool as XmlType>::xml_content(value),
        VariantView::CFrame(value) => <CFrame as XmlType>::xml_content(value),
        VariantView::String(value) => <String as XmlType>::xml_content(value),
        _ => Seq::empty(),
    }
}

/// The events of the property called `name` that holds `value`.
pub open spec fn value_events(name: Seq<char>, value: VariantView) -> Seq<WrittenEvent>
    recommends
        registered(value.ty()),
{
    property(name, tag_of(value.ty()), content_of(value))
}

/// The error for the tag `tag`, which no kind of value goes by.
pub open spec fn unknown_tag(stream: Stream, tag: Seq<char>) -> DecodeErrorView {
    DecodeErrorView {
        kind: DecodeErrorKindView::UnknownPropertyType(tag),
        position: stream.position(),
    }
}

/// What reading a value tagged `tag` makes of `stream`, which stands behind
/// the start of the value's element.
pub open spec fn value_outcome(stream: Stream, tag: Seq<char>) -> Result<
    VariantView,
    DecodeErrorView,
> {
    match kind_of_tag(tag) {
        Some(VariantType::BinaryString) => match read_outcome::<BinaryString>(stream) {
            Ok(value) => Ok(VariantView::BinaryString(value)),
            Err(error) => Err(error),
        },
        Some(VariantType::Bool) => match read_outcome::<bool>(stream) {
            Ok(value) => Ok(VariantView::Bool(value)),
            Err(error) => Err(error),
        },
        Some(VariantType::CFrame) => match read_outcome::<CFrame>(stream) {
            Ok(value) => Ok(VariantView::CFrame(value)),
            Err(error) => Err(error),
        },
        Some(_) => match read_outcome::<String>(stream) {
            Ok(value) => Ok(VariantView::String(value)),
            Err(error) => Err(error),
        },
        None => Err(unknown_tag(stream, tag)),
    }
}

/// The stream that reading a value tagged `tag` leaves behind. A tag that no
/// kind of value goes by leaves the stream as it is.
pub open spec fn value_rest(stream: Stream, tag: Seq<char>) -> Stream {
    match kind_of_tag(tag) {
        Some(VariantType::BinaryString) => read_rest::<BinaryString>(stream),
        Some(VariantType::Bool) => read_rest::<bool>(stream),
        Some(VariantType::CFrame) => read_rest::<CFrame>(stream),
        Some(_) => read_rest::<String>(stream),
        None => stream,
    }
}

/// Reads the value of a property from a stream that stands behind the start
/// of the value's element, whose name is `xml_type_name`. The name decides the
/// kind of the value; a name that no kind goes by is an error, and nothing is
/// read then. `state` is the caller's to keep across a document: it is handed
/// through and left as it is.
pub fn read_value_xml<S>(
    reader: &mut XmlEventReader,
    state: &mut S,
    xml_type_name: &str,
    instance_id: Ref,
    property_name: &str,
) -> (result: Result<Variant, DecodeError>)
    ensures
        *final(state) == *old(state),
        final(reader)@ == value_rest(old(reader)@, xml_type_name@),
        match result {
            Ok(value) => value_outcome(old(reader)@, xml_type_name@) == Ok::<
                VariantView,
                DecodeErrorView,
            >(value@),
            Err(error) => value_outcome(old(reader)@, xml_type_name@) == Err::<
                VariantView,
                DecodeErrorView,
            >(error@),
        },
{
    if *xml_type_name == *<BinaryString as XmlType>::xml_tag_name() {
        match read_xml::<BinaryString>(reader) {
            Ok(value) => Ok(Variant::BinaryString(value)),
            Err(error) => Err(error),
        }
    } else if *xml_type_name == *<bool as XmlType>::xml_tag_name() {
        match read_xml::<bool>(reader) {
            Ok(value) => Ok(Variant::Bool(value)),
            Err(error) => Err(error),
        }
    } else if *xml_type_name == *<CFrame as XmlType>::xml_tag_name() {
        match read_xml::<CFrame>(reader) {
            Ok(value) => Ok(Variant::CFrame(value)),
            Err(error) => Err(error),
        }
    } else if *xml_type_name == *<String as XmlType>::xml_tag_name() {
        match read_xml::<String>(reader) {
            Ok(value) => Ok(Variant::String(value)),
            Err(error) => Err(error),
        }
    } else {
        Err(reader.error(DecodeErrorKind::UnknownPropertyType(xml_type_name.to_owned())))
    }
}

/// Writes `value` as the property called `xml_property_name`. A value of a
/// kind without a codec is an error, and nothing is written then. `state` is
/// the caller's to keep across a document: it is handed through and left as it
/// is.
pub fn write_value_xml<S>(
    writer: &mut XmlEventWriter,
    state: &mut S,
    xml_property_name: &str,
    value: &Variant,
) -> (result: Result<(), EncodeError>)
    requires
        old(writer).wf(),
    ensures
        final(writer).wf(),
        final(writer).preamble() == old(writer).preamble(),
        *final(state) == *old(state),
        result is Ok <==> registered(value@.ty()),
        result is Ok ==> final(writer).events() == old(writer).events() + value_events(
            xml_property_name@,
            value@,
        ),
        result matches Err(error) ==> error == EncodeError::UnsupportedPropertyType(value@.ty())
            && final(writer).events() == old(writer).events(),
{
    match value {
        Variant::BinaryString(value) => write_xml(value, writer, xml_property_name),
        Variant::Bool(value) => write_xml(value, writer, xml_property_name),
        Variant::CFrame(value) => write_xml(value, writer, xml_property_name),
        Variant::String(value) => write_xml(value, writer, xml_property_name),
        Variant::Enum(_) => Err(EncodeError::UnsupportedPropertyType(VariantType::Enum)),
        Variant::Int32(_) => Err(EncodeError::UnsupportedPropertyType(VariantType::Int32)),
        Variant::Int64(_) => Err(EncodeError::UnsupportedPropertyType(VariantType::Int64)),
        Variant::Ref(_) => Err(EncodeError::UnsupportedPropertyType(VariantType::Ref)),
    }
}

} // verus!
