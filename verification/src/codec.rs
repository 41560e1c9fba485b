//! What a kind of value needs in order to be written and read: a tag, the
//! events of its content, and the way back from events to the value.

use vstd::prelude::*;
use crate::deserializer_core::{Stream, XmlEventReader};
use crate::error::{DecodeError, DecodeErrorView, EncodeError};
use crate::event::{
    lemma_open_elements_concat, lemma_open_elements_push, open_elements, WrittenEvent,
    XmlWriteEvent,
};
use crate::serializer_core::XmlEventWriter;

verus! {

/// The events of a property called `name` whose value goes by `tag` and has
/// the events `content`: an element for the property, in it an element for
/// the value, and in that the content.
pub open spec fn property(name: Seq<char>, tag: Seq<char>, content: Seq<WrittenEvent>) -> Seq<
    WrittenEvent,
> {
    seq![WrittenEvent::StartElement { name }, WrittenEvent::StartElement { name: tag }] + content
        + seq![WrittenEvent::EndElement, WrittenEvent::EndElement]
}

/// A property is balanced where the content of its value is: it closes the
/// two elements it opens, and leaves open what was open before.
pub proof fn lemma_property_is_balanced(
    name: Seq<char>,
    tag: Seq<char>,
    content: Seq<WrittenEvent>,
)
    requires
        open_elements(content) == 0,
    ensures
        open_elements(property(name, tag, content)) == 0,
{
    let starts = seq![WrittenEvent::StartElement { name }, WrittenEvent::StartElement { name: tag }];
    let ends = seq![WrittenEvent::EndElement, WrittenEvent::EndElement];
    lemma_open_elements_push(Seq::empty(), WrittenEvent::StartElement { name });
    lemma_open_elements_push(
        seq![WrittenEvent::StartElement { name }],
        WrittenEvent::StartElement { name: tag },
    );
    assert(Seq::<WrittenEvent>::empty().push(WrittenEvent::StartElement { name }).push(
        WrittenEvent::StartElement { name: tag },
    ) =~= starts);
    assert(Seq::<WrittenEvent>::empty().push(WrittenEvent::StartElement { name })
        =~= seq![WrittenEvent::StartElement { name }]);
    lemma_open_elements_push(Seq::empty(), WrittenEvent::EndElement);
    lemma_open_elements_push(seq![WrittenEvent::EndElement], WrittenEvent::EndElement);
    assert(Seq::<WrittenEvent>::empty().push(WrittenEvent::EndElement)
        =~= seq![WrittenEvent::EndElement]);
    assert(seq![WrittenEvent::EndElement].push(WrittenEvent::EndElement) =~= ends);
    lemma_open_elements_concat(starts, content);
    lemma_open_elements_concat(starts + content, ends);
}

/// A kind of value with a codec.
pub trait XmlType: Sized + View {
    /// The name by which a document tags a value of this kind.
    spec fn xml_tag() -> Seq<char>;

    /// The events that stand for `value` inside its element.
    spec fn xml_content(value: Self::V) -> Seq<WrittenEvent>;

    /// The value that the front of `stream` stands for, or the reason why it
    /// stands for none.
    spec fn parsed(stream: Stream) -> Result<Self::V, DecodeErrorView>;

    /// The stream that a read of the content leaves behind.
    spec fn parsed_rest(stream: Stream) -> Stream;

    /// The name by which a document tags a value of this kind.
    fn xml_tag_name() -> (name: &'static str)
        ensures
            name@ == Self::xml_tag(),
    ;

    /// Writes the events that stand for the value inside its element. They
    /// close every element they open, and no other.
    fn write_content(&self, writer: &mut XmlEventWriter) -> (result: Result<(), EncodeError>)
        requires
            old(writer).wf(),
        ensures
            final(writer).wf(),
            final(writer).preamble() == old(writer).preamble(),
            result is Ok,
            final(writer).events() == old(writer).events() + Self::xml_content(self@),
            open_elements(Self::xml_content(self@)) == 0,
    ;

    /// Reads the content of an element of this kind from the front of the
    /// stream.
    fn read_content(reader: &mut XmlEventReader) -> (result: Result<Self, DecodeError>)
        ensures
            final(reader)@ == Self::parsed_rest(old(reader)@),
            match result {
                Ok(value) => Self::parsed(old(reader)@) == Ok::<Self::V, DecodeErrorView>(value@),
                Err(error) => Self::parsed(old(reader)@) == Err::<Self::V, DecodeErrorView>(
                    error@,
                ),
            },
    ;
}

/// What reading a value of kind `T` makes of `stream`, which stands behind the
/// start of the value's element: the content has to parse, and the end of the
/// element has to follow it.
pub open spec fn read_outcome<T: XmlType>(stream: Stream) -> Result<T::V, DecodeErrorView> {
    let after = T::parsed_rest(stream);
    match T::parsed(stream) {
        Err(error) => Err(error),
        Ok(value) => if after.ends_with(T::xml_tag()) {
            Ok(value)
        } else {
            Err(after.rejection())
        },
    }
}

/// The stream that reading a value of kind `T` leaves behind: that after the
/// content where the content does not parse, else that after the event behind
/// the content, if there is one.
pub open spec fn read_rest<T: XmlType>(stream: Stream) -> Stream {
    let after = T::parsed_rest(stream);
    if T::parsed(stream) is Err {
        after
    } else {
        after.after_next()
    }
}

/// Writes `value` as the property called `name`.
pub fn write_xml<T: XmlType>(value: &T, writer: &mut XmlEventWriter, name: &str) -> (result: Result<
    (),
    EncodeError,
>)
    requires
        old(writer).wf(),
    ensures
        final(writer).wf(),
        final(writer).preamble() == old(writer).preamble(),
        result is Ok,
        final(writer).events() == old(writer).events() + property(
            name@,
            T::xml_tag(),
            T::xml_content(value@),
        ),
{
    let ghost start = old(writer).events();
    let ghost opened = start.push(WrittenEvent::StartElement { name: name@ }).push(
        WrittenEvent::StartElement { name: T::xml_tag() },
    );
    let ghost filled = opened + T::xml_content(value@);
    proof {
        writer.lemma_open_elements_nonnegative();
        lemma_open_elements_push(start, WrittenEvent::StartElement { name: name@ });
        lemma_open_elements_push(
            start.push(WrittenEvent::StartElement { name: name@ }),
            WrittenEvent::StartElement { name: T::xml_tag() },
        );
    }
    writer.write(XmlWriteEvent::start_element(name))?;
    writer.write(XmlWriteEvent::start_element(T::xml_tag_name()))?;
    value.write_content(writer)?;
    proof {
        lemma_open_elements_concat(opened, T::xml_content(value@));
        lemma_open_elements_push(filled, WrittenEvent::EndElement);
    }
    writer.write(XmlWriteEvent::end_element())?;
    let result = writer.write(XmlWriteEvent::end_element());
    assert(final(writer).events() =~= start + property(
        name@,
        T::xml_tag(),
        T::xml_content(value@),
    ));
    result
}

/// Reads a value of kind `T` from a stream that stands behind the start of
/// the value's element, and takes the end of that element too.
pub fn read_xml<T: XmlType>(reader: &mut XmlEventReader) -> (result: Result<T, DecodeError>)
    ensures
        final(reader)@ == read_rest::<T>(old(reader)@),
        match result {
            Ok(value) => read_outcome::<T>(old(reader)@) == Ok::<T::V, DecodeErrorView>(value@),
            Err(error) => read_outcome::<T>(old(reader)@) == Err::<T::V, DecodeErrorView>(error@),
        },
{
    let value = T::read_content(reader)?;
    reader.expect_end_with_name(T::xml_tag_name())?;
    Ok(value)
}

} // verus!
