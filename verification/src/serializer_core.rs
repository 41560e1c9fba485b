//! The writer of documents: events go to the XML writer one by one, and text
//! goes out either escaped or inside a CDATA section.

use vstd::prelude::*;
use crate::emitter::{
    carried, configured, emit, fault, into_sink, new_writer, rendered, written, WriterFault,
};
use crate::event::{accepts, lemma_open_elements_push, open_elements, WrittenEvent};
pub use crate::error::EncodeError;
pub use crate::event::XmlWriteEvent;
use crate::format::XmlDisplay;
use crate::whitespace::{has_outer_whitespace, starts_or_ends_with_whitespace};

verus! {

/// The event that carries `text`: a CDATA section where the text starts or
/// ends with whitespace, which escaped character data would not keep, and
/// escaped character data everywhere else.
pub open spec fn text_event(text: Seq<char>) -> WrittenEvent {
    if has_outer_whitespace(text) {
        WrittenEvent::CData(text)
    } else {
        WrittenEvent::Characters(text)
    }
}

/// The events of an element named `tag` that holds `text` and nothing else.
pub open spec fn tagged(tag: Seq<char>, text: Seq<char>) -> Seq<WrittenEvent> {
    seq![WrittenEvent::StartElement { name: tag }, text_event(text), WrittenEvent::EndElement]
}

/// The events of the first `count` texts, each in an element named by the tag
/// at its index, one element after the other.
pub open spec fn tagged_array(texts: Seq<Seq<char>>, tags: Seq<Seq<char>>, count: nat) -> Seq<
    WrittenEvent,
>
    decreases count,
{
    if count == 0 {
        Seq::empty()
    } else {
        tagged_array(texts, tags, (count - 1) as nat) + tagged(tags[count - 1], texts[count - 1])
    }
}

/// The texts of `values`, in their order.
pub open spec fn texts_of<T: XmlDisplay>(values: Seq<T>) -> Seq<Seq<char>> {
    values.map_values(|value: T| value.text())
}

/// The names in `tags`, in their order.
pub open spec fn names_of(tags: Seq<&str>) -> Seq<Seq<char>> {
    tags.map_values(|tag: &str| tag@)
}

/// Whether `error` is the XML writer's refusal of an end of element that has
/// no start.
pub open spec fn refused_end(error: EncodeError) -> bool {
    error matches EncodeError::XmlError(inner) && fault(inner)
        == WriterFault::LastElementNameNotAvailable
}

/// Whether `error` is the message about values and tags that differ in
/// number.
pub open spec fn length_mismatch(error: EncodeError) -> bool {
    error matches EncodeError::Message(text) && text@ == "values and tags differ in length"@
}

/// A run of tagged texts closes every element it opens.
pub proof fn lemma_tagged_array_is_balanced(
    texts: Seq<Seq<char>>,
    tags: Seq<Seq<char>>,
    count: nat,
)
    ensures
        open_elements(tagged_array(texts, tags, count)) == 0,
    decreases count,
{
    if count > 0 {
        let front = tagged_array(texts, tags, (count - 1) as nat);
        let tag = tags[count - 1];
        let text = texts[count - 1];
        let start = WrittenEvent::StartElement { name: tag };
        lemma_tagged_array_is_balanced(texts, tags, (count - 1) as nat);
        lemma_open_elements_push(front, start);
        lemma_open_elements_push(front.push(start), text_event(text));
        lemma_open_elements_push(
            front.push(start).push(text_event(text)),
            WrittenEvent::EndElement,
        );
        assert(front + tagged(tag, text) =~= front.push(start).push(text_event(text)).push(
            WrittenEvent::EndElement,
        ));
    }
}

/// Writes `value` as character data, or as a CDATA section where it starts or
/// ends with whitespace.
fn write_characters_or_cdata(writer: &mut xml::writer::EventWriter<Vec<u8>>, value: &str) -> (result:
    Result<(), xml::writer::Error>)
    requires
        configured(*old(writer)),
    ensures
        configured(*final(writer)),
        carried(*final(writer)) == carried(*old(writer)),
        result is Ok,
        written(*final(writer)) == written(*old(writer)).push(text_event(value@)),
{
    if starts_or_ends_with_whitespace(value) {
        emit(writer, XmlWriteEvent::cdata(value))
    } else {
        emit(writer, XmlWriteEvent::characters(value))
    }
}

/// A writer of XML events into a vector of bytes, with a buffer of its own in
/// which values are turned into text.
pub struct XmlEventWriter {
    inner: xml::writer::EventWriter<Vec<u8>>,
    character_buffer: String,
}

impl XmlEventWriter {
    /// What holds of every writer between two calls: the XML writer has the
    /// settings it was made with, it never closed more elements than it
    /// opened, and the text buffer is empty.
    pub closed spec fn wf(&self) -> bool {
        &&& configured(self.inner)
        &&& open_elements(written(self.inner)) >= 0
        &&& self.character_buffer@.len() == 0
    }

    /// The events written so far, oldest first.
    pub closed spec fn events(&self) -> Seq<WrittenEvent> {
        written(self.inner)
    }

    /// The bytes that the output held before this writer wrote to it.
    pub closed spec fn preamble(&self) -> Seq<u8> {
        carried(self.inner)
    }

    /// The text that stands in the writer's buffer.
    pub closed spec fn buffered(&self) -> Seq<char> {
        self.character_buffer@
    }

    /// Between two calls the buffer of a writer is empty.
    pub proof fn lemma_buffer_is_empty(&self)
        requires
            self.wf(),
        ensures
            self.buffered() == Seq::<char>::empty(),
    {
        assert(self.character_buffer@ =~= Seq::<char>::empty());
    }

    /// A writer never closes more elements than it opened.
    pub proof fn lemma_open_elements_nonnegative(&self)
        requires
            self.wf(),
        ensures
            open_elements(self.events()) >= 0,
    {
    }

    /// Makes a writer that appends to `output`. Elements are indented, no XML
    /// declaration is written, and an empty element gets both of its tags.
    pub fn from_output(output: Vec<u8>) -> (writer: XmlEventWriter)
        ensures
            writer.wf(),
            writer.events() == Seq::<WrittenEvent>::empty(),
            writer.preamble() == output@,
            writer.buffered() == Seq::<char>::empty(),
    {
        let inner = new_writer(output);
        XmlEventWriter { inner, character_buffer: String::new() }
    }

    /// Ends the writing and hands back the output: what it held at the start,
    /// followed by the text of the events written.
    pub fn into_output(self) -> (output: Vec<u8>)
        requires
            self.wf(),
        ensures
            output@ == self.preamble() + rendered(self.events()),
    {
        into_sink(self.inner)
    }

    /// Writes a single event. The end of an element is refused while no
    /// element is open; every other event is written.
    pub fn write(&mut self, event: XmlWriteEvent) -> (result: Result<(), EncodeError>)
        requires
            old(self).wf(),
        ensures
            final(self).wf(),
            final(self).preamble() == old(self).preamble(),
            result is Ok <==> accepts(old(self).events(), event@),
            result is Ok ==> final(self).events() == old(self).events().push(event@),
            result matches Err(error) ==> refused_end(error) && final(self).events() == old(
                self,
            ).events(),
    {
        proof {
            lemma_open_elements_push(written(self.inner), event@);
        }
        match emit(&mut self.inner, event) {
            Ok(()) => Ok(()),
            Err(error) => Err(EncodeError::from(error)),
        }
    }

    /// Writes a string as character data, or as a CDATA section where it
    /// starts or ends with whitespace.
    pub fn write_string(&mut self, value: &str) -> (result: Result<(), EncodeError>)
        requires
            old(self).wf(),
        ensures
            final(self).wf(),
            final(self).preamble() == old(self).preamble(),
            result is Ok,
            final(self).events() == old(self).events().push(text_event(value@)),
    {
        proof {
            lemma_open_elements_push(written(self.inner), text_event(value@));
        }
        match write_characters_or_cdata(&mut self.inner, value) {
            Ok(()) => Ok(()),
            Err(error) => Err(EncodeError::from(error)),
        }
    }

    /// Writes the text of `value` as `write_string` writes a string. The text
    /// is built in the writer's buffer, which is empty again when the call
    /// returns, whether it succeeded or not: nothing of one value is left for
    /// the next.
    pub fn write_characters<T: XmlDisplay>(&mut self, value: T) -> (result: Result<(), EncodeError>)
        requires
            old(self).wf(),
        ensures
            final(self).wf(),
            final(self).preamble() == old(self).preamble(),
            final(self).buffered() == Seq::<char>::empty(),
            result is Ok,
            final(self).events() == old(self).events().push(text_event(value.text())),
    {
        proof {
            lemma_open_elements_push(written(self.inner), text_event(value.text()));
        }
        value.write_text(&mut self.character_buffer);
        assert(self.character_buffer@ =~= value.text());
        let result = write_characters_or_cdata(&mut self.inner, self.character_buffer.as_str());
        self.character_buffer.clear();
        match result {
            Ok(()) => Ok(()),
            Err(error) => Err(EncodeError::from(error)),
        }
    }

    /// Writes an element named `tag` that holds the text of `value`.
    pub fn write_tag_characters<T: XmlDisplay>(&mut self, tag: &str, value: T) -> (result: Result<
        (),
        EncodeError,
    >)
        requires
            old(self).wf(),
        ensures
            final(self).wf(),
            final(self).preamble() == old(self).preamble(),
            result is Ok,
            final(self).events() == old(self).events() + tagged(tag@, value.text()),
    {
        proof {
            lemma_open_elements_push(
                old(self).events(),
                WrittenEvent::StartElement { name: tag@ },
            );
            lemma_open_elements_push(
                old(self).events().push(WrittenEvent::StartElement { name: tag@ }),
                text_event(value.text()),
            );
        }
        self.write(XmlWriteEvent::start_element(tag))?;
        self.write_characters(value)?;
        let result = self.write(XmlWriteEvent::end_element());
        assert(final(self).events() =~= old(self).events() + tagged(tag@, value.text()));
        result
    }

    /// Writes the values one after the other, each in an element named by the
    /// tag at the same index. Where the two slices differ in length nothing is
    /// written and an error comes back.
    pub fn write_tag_array<T: XmlDisplay>(&mut self, values: &[T], tags: &[&str]) -> (result:
        Result<(), EncodeError>)
        requires
            old(self).wf(),
        ensures
            final(self).wf(),
            final(self).preamble() == old(self).preamble(),
            result is Ok <==> values@.len() == tags@.len(),
            result is Ok ==> final(self).events() == old(self).events() + tagged_array(
                texts_of(values@),
                names_of(tags@),
                values@.len(),
            ),
            result matches Err(error) ==> length_mismatch(error) && final(self).events()
                == old(self).events(),
    {
        if values.len() != tags.len() {
            return Err(EncodeError::Message("values and tags differ in length"));
        }
        let mut index: usize = 0;
        while index < values.len()
            invariant
                index <= values@.len(),
                values@.len() == tags@.len(),
                self.wf(),
                self.preamble() == old(self).preamble(),
                self.events() == old(self).events() + tagged_array(
                    texts_of(values@),
                    names_of(tags@),
                    index as nat,
                ),
            decreases values@.len() - index,
        {
            self.write_tag_characters(tags[index], &values[index])?;
            assert(self.events() =~= old(self).events() + tagged_array(
                texts_of(values@),
                names_of(tags@),
                (index + 1) as nat,
            ));
            index = index + 1;
        }
        Ok(())
    }
}

} // verus!
