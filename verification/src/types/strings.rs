//! Strings, written as their own text.

use vstd::prelude::*;
use crate::codec::XmlType;
use crate::deserializer_core::{Stream, XmlEventReader};
use crate::error::{DecodeError, DecodeErrorView, EncodeError};
use crate::event::{lemma_open_elements_push, WrittenEvent};
use crate::serializer_core::{text_event, XmlEventWriter};

verus! {

impl XmlType for String {
    open spec fn xml_tag() -> Seq<char> {
        seq!['s', 't', 'r', 'i', 'n', 'g']
    }

    open spec fn xml_content(value: Seq<char>) -> Seq<WrittenEvent> {
        seq![text_event(value)]
    }

    open spec fn parsed(stream: Stream) -> Result<Seq<char>, DecodeErrorView> {
        Ok(stream.leading_text())
    }

    open spec fn parsed_rest(stream: Stream) -> Stream {
        stream.advance(stream.text_run())
    }

    fn xml_tag_name() -> (name: &'static str) {
        proof {
            reveal_strlit("string");
        }
        assert("string"@ =~= Self::xml_tag());
        "string"
    }

    fn write_content(&self, writer: &mut XmlEventWriter) -> (result: Result<(), EncodeError>) {
        proof {
            lemma_open_elements_push(Seq::empty(), text_event(self@));
            assert(Seq::<WrittenEvent>::empty().push(text_event(self@)) =~= Self::xml_content(
                self@,
            ));
        }
        let result = writer.write_string(self.as_str());
        assert(final(writer).events() =~= old(writer).events() + Self::xml_content(self@));
        result
    }

    fn read_content(reader: &mut XmlEventReader) -> (result: Result<String, DecodeError>) {
        Ok(reader.read_characters())
    }
}

} // verus!
