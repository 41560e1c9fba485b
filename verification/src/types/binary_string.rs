//! Byte strings, written in base64.

use vstd::prelude::*;
use crate::base64::{decode, decoded, encode, encoded};
use crate::codec::XmlType;
use crate::deserializer_core::{Stream, XmlEventReader};
use crate::error::{DecodeError, DecodeErrorKind, DecodeErrorKindView, DecodeErrorView, EncodeError};
use crate::event::{lemma_open_elements_push, WrittenEvent};
use crate::serializer_core::{text_event, XmlEventWriter};
use crate::types::BinaryString;

verus! {

impl XmlType for BinaryString {
    open spec fn xml_tag() -> Seq<char> {
        seq!['B', 'i', 'n', 'a', 'r', 'y', 'S', 't', 'r', 'i', 'n', 'g']
    }

    open spec fn xml_content(value: Seq<u8>) -> Seq<WrittenEvent> {
        seq![text_event(encoded(value))]
    }

    open spec fn parsed(stream: Stream) -> Result<Seq<u8>, DecodeErrorView> {
        match decoded(stream.leading_text()) {
            Some(value) => Ok(value),
            None => Err(
                DecodeErrorView {
                    kind: DecodeErrorKindView::InvalidContent("expected base64"@),
                    position: stream.advance(stream.text_run()).position(),
                },
            ),
        }
    }

    open spec fn parsed_rest(stream: Stream) -> Stream {
        stream.advance(stream.text_run())
    }

    fn xml_tag_name() -> (name: &'static str) {
        proof {
            reveal_strlit("BinaryString");
        }
        assert("BinaryString"@ =~= Self::xml_tag());
        "BinaryString"
    }

    fn write_content(&self, writer: &mut XmlEventWriter) -> (result: Result<(), EncodeError>) {
        proof {
            lemma_open_elements_push(Seq::empty(), text_event(encoded(self@)));
            assert(Seq::<WrittenEvent>::empty().push(text_event(encoded(self@)))
                =~= Self::xml_content(self@));
        }
        let text = encode(self.buffer.as_slice());
        let result = writer.write_string(text.as_str());
        assert(final(writer).events() =~= old(writer).events() + Self::xml_content(self@));
        result
    }

    fn read_content(reader: &mut XmlEventReader) -> (result: Result<BinaryString, DecodeError>) {
        let contents = reader.read_characters();
        match decode(contents.as_str()) {
            Some(buffer) => Ok(BinaryString { buffer }),
            None => Err(reader.error(DecodeErrorKind::InvalidContent("expected base64"))),
        }
    }
}

} // verus!
