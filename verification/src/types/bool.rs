//! Truth values, written as the words `true` and `false`.

use vstd::prelude::*;
use crate::codec::XmlType;
use crate::deserializer_core::{Stream, XmlEventReader};
use crate::error::{DecodeError, DecodeErrorKind, DecodeErrorKindView, DecodeErrorView, EncodeError};
use crate::event::{lemma_open_elements_push, WrittenEvent};
use crate::format::bool_text;
use crate::serializer_core::{text_event, XmlEventWriter};

verus! {

/// The truth value that `text` names, if it names one.
pub open spec fn bool_of_text(text: Seq<char>) -> Option<bool> {
    if text == bool_text(true) {
        Some(true)
    } else if text == bool_text(false) {
        Some(false)
    } else {
        None
    }
}

impl XmlType for bool {
    open spec fn xml_tag() -> Seq<char> {
        seq!['b', 'o', 'o', 'l']
    }

    open spec fn xml_content(value: bool) -> Seq<WrittenEvent> {
        seq![text_event(bool_text(value))]
    }

    open spec fn parsed(stream: Stream) -> Result<bool, DecodeErrorView> {
        match bool_of_text(stream.leading_text()) {
            Some(value) => Ok(value),
            None => Err(
                DecodeErrorView {
                    kind: DecodeErrorKindView::InvalidContent("expected true or false"@),
                    position: stream.advance(stream.text_run()).position(),
                },
            ),
        }
    }

    open spec fn parsed_rest(stream: Stream) -> Stream {
        stream.advance(stream.text_run())
    }

    fn xml_tag_name() -> (name: &'static str) {
        proof {
            reveal_strlit("bool");
        }
        assert("bool"@ =~= Self::xml_tag());
        "bool"
    }

    fn write_content(&self, writer: &mut XmlEventWriter) -> (result: Result<(), EncodeError>) {
        proof {
            lemma_open_elements_push(Seq::empty(), text_event(bool_text(*self)));
            assert(Seq::<WrittenEvent>::empty().push(text_event(bool_text(*self)))
                =~= Self::xml_content(*self));
        }
        let result = writer.write_characters(*self);
        assert(final(writer).events() =~= old(writer).events() + Self::xml_content(*self));
        result
    }

    fn read_content(reader: &mut XmlEventReader) -> (result: Result<bool, DecodeError>) {
        let contents = reader.read_characters();
        proof {
            reveal_strlit("true");
            reveal_strlit("false");
            assert("true"@ =~= bool_text(true));
            assert("false"@ =~= bool_text(false));
        }
        if *contents.as_str() == *"true" {
            Ok(true)
        } else if *contents.as_str() == *"false" {
            Ok(false)
        } else {
            Err(reader.error(DecodeErrorKind::InvalidContent("expected true or false")))
        }
    }
}

} // verus!
