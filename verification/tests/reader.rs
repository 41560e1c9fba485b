use rbx_xml::deserializer_core::{Position, XmlEventReader, XmlReadEvent, XmlReadItem};
use rbx_xml::error::DecodeErrorKind;

fn at(row: u64, column: u64) -> Position {
    Position { row, column }
}

fn start(name: &str, column: u64) -> XmlReadItem {
    XmlReadItem { event: XmlReadEvent::StartElement { name: name.to_owned() }, position: at(0, column) }
}

fn end(name: &str, column: u64) -> XmlReadItem {
    XmlReadItem { event: XmlReadEvent::EndElement { name: name.to_owned() }, position: at(0, column) }
}

fn characters(text: &str, column: u64) -> XmlReadItem {
    XmlReadItem { event: XmlReadEvent::Characters(text.to_owned()), position: at(0, column) }
}

fn cdata(text: &str, column: u64) -> XmlReadItem {
    XmlReadItem { event: XmlReadEvent::CData(text.to_owned()), position: at(0, column) }
}

fn parse_failure() -> xml::reader::Error {
    let mut parser = xml::reader::EventReader::new("<a></b>".as_bytes());
    loop {
        match parser.next() {
            Ok(xml::reader::XmlEvent::EndDocument) => panic!("the text should not parse"),
            Ok(_) => {}
            Err(error) => return error,
        }
    }
}

#[test]
fn events_come_out_in_the_order_they_went_in() {
    let mut reader = XmlEventReader::from_events(
        vec![start("a", 0), characters("x", 3), end("a", 4)],
        at(0, 8),
    );
    assert!(matches!(reader.next(), Some(XmlReadEvent::StartElement { name }) if name == "a"));
    assert!(matches!(reader.next(), Some(XmlReadEvent::Characters(text)) if text == "x"));
    assert!(matches!(reader.next(), Some(XmlReadEvent::EndElement { name }) if name == "a"));
    assert!(reader.next().is_none());
    assert!(reader.next().is_none());
}

#[test]
fn events_that_say_nothing_about_values_are_left_out() {
    let layout = |event: XmlReadEvent, column: u64| XmlReadItem { event, position: at(0, column) };
    let mut reader = XmlEventReader::from_events(
        vec![
            layout(XmlReadEvent::StartDocument, 0),
            layout(XmlReadEvent::Comment, 0),
            start("a", 9),
            layout(XmlReadEvent::Whitespace, 12),
            layout(XmlReadEvent::ProcessingInstruction, 13),
            characters("x", 20),
            layout(XmlReadEvent::Whitespace, 21),
            end("a", 22),
            layout(XmlReadEvent::Whitespace, 26),
            layout(XmlReadEvent::EndDocument, 27),
        ],
        at(0, 27),
    );
    assert_eq!(reader.position(), at(0, 9));
    assert!(matches!(reader.next(), Some(XmlReadEvent::StartElement { name }) if name == "a"));
    assert_eq!(reader.position(), at(0, 20));
    assert!(matches!(reader.next(), Some(XmlReadEvent::Characters(text)) if text == "x"));
    assert!(matches!(reader.next(), Some(XmlReadEvent::EndElement { name }) if name == "a"));
    assert_eq!(reader.position(), at(0, 27));
    assert!(reader.next().is_none());
}

#[test]
fn stream_of_layout_alone_is_empty() {
    let reader = XmlEventReader::from_events(
        vec![
            XmlReadItem { event: XmlReadEvent::StartDocument, position: at(0, 0) },
            XmlReadItem { event: XmlReadEvent::EndDocument, position: at(0, 0) },
        ],
        at(0, 0),
    );
    assert!(reader.peek().is_none());
}

#[test]
fn peek_leaves_the_event_in_the_stream() {
    let mut reader = XmlEventReader::from_events(vec![start("a", 0), end("a", 3)], at(0, 7));
    assert!(matches!(reader.peek(), Some(XmlReadEvent::StartElement { name }) if name == "a"));
    assert!(matches!(reader.peek(), Some(XmlReadEvent::StartElement { name }) if name == "a"));
    assert!(reader.next().is_some());
    assert!(matches!(reader.peek(), Some(XmlReadEvent::EndElement { name }) if name == "a"));
    assert!(reader.next().is_some());
    assert!(reader.peek().is_none());
}

#[test]
fn position_is_that_of_the_next_event_or_the_end() {
    let mut reader = XmlEventReader::from_events(vec![start("a", 2), end("a", 5)], at(1, 9));
    assert_eq!(reader.position(), at(0, 2));
    reader.next();
    assert_eq!(reader.position(), at(0, 5));
    reader.next();
    assert_eq!(reader.position(), at(1, 9));
}

#[test]
fn empty_stream_stands_at_its_end() {
    let reader = XmlEventReader::from_events(Vec::new(), at(3, 4));
    assert_eq!(reader.position(), at(3, 4));
    assert!(reader.peek().is_none());
}

#[test]
fn error_carries_the_kind_and_the_position() {
    let reader = XmlEventReader::from_events(vec![start("a", 6)], at(0, 9));
    let error = reader.error(DecodeErrorKind::InvalidContent("expected a number"));
    assert!(matches!(error.kind, DecodeErrorKind::InvalidContent("expected a number")));
    assert_eq!(error.position, at(0, 6));
}

#[test]
fn expect_start_with_name_takes_the_start() {
    let mut reader = XmlEventReader::from_events(vec![start("a", 0), end("a", 3)], at(0, 7));
    reader.expect_start_with_name("a").unwrap();
    assert!(matches!(reader.peek(), Some(XmlReadEvent::EndElement { .. })));
}

#[test]
fn expect_start_with_name_refuses_another_name() {
    let mut reader = XmlEventReader::from_events(vec![start("a", 1), end("a", 3)], at(0, 7));
    let error = reader.expect_start_with_name("b").unwrap_err();
    assert!(matches!(
        error.kind,
        DecodeErrorKind::UnexpectedXmlEvent(XmlReadEvent::StartElement { name }) if name == "a"
    ));
    assert_eq!(error.position, at(0, 1));
    assert!(matches!(reader.peek(), Some(XmlReadEvent::EndElement { .. })));
}

#[test]
fn expect_start_with_name_refuses_another_event() {
    let mut reader = XmlEventReader::from_events(vec![characters("x", 4)], at(0, 7));
    let error = reader.expect_start_with_name("a").unwrap_err();
    assert!(matches!(
        error.kind,
        DecodeErrorKind::UnexpectedXmlEvent(XmlReadEvent::Characters(text)) if text == "x"
    ));
    assert_eq!(error.position, at(0, 4));
}

#[test]
fn expect_start_with_name_at_the_end_is_an_unexpected_end() {
    let mut reader = XmlEventReader::from_events(Vec::new(), at(2, 7));
    let error = reader.expect_start_with_name("a").unwrap_err();
    assert!(matches!(error.kind, DecodeErrorKind::UnexpectedEof));
    assert_eq!(error.position, at(2, 7));
}

#[test]
fn expect_end_with_name_takes_the_end() {
    let mut reader = XmlEventReader::from_events(vec![end("a", 0)], at(0, 4));
    reader.expect_end_with_name("a").unwrap();
    assert!(reader.peek().is_none());
}

#[test]
fn expect_end_with_name_refuses_another_name_and_a_start() {
    let mut reader = XmlEventReader::from_events(vec![end("a", 0), start("b", 4)], at(0, 9));
    let error = reader.expect_end_with_name("b").unwrap_err();
    assert!(matches!(
        error.kind,
        DecodeErrorKind::UnexpectedXmlEvent(XmlReadEvent::EndElement { name }) if name == "a"
    ));
    let error = reader.expect_end_with_name("b").unwrap_err();
    assert!(matches!(
        error.kind,
        DecodeErrorKind::UnexpectedXmlEvent(XmlReadEvent::StartElement { name }) if name == "b"
    ));
    assert_eq!(error.position, at(0, 4));
}

#[test]
fn expect_start_gives_the_name() {
    let mut reader = XmlEventReader::from_events(vec![start("bool", 0)], at(0, 6));
    assert_eq!(reader.expect_start().unwrap(), "bool");
    assert!(reader.peek().is_none());
}

#[test]
fn expect_start_refuses_text_and_the_end() {
    let mut reader = XmlEventReader::from_events(vec![cdata("x", 2)], at(0, 6));
    let error = reader.expect_start().unwrap_err();
    assert!(matches!(
        error.kind,
        DecodeErrorKind::UnexpectedXmlEvent(XmlReadEvent::CData(text)) if text == "x"
    ));
    let error = reader.expect_start().unwrap_err();
    assert!(matches!(error.kind, DecodeErrorKind::UnexpectedEof));
    assert_eq!(error.position, at(0, 6));
}

#[test]
fn parser_failure_comes_back_as_it_was() {
    let failure = parse_failure();
    let mut reader = XmlEventReader::from_events(
        vec![XmlReadItem { event: XmlReadEvent::Failure(failure.clone()), position: at(0, 3) }],
        at(0, 3),
    );
    let error = reader.expect_start_with_name("a").unwrap_err();
    assert!(matches!(error.kind, DecodeErrorKind::Xml(inner) if inner == failure));
    assert_eq!(error.position, at(0, 3));
}

#[test]
fn read_characters_joins_a_run_of_text() {
    let mut reader = XmlEventReader::from_events(
        vec![characters("ab", 0), cdata(" c ", 2), characters("d", 17), end("a", 18)],
        at(0, 22),
    );
    assert_eq!(reader.read_characters(), "ab c d");
    assert!(matches!(reader.peek(), Some(XmlReadEvent::EndElement { .. })));
}

#[test]
fn read_characters_takes_nothing_where_no_text_stands() {
    let mut reader = XmlEventReader::from_events(vec![end("a", 0)], at(0, 4));
    assert_eq!(reader.read_characters(), "");
    assert!(matches!(reader.peek(), Some(XmlReadEvent::EndElement { .. })));
    let mut reader = XmlEventReader::from_events(Vec::new(), at(0, 0));
    assert_eq!(reader.read_characters(), "");
}

#[test]
fn read_tag_contents_gives_the_text_of_the_element() {
    let mut reader = XmlEventReader::from_events(
        vec![start("X", 0), characters("1.5", 3), end("X", 6), start("Y", 10)],
        at(0, 13),
    );
    assert_eq!(reader.read_tag_contents("X").unwrap(), "1.5");
    assert!(matches!(reader.peek(), Some(XmlReadEvent::StartElement { name }) if name == "Y"));
}

#[test]
fn read_tag_contents_of_an_empty_element_is_empty() {
    let mut reader = XmlEventReader::from_events(vec![start("X", 0), end("X", 3)], at(0, 7));
    assert_eq!(reader.read_tag_contents("X").unwrap(), "");
    assert!(reader.peek().is_none());
}

#[test]
fn read_tag_contents_refuses_a_wrong_start() {
    let mut reader = XmlEventReader::from_events(
        vec![start("Y", 0), characters("1", 3), end("Y", 4)],
        at(0, 8),
    );
    let error = reader.read_tag_contents("X").unwrap_err();
    assert!(matches!(
        error.kind,
        DecodeErrorKind::UnexpectedXmlEvent(XmlReadEvent::StartElement { name }) if name == "Y"
    ));
    assert_eq!(error.position, at(0, 0));
    assert!(matches!(reader.peek(), Some(XmlReadEvent::Characters(_))));
}

#[test]
fn read_tag_contents_refuses_a_child_element() {
    let mut reader = XmlEventReader::from_events(
        vec![start("X", 0), characters("1", 3), start("Z", 4), end("Z", 7), end("X", 11)],
        at(0, 15),
    );
    let error = reader.read_tag_contents("X").unwrap_err();
    assert!(matches!(
        error.kind,
        DecodeErrorKind::UnexpectedXmlEvent(XmlReadEvent::StartElement { name }) if name == "Z"
    ));
    assert_eq!(error.position, at(0, 4));
    assert!(matches!(reader.peek(), Some(XmlReadEvent::EndElement { name }) if name == "Z"));
}

#[test]
fn read_tag_contents_refuses_a_document_that_ends_early() {
    let mut reader =
        XmlEventReader::from_events(vec![start("X", 0), characters("1", 3)], at(0, 4));
    let error = reader.read_tag_contents("X").unwrap_err();
    assert!(matches!(error.kind, DecodeErrorKind::UnexpectedEof));
    assert_eq!(error.position, at(0, 4));
}

#[test]
fn read_tag_array_gives_the_texts_in_order() {
    let mut reader = XmlEventReader::from_events(
        vec![
            start("X", 0),
            characters("1", 3),
            end("X", 4),
            start("Y", 8),
            end("Y", 11),
            start("Z", 15),
            cdata(" 3 ", 18),
            end("Z", 33),
            end("P", 37),
        ],
        at(0, 41),
    );
    assert_eq!(reader.read_tag_array(&["X", "Y", "Z"]).unwrap(), vec!["1", "", " 3 "]);
    assert!(matches!(reader.peek(), Some(XmlReadEvent::EndElement { name }) if name == "P"));
}

#[test]
fn read_tag_array_of_no_tags_reads_nothing() {
    let mut reader = XmlEventReader::from_events(vec![start("X", 0)], at(0, 3));
    assert_eq!(reader.read_tag_array(&[]).unwrap(), Vec::<String>::new());
    assert!(reader.peek().is_some());
}

#[test]
fn read_tag_array_stops_at_the_first_element_that_does_not_fit() {
    let mut reader = XmlEventReader::from_events(
        vec![
            start("X", 0),
            characters("1", 3),
            end("X", 4),
            start("Z", 8),
            characters("3", 11),
            end("Z", 12),
        ],
        at(0, 16),
    );
    let error = reader.read_tag_array(&["X", "Y", "Z"]).unwrap_err();
    assert!(matches!(
        error.kind,
        DecodeErrorKind::UnexpectedXmlEvent(XmlReadEvent::StartElement { name }) if name == "Z"
    ));
    assert_eq!(error.position, at(0, 8));
    assert!(matches!(reader.peek(), Some(XmlReadEvent::Characters(text)) if text == "3"));
}
