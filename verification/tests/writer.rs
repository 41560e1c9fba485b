use rbx_xml::error::EncodeError;
use rbx_xml::event::XmlWriteEvent;
use rbx_xml::serializer_core::XmlEventWriter;

fn text_of(writer: XmlEventWriter) -> String {
    String::from_utf8(writer.into_output()).unwrap()
}

#[test]
fn plain_string_is_written_as_characters() {
    let mut writer = XmlEventWriter::from_output(Vec::new());
    writer.write_string("abc").unwrap();
    assert_eq!(text_of(writer), "abc");
}

#[test]
fn empty_string_is_written_as_characters() {
    let mut writer = XmlEventWriter::from_output(Vec::new());
    writer.write(XmlWriteEvent::start_element("a")).unwrap();
    writer.write_string("").unwrap();
    writer.write(XmlWriteEvent::end_element()).unwrap();
    assert_eq!(text_of(writer), "<a></a>");
}

#[test]
fn interior_whitespace_does_not_call_for_cdata() {
    let mut writer = XmlEventWriter::from_output(Vec::new());
    writer.write_string("a \n\t b").unwrap();
    assert_eq!(text_of(writer), "a \n\t b");
}

#[test]
fn string_with_outer_whitespace_is_written_as_cdata() {
    let mut writer = XmlEventWriter::from_output(Vec::new());
    writer.write_string(" a ").unwrap();
    assert_eq!(text_of(writer), "<![CDATA[ a ]]>");
}

#[test]
fn leading_whitespace_alone_calls_for_cdata() {
    let mut writer = XmlEventWriter::from_output(Vec::new());
    writer.write_string("\na").unwrap();
    assert_eq!(text_of(writer), "<![CDATA[\na]]>");
}

#[test]
fn trailing_whitespace_alone_calls_for_cdata() {
    let mut writer = XmlEventWriter::from_output(Vec::new());
    writer.write_string("a\t").unwrap();
    assert_eq!(text_of(writer), "<![CDATA[a\t]]>");
}

#[test]
fn single_space_is_written_as_cdata() {
    let mut writer = XmlEventWriter::from_output(Vec::new());
    writer.write_string(" ").unwrap();
    assert_eq!(text_of(writer), "<![CDATA[ ]]>");
}

#[test]
fn unicode_whitespace_at_an_end_calls_for_cdata() {
    let mut writer = XmlEventWriter::from_output(Vec::new());
    writer.write_string("a\u{2003}").unwrap();
    assert_eq!(text_of(writer), "<![CDATA[a\u{2003}]]>");
}

#[test]
fn plain_text_is_escaped() {
    let mut writer = XmlEventWriter::from_output(Vec::new());
    writer.write_string("a<b>&c").unwrap();
    assert_eq!(text_of(writer), "a&lt;b&gt;&amp;c");
}

#[test]
fn cdata_text_is_not_escaped() {
    let mut writer = XmlEventWriter::from_output(Vec::new());
    writer.write_string(" a<b>&c").unwrap();
    assert_eq!(text_of(writer), "<![CDATA[ a<b>&c]]>");
}

#[test]
fn output_keeps_what_it_held_before() {
    let mut writer = XmlEventWriter::from_output(b"<!-- head -->".to_vec());
    writer.write_string("abc").unwrap();
    assert_eq!(text_of(writer), "<!-- head -->abc");
}

#[test]
fn fresh_writer_has_written_nothing() {
    let writer = XmlEventWriter::from_output(Vec::new());
    assert_eq!(writer.into_output(), Vec::<u8>::new());
}

#[test]
fn no_document_declaration_is_written() {
    let mut writer = XmlEventWriter::from_output(Vec::new());
    writer.write(XmlWriteEvent::start_element("a")).unwrap();
    writer.write(XmlWriteEvent::end_element()).unwrap();
    assert_eq!(text_of(writer), "<a>\n</a>");
}

#[test]
fn nested_elements_are_indented() {
    let mut writer = XmlEventWriter::from_output(Vec::new());
    writer.write(XmlWriteEvent::start_element("a")).unwrap();
    writer.write(XmlWriteEvent::start_element("b")).unwrap();
    writer.write(XmlWriteEvent::characters("x")).unwrap();
    writer.write(XmlWriteEvent::end_element()).unwrap();
    writer.write(XmlWriteEvent::end_element()).unwrap();
    assert_eq!(text_of(writer), "<a>\n  <b>x</b>\n</a>");
}

#[test]
fn raw_cdata_event_is_written_as_cdata() {
    let mut writer = XmlEventWriter::from_output(Vec::new());
    writer.write(XmlWriteEvent::cdata("abc")).unwrap();
    assert_eq!(text_of(writer), "<![CDATA[abc]]>");
}

#[test]
fn end_without_start_is_refused() {
    let mut writer = XmlEventWriter::from_output(Vec::new());
    let result = writer.write(XmlWriteEvent::end_element());
    assert!(matches!(
        result,
        Err(EncodeError::XmlError(xml::writer::Error::LastElementNameNotAvailable))
    ));
    assert_eq!(writer.into_output(), Vec::<u8>::new());
}

#[test]
fn writer_goes_on_after_a_refused_event() {
    let mut writer = XmlEventWriter::from_output(Vec::new());
    writer.write(XmlWriteEvent::start_element("a")).unwrap();
    writer.write_string("x").unwrap();
    writer.write(XmlWriteEvent::end_element()).unwrap();
    assert!(writer.write(XmlWriteEvent::end_element()).is_err());
    writer.write_tag_characters("b", "y").unwrap();
    assert_eq!(text_of(writer), "<a>x</a>\n<b>y</b>");
}

#[test]
fn write_characters_formats_scalars() {
    let mut writer = XmlEventWriter::from_output(Vec::new());
    writer.write_characters(true).unwrap();
    writer.write_characters(false).unwrap();
    writer.write_characters(42u32).unwrap();
    writer.write_characters(-7i32).unwrap();
    writer.write_characters("abc").unwrap();
    writer.write_characters(String::from("def")).unwrap();
    assert_eq!(text_of(writer), "truefalse42-7abcdef");
}

#[test]
fn write_characters_leaves_nothing_behind_for_the_next_call() {
    let mut writer = XmlEventWriter::from_output(Vec::new());
    let values: [u64; 5] = [1234567890, 0, 99, 5, 18446744073709551615];
    for value in values.iter() {
        writer.write(XmlWriteEvent::start_element("n")).unwrap();
        writer.write_characters(*value).unwrap();
        writer.write(XmlWriteEvent::end_element()).unwrap();
    }
    assert_eq!(
        text_of(writer),
        "<n>1234567890</n>\n<n>0</n>\n<n>99</n>\n<n>5</n>\n<n>18446744073709551615</n>"
    );
}

#[test]
fn write_characters_after_a_refused_event_starts_from_an_empty_buffer() {
    let mut writer = XmlEventWriter::from_output(Vec::new());
    writer.write_characters(123456u64).unwrap();
    assert!(writer.write(XmlWriteEvent::end_element()).is_err());
    writer.write_characters(7u64).unwrap();
    assert_eq!(text_of(writer), "1234567");
}

#[test]
fn write_characters_picks_cdata_by_the_formatted_text() {
    let mut writer = XmlEventWriter::from_output(Vec::new());
    writer.write_characters(" x").unwrap();
    assert_eq!(text_of(writer), "<![CDATA[ x]]>");
}

#[test]
fn write_tag_characters_wraps_the_text() {
    let mut writer = XmlEventWriter::from_output(Vec::new());
    writer.write_tag_characters("X", 15i64).unwrap();
    assert_eq!(text_of(writer), "<X>15</X>");
}

#[test]
fn write_tag_array_pairs_values_and_tags() {
    let mut writer = XmlEventWriter::from_output(Vec::new());
    writer.write_tag_array(&[1i32, -2, 3], &["X", "Y", "Z"]).unwrap();
    assert_eq!(text_of(writer), "<X>1</X>\n<Y>-2</Y>\n<Z>3</Z>");
}

#[test]
fn write_tag_array_of_nothing_writes_nothing() {
    let mut writer = XmlEventWriter::from_output(Vec::new());
    let values: [u32; 0] = [];
    writer.write_tag_array(&values, &[]).unwrap();
    assert_eq!(text_of(writer), "");
}

#[test]
fn write_tag_array_refuses_more_values_than_tags() {
    let mut writer = XmlEventWriter::from_output(Vec::new());
    let result = writer.write_tag_array(&[1u32, 2, 3], &["X", "Y"]);
    assert!(matches!(result, Err(EncodeError::Message(_))));
    assert_eq!(text_of(writer), "");
}

#[test]
fn write_tag_array_refuses_more_tags_than_values() {
    let mut writer = XmlEventWriter::from_output(Vec::new());
    let result = writer.write_tag_array(&[1u32], &["X", "Y"]);
    assert!(matches!(result, Err(EncodeError::Message(_))));
    assert_eq!(text_of(writer), "");
}

#[test]
fn io_error_is_taken_out_of_the_writer_error() {
    let inner = std::io::Error::new(std::io::ErrorKind::Other, "disk full");
    let error = EncodeError::from(xml::writer::Error::Io(inner));
    match error {
        EncodeError::IoError(inner) => assert_eq!(inner.to_string(), "disk full"),
        other => panic!("expected an I/O error, got {:?}", other),
    }
}

#[test]
fn other_writer_errors_are_kept() {
    let error = EncodeError::from(xml::writer::Error::DocumentStartAlreadyEmitted);
    assert!(matches!(
        error,
        EncodeError::XmlError(xml::writer::Error::DocumentStartAlreadyEmitted)
    ));
    let error = EncodeError::from(xml::writer::Error::EndElementNameIsNotSpecified);
    assert!(matches!(
        error,
        EncodeError::XmlError(xml::writer::Error::EndElementNameIsNotSpecified)
    ));
}

#[test]
fn event_builders_make_the_events_they_name() {
    assert!(matches!(
        XmlWriteEvent::start_element("a"),
        XmlWriteEvent::StartElement { name: "a" }
    ));
    assert!(matches!(XmlWriteEvent::end_element(), XmlWriteEvent::EndElement));
    assert!(matches!(XmlWriteEvent::characters("t"), XmlWriteEvent::Characters("t")));
    assert!(matches!(XmlWriteEvent::cdata("t"), XmlWriteEvent::CData("t")));
}

#[test]
fn writer_takes_any_name_and_any_text() {
    let names = ["a", "A.b-c_d", "ns:name", "a b", "", "1", "<", "é"];
    let texts = ["", "x", "]]>", "<![CDATA[", "&amp;", "\u{0}", "a\r\nb", "\u{10FFFF}"];
    for name in names.iter() {
        for text in texts.iter() {
            let mut writer = XmlEventWriter::from_output(Vec::new());
            writer.write(XmlWriteEvent::start_element(name)).unwrap();
            writer.write(XmlWriteEvent::characters(text)).unwrap();
            writer.write(XmlWriteEvent::cdata(text)).unwrap();
            writer.write_string(text).unwrap();
            writer.write_tag_characters(name, *text).unwrap();
            writer.write(XmlWriteEvent::end_element()).unwrap();
            assert!(writer.write(XmlWriteEvent::end_element()).is_err());
        }
    }
}

#[test]
fn end_is_taken_as_often_as_elements_are_open() {
    for depth in 0..6usize {
        let mut writer = XmlEventWriter::from_output(Vec::new());
        for _ in 0..depth {
            writer.write(XmlWriteEvent::start_element("e")).unwrap();
        }
        writer.write_string("t").unwrap();
        for _ in 0..depth {
            writer.write(XmlWriteEvent::end_element()).unwrap();
        }
        assert!(matches!(
            writer.write(XmlWriteEvent::end_element()),
            Err(EncodeError::XmlError(xml::writer::Error::LastElementNameNotAvailable))
        ));
    }
}

#[test]
fn same_events_same_bytes() {
    let write_all = |preamble: &[u8]| {
        let mut writer = XmlEventWriter::from_output(preamble.to_vec());
        writer.write(XmlWriteEvent::start_element("a")).unwrap();
        assert!(XmlEventWriter::from_output(Vec::new())
            .write(XmlWriteEvent::end_element())
            .is_err());
        writer.write_tag_array(&["1", " 2", "3 "], &["X", "Y", "Z"]).unwrap();
        writer.write(XmlWriteEvent::end_element()).unwrap();
        writer.into_output()
    };
    let plain = write_all(b"");
    assert_eq!(write_all(b""), plain);
    let mut after_preamble = b"<?xml?>".to_vec();
    after_preamble.extend_from_slice(&plain);
    assert_eq!(write_all(b"<?xml?>"), after_preamble);
    assert_eq!(
        String::from_utf8(plain).unwrap(),
        "<a>\n  <X>1</X>\n  <Y><![CDATA[ 2]]></Y>\n  <Z><![CDATA[3 ]]></Z>\n</a>"
    );
}

#[test]
fn refused_end_leaves_the_bytes_as_they_were() {
    let mut first = XmlEventWriter::from_output(Vec::new());
    let mut second = XmlEventWriter::from_output(Vec::new());
    first.write_tag_characters("a", 1u32).unwrap();
    second.write_tag_characters("a", 1u32).unwrap();
    assert!(second.write(XmlWriteEvent::end_element()).is_err());
    first.write_tag_characters("b", 2u32).unwrap();
    second.write_tag_characters("b", 2u32).unwrap();
    assert_eq!(first.into_output(), second.into_output());
}
