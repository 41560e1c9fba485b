//! What holds of writing and reading taken together.
//!
//! Writing hands events to an XML writer, and reading takes the events that an
//! XML parser found and that say something about values. `echo` says which
//! those are for the events that were written, and the laws below are stated
//! over it. It speaks of documents that a parser takes: the names in them are
//! XML names without a prefix, and the texts are made of characters that XML
//! allows. It also takes each text to be reported by itself, which a parser
//! does where no character data follows character data directly; the codecs
//! never write such a thing, since they put every text in an element of its
//! own.

use vstd::prelude::*;
use crate::codec::{lemma_property_is_balanced, property, XmlType};
use crate::deserializer_core::{ReadEventView, ReadItemView, Stream};
use crate::error::DecodeErrorView;
use crate::event::{lemma_open_elements_push, open_elements, WrittenEvent};
use crate::serializer_core::{lemma_tagged_array_is_balanced, tagged, tagged_array, text_event};
use crate::types::{
    content_of, kind_of_tag, registered, tag_of, unknown_tag, value_events, value_outcome, value_rest,
    VariantType, VariantView,
};
use crate::whitespace::{has_outer_whitespace, is_whitespace_char};

verus! {

/// The four characters that XML counts as white space.
pub open spec fn is_xml_space(c: char) -> bool {
    c == ' ' || c == '\t' || c == '\n' || c == '\r'
}

/// Whether `text` holds nothing but XML white space. The empty text does.
pub open spec fn is_blank(text: Seq<char>) -> bool {
    forall|i: int| 0 <= i < text.len() ==> is_xml_space(#[trigger] text[i])
}

/// The events that a reader gets to see of a document made of `events`, where
/// `open` names the elements that were open before them, innermost last.
/// Starts come back as they went, and ends with the name of the element they
/// close. A CDATA section comes back whole. Character data comes back too,
/// unless it is blank: blank text between two tags is white space to a
/// parser, which a reader leaves out like the line breaks and the indentation
/// that the writer adds.
pub open spec fn echo(events: Seq<WrittenEvent>, open: Seq<Seq<char>>) -> Seq<ReadEventView>
    decreases events.len(),
{
    if events.len() == 0 {
        Seq::empty()
    } else {
        let rest = events.skip(1);
        match events[0] {
            WrittenEvent::StartElement { name } => seq![ReadEventView::StartElement { name }]
                + echo(rest, open.push(name)),
            WrittenEvent::EndElement => if open.len() > 0 {
                seq![ReadEventView::EndElement { name: open.last() }] + echo(
                    rest,
                    open.drop_last(),
                )
            } else {
                echo(rest, open)
            },
            WrittenEvent::Characters(text) => if is_blank(text) {
                echo(rest, open)
            } else {
                seq![ReadEventView::Characters(text)] + echo(rest, open)
            },
            WrittenEvent::CData(text) => seq![ReadEventView::CData(text)] + echo(rest, open),
        }
    }
}

/// The names of the elements that are open after `events`, where `open` names
/// those that were open before, innermost last.
pub open spec fn opened(events: Seq<WrittenEvent>, open: Seq<Seq<char>>) -> Seq<Seq<char>>
    decreases events.len(),
{
    if events.len() == 0 {
        open
    } else {
        let rest = events.skip(1);
        match events[0] {
            WrittenEvent::StartElement { name } => opened(rest, open.push(name)),
            WrittenEvent::EndElement => if open.len() > 0 {
                opened(rest, open.drop_last())
            } else {
                opened(rest, open)
            },
            _ => opened(rest, open),
        }
    }
}

/// The events of a stream without their places.
pub open spec fn events_of(stream: Stream) -> Seq<ReadEventView> {
    stream.pending.map_values(|item: ReadItemView| item.event)
}

/// Whether `stream` holds what a reader gets to see of the property called
/// `name` that was written with `value`.
pub open spec fn echoes(stream: Stream, name: Seq<char>, value: VariantView) -> bool {
    events_of(stream) == echo(value_events(name, value), Seq::empty())
}

/// The strategy for a text is decided by its two ends alone: two texts that
/// are not empty and agree in their first and in their last character are
/// written the same way, whatever lies between.
pub proof fn lemma_strategy_depends_on_ends_only(first: Seq<char>, second: Seq<char>)
    requires
        first.len() > 0,
        second.len() > 0,
        first.first() == second.first(),
        first.last() == second.last(),
    ensures
        text_event(first) is CData <==> text_event(second) is CData,
{
}

/// A text that neither starts nor ends with whitespace, the empty text among
/// them, is written as escaped character data and never as a CDATA section;
/// every other text is written as a CDATA section.
pub proof fn lemma_strategy(text: Seq<char>)
    ensures
        !has_outer_whitespace(text) ==> text_event(text) == WrittenEvent::Characters(text),
        has_outer_whitespace(text) ==> text_event(text) == WrittenEvent::CData(text),
        text_event(Seq::empty()) == WrittenEvent::Characters(Seq::empty()),
{
}

/// What a reader sees of two runs of events written one after the other is
/// what it sees of the first, followed by what it sees of the second with the
/// elements open that the first left open.
pub proof fn lemma_echo_concat(
    first: Seq<WrittenEvent>,
    second: Seq<WrittenEvent>,
    open: Seq<Seq<char>>,
)
    ensures
        echo(first + second, open) == echo(first, open) + echo(second, opened(first, open)),
        opened(first + second, open) == opened(second, opened(first, open)),
    decreases first.len(),
{
    let both = first + second;
    if first.len() == 0 {
        assert(both =~= second);
        assert(echo(first, open) + echo(second, open) =~= echo(second, open));
    } else {
        let rest = first.skip(1);
        assert(both[0] == first[0]);
        assert(both.skip(1) =~= rest + second);
        let next = match first[0] {
            WrittenEvent::StartElement { name } => open.push(name),
            WrittenEvent::EndElement => if open.len() > 0 {
                open.drop_last()
            } else {
                open
            },
            _ => open,
        };
        lemma_echo_concat(rest, second, next);
        assert(echo(both, open) =~= echo(first, open) + echo(second, opened(first, open)));
    }
}

/// A reader sees the start of an element as it was written, and the element
/// is open behind it.
proof fn lemma_echo_of_start(name: Seq<char>, open: Seq<Seq<char>>)
    ensures
        echo(seq![WrittenEvent::StartElement { name }], open) == seq![
            ReadEventView::StartElement { name },
        ],
        opened(seq![WrittenEvent::StartElement { name }], open) == open.push(name),
{
    let events = seq![WrittenEvent::StartElement { name }];
    assert(events[0] == WrittenEvent::StartElement { name });
    assert(events.skip(1) =~= Seq::<WrittenEvent>::empty());
    assert(echo(events.skip(1), open.push(name)) =~= Seq::<ReadEventView>::empty());
    assert(opened(events.skip(1), open.push(name)) == open.push(name));
    assert(echo(events, open) =~= seq![ReadEventView::StartElement { name }]);
}

/// A reader sees the end of an element under the name of the innermost open
/// element, which is closed behind it.
proof fn lemma_echo_of_end(open: Seq<Seq<char>>)
    requires
        open.len() > 0,
    ensures
        echo(seq![WrittenEvent::EndElement], open) == seq![
            ReadEventView::EndElement { name: open.last() },
        ],
        opened(seq![WrittenEvent::EndElement], open) == open.drop_last(),
{
    let events = seq![WrittenEvent::EndElement];
    assert(events[0] == WrittenEvent::EndElement);
    assert(events.skip(1) =~= Seq::<WrittenEvent>::empty());
    assert(echo(events.skip(1), open.drop_last()) =~= Seq::<ReadEventView>::empty());
    assert(opened(events.skip(1), open.drop_last()) == open.drop_last());
    assert(echo(events, open) =~= seq![ReadEventView::EndElement { name: open.last() }]);
}

/// What a reader sees of the event that carries `text` is either nothing, and
/// then the text is empty, or one event that carries just that text. The same
/// elements are open behind it as before it.
pub proof fn lemma_echo_of_text(text: Seq<char>, open: Seq<Seq<char>>)
    ensures
        ({
            let seen = echo(seq![text_event(text)], open);
            ||| seen.len() == 0 && text.len() == 0
            ||| seen.len() == 1 && seen[0].is_text() && seen[0].text() == text
        }),
        opened(seq![text_event(text)], open) == open,
{
    let events = seq![text_event(text)];
    assert(events[0] == text_event(text));
    assert(events.skip(1) =~= Seq::<WrittenEvent>::empty());
    assert(echo(events.skip(1), open) =~= Seq::<ReadEventView>::empty());
    assert(opened(events.skip(1), open) == open);
    if has_outer_whitespace(text) {
        assert(echo(events, open) =~= seq![ReadEventView::CData(text)]);
    } else if is_blank(text) {
        if text.len() > 0 {
            assert(is_xml_space(text[0]));
            assert(is_whitespace_char(text.first()));
        }
        assert(echo(events, open) =~= Seq::<ReadEventView>::empty());
    } else {
        assert(echo(events, open) =~= seq![ReadEventView::Characters(text)]);
    }
}

/// What a reader sees of an element that holds one text: its start, what it
/// sees of the text, and its end. The same elements are open behind it as
/// before it.
pub proof fn lemma_echo_of_tagged(tag: Seq<char>, text: Seq<char>, open: Seq<Seq<char>>)
    ensures
        echo(tagged(tag, text), open) == seq![ReadEventView::StartElement { name: tag }] + echo(
            seq![text_event(text)],
            open.push(tag),
        ) + seq![ReadEventView::EndElement { name: tag }],
        opened(tagged(tag, text), open) == open,
{
    let start = seq![WrittenEvent::StartElement { name: tag }];
    let middle = seq![text_event(text)];
    let end = seq![WrittenEvent::EndElement];
    let inside = open.push(tag);
    assert(tagged(tag, text) =~= start + (middle + end));
    lemma_echo_of_start(tag, open);
    lemma_echo_of_text(text, inside);
    lemma_echo_of_end(inside);
    lemma_echo_concat(middle, end, inside);
    lemma_echo_concat(start, middle + end, open);
    assert(inside.drop_last() =~= open);
    assert(echo(tagged(tag, text), open) =~= seq![ReadEventView::StartElement { name: tag }]
        + echo(middle, inside) + seq![ReadEventView::EndElement { name: tag }]);
}

/// A run of tagged texts starts with the element of the first text, and goes
/// on with the run of the other texts.
pub proof fn lemma_tagged_array_front(texts: Seq<Seq<char>>, tags: Seq<Seq<char>>, count: nat)
    requires
        1 <= count <= texts.len(),
        count <= tags.len(),
    ensures
        tagged_array(texts, tags, count) == tagged(tags[0], texts[0]) + tagged_array(
            texts.skip(1),
            tags.skip(1),
            (count - 1) as nat,
        ),
    decreases count,
{
    let first = tagged(tags[0], texts[0]);
    if count == 1 {
        assert(tagged_array(texts, tags, 0) =~= Seq::<WrittenEvent>::empty());
        assert(tagged_array(texts, tags, 1) =~= first);
        assert(first + tagged_array(texts.skip(1), tags.skip(1), 0) =~= first);
    } else {
        lemma_tagged_array_front(texts, tags, (count - 1) as nat);
        let last = tagged(tags[count - 1], texts[count - 1]);
        assert(tags.skip(1)[count - 2] == tags[count - 1]);
        assert(texts.skip(1)[count - 2] == texts[count - 1]);
        assert(tagged_array(texts, tags, count) =~= first + (tagged_array(
            texts.skip(1),
            tags.skip(1),
            (count - 2) as nat,
        ) + last));
    }
}

/// The same elements are open behind a run of tagged texts as before it.
pub proof fn lemma_opened_of_tagged_array(
    texts: Seq<Seq<char>>,
    tags: Seq<Seq<char>>,
    count: nat,
    open: Seq<Seq<char>>,
)
    ensures
        opened(tagged_array(texts, tags, count), open) == open,
    decreases count,
{
    if count > 0 {
        let front = tagged_array(texts, tags, (count - 1) as nat);
        let last = tagged(tags[count - 1], texts[count - 1]);
        lemma_opened_of_tagged_array(texts, tags, (count - 1) as nat, open);
        lemma_echo_concat(front, last, open);
        lemma_echo_of_tagged(tags[count - 1], texts[count - 1], open);
    }
}

/// The events of a stream that has advanced are those of the stream without
/// the ones it has passed.
proof fn lemma_events_of_advance(stream: Stream, count: nat)
    requires
        count <= stream.pending.len(),
    ensures
        events_of(stream.advance(count)) == events_of(stream).skip(count as int),
        stream.advance(count).end == stream.end,
{
    assert(events_of(stream.advance(count)) =~= events_of(stream).skip(count as int));
}

/// A text comes back from the event that `text_event` picks for it, whatever
/// the text is and whatever stands behind it, as long as that is no text:
/// the run of text at the front of what a reader sees is the text, with the
/// whitespace at its ends and all that lies between.
pub proof fn lemma_text_reads_back(
    text: Seq<char>,
    open: Seq<Seq<char>>,
    tail: Seq<ReadEventView>,
    stream: Stream,
)
    requires
        events_of(stream) == echo(seq![text_event(text)], open) + tail,
        tail.len() > 0 ==> !tail[0].is_text(),
    ensures
        stream.leading_text() == text,
        stream.text_run() <= stream.pending.len(),
        events_of(stream.advance(stream.text_run())) == tail,
        stream.advance(stream.text_run()).end == stream.end,
{
    lemma_echo_of_text(text, open);
    let seen = echo(seq![text_event(text)], open);
    let events = events_of(stream);
    assert(stream.pending.len() == events.len());
    assert(forall|i: int| 0 <= i < events.len() ==> events[i] == stream.pending[i].event);
    if seen.len() == 0 {
        assert(events =~= tail);
        assert(stream.text_run() == 0);
        assert(stream.leading_text() =~= text);
        lemma_events_of_advance(stream, 0);
        assert(events.skip(0) =~= tail);
    } else {
        assert(events[0] == seen[0]);
        let rest = stream.advance(1);
        lemma_events_of_advance(stream, 1);
        assert(events.skip(1) =~= tail);
        assert(rest.pending.len() == tail.len());
        if rest.pending.len() > 0 {
            assert(events_of(rest)[0] == rest.pending[0].event);
        }
        assert(rest.text_run() == 0);
        assert(rest.leading_text() =~= Seq::<char>::empty());
        assert(stream.text_run() == 1);
        assert(stream.leading_text() =~= seen[0].text() + rest.leading_text());
    }
}

/// A text comes back from the event that `text_event` picks for it: what a
/// reader sees of that event, read as one run of text, is the text.
pub proof fn lemma_text_survives(text: Seq<char>, open: Seq<Seq<char>>, stream: Stream)
    requires
        events_of(stream) == echo(seq![text_event(text)], open),
    ensures
        stream.leading_text() == text,
        stream.text_run() == stream.pending.len(),
{
    let seen = echo(seq![text_event(text)], open);
    assert(seen + Seq::<ReadEventView>::empty() =~= seen);
    lemma_text_reads_back(text, open, Seq::empty(), stream);
    let rest = stream.advance(stream.text_run());
    assert(rest.pending.len() == events_of(rest).len());
}

/// Escaped character data alone would not do: a single space written as
/// character data is blank, so a reader sees nothing of it, and reading gives
/// the empty text in place of the space.
pub proof fn lemma_plain_text_loses_a_space(open: Seq<Seq<char>>, stream: Stream)
    requires
        events_of(stream) == echo(seq![WrittenEvent::Characters(seq![' '])], open),
    ensures
        has_outer_whitespace(seq![' ']),
        stream.leading_text() != seq![' '],
{
    let space = seq![' '];
    let events = seq![WrittenEvent::Characters(space)];
    assert(is_blank(space));
    assert(events[0] == WrittenEvent::Characters(space));
    assert(events.skip(1) =~= Seq::<WrittenEvent>::empty());
    assert(echo(events.skip(1), open) =~= Seq::<ReadEventView>::empty());
    assert(echo(events, open) =~= Seq::<ReadEventView>::empty());
    assert(stream.pending.len() == events_of(stream).len());
    assert(stream.leading_text().len() == 0);
    assert(seq![' '].len() == 1);
}

/// An element that holds one text reads back as that text, whatever stands
/// behind the element, and reading leaves what stands behind it.
pub proof fn lemma_tagged_reads_back(
    tag: Seq<char>,
    text: Seq<char>,
    open: Seq<Seq<char>>,
    tail: Seq<ReadEventView>,
    stream: Stream,
)
    requires
        events_of(stream) == echo(tagged(tag, text), open) + tail,
    ensures
        stream.tag_contents(tag) == Ok::<Seq<char>, DecodeErrorView>(text),
        events_of(stream.after_tag_contents(tag)) == tail,
        stream.after_tag_contents(tag).end == stream.end,
{
    lemma_echo_of_tagged(tag, text, open);
    let seen = echo(seq![text_event(text)], open.push(tag));
    let end = seq![ReadEventView::EndElement { name: tag }];
    let events = events_of(stream);
    assert(stream.pending.len() == events.len());
    assert(events[0] == stream.pending[0].event);
    assert(events[0] == ReadEventView::StartElement { name: tag });
    let inside = stream.advance(1);
    lemma_events_of_advance(stream, 1);
    assert(events.skip(1) =~= seen + (end + tail));
    lemma_text_reads_back(text, open.push(tag), end + tail, inside);
    let behind = inside.advance(inside.text_run());
    assert(behind.pending.len() == events_of(behind).len());
    assert(events_of(behind)[0] == behind.pending[0].event);
    lemma_events_of_advance(behind, 1);
    assert((end + tail).skip(1) =~= tail);
}

/// A run of tagged texts reads back as those texts, whatever stands behind
/// the run, and reading leaves what stands behind it.
pub proof fn lemma_tagged_array_reads_back(
    texts: Seq<Seq<char>>,
    tags: Seq<Seq<char>>,
    open: Seq<Seq<char>>,
    tail: Seq<ReadEventView>,
    stream: Stream,
)
    requires
        texts.len() == tags.len(),
        events_of(stream) == echo(tagged_array(texts, tags, texts.len()), open) + tail,
    ensures
        stream.tag_array(tags) == Ok::<Seq<Seq<char>>, DecodeErrorView>(texts),
        events_of(stream.after_tag_array(tags)) == tail,
        stream.after_tag_array(tags).end == stream.end,
    decreases texts.len(),
{
    if texts.len() == 0 {
        assert(echo(tagged_array(texts, tags, 0), open) + tail =~= tail);
        assert(texts =~= Seq::<Seq<char>>::empty());
    } else {
        let first = tagged(tags[0], texts[0]);
        let others = tagged_array(texts.skip(1), tags.skip(1), (texts.len() - 1) as nat);
        lemma_tagged_array_front(texts, tags, texts.len());
        lemma_echo_concat(first, others, open);
        lemma_echo_of_tagged(tags[0], texts[0], open);
        assert(events_of(stream) =~= echo(first, open) + (echo(others, open) + tail));
        lemma_tagged_reads_back(tags[0], texts[0], open, echo(others, open) + tail, stream);
        lemma_tagged_array_reads_back(
            texts.skip(1),
            tags.skip(1),
            open,
            tail,
            stream.after_tag_contents(tags[0]),
        );
        assert(seq![texts[0]] + texts.skip(1) =~= texts);
    }
}

/// How a property reads back whose content leaves open what was open: the
/// stream starts with the element of the property and that of the value, then
/// comes what a reader sees of the content, and the two ends follow.
pub proof fn lemma_property_reads_back(
    name: Seq<char>,
    tag: Seq<char>,
    content: Seq<WrittenEvent>,
    stream: Stream,
)
    requires
        events_of(stream) == echo(property(name, tag, content), Seq::empty()),
        opened(content, seq![name, tag]) == seq![name, tag],
    ensures
        stream.starts_with(name),
        stream.advance(1).starts_with(tag),
        events_of(stream.advance(2)) == echo(content, seq![name, tag]) + seq![
            ReadEventView::EndElement { name: tag },
            ReadEventView::EndElement { name },
        ],
        stream.advance(2).end == stream.end,
{
    let none = Seq::<Seq<char>>::empty();
    let outer = seq![name];
    let inner = seq![name, tag];
    let first = seq![WrittenEvent::StartElement { name }];
    let second = seq![WrittenEvent::StartElement { name: tag }];
    let end = seq![WrittenEvent::EndElement];
    assert(none.push(name) =~= outer);
    assert(outer.push(tag) =~= inner);
    assert(inner.drop_last() =~= outer);
    assert(outer.drop_last() =~= none);
    assert(property(name, tag, content) =~= first + (second + (content + (end + end))));
    lemma_echo_of_start(name, none);
    lemma_echo_of_start(tag, outer);
    lemma_echo_of_end(inner);
    lemma_echo_of_end(outer);
    lemma_echo_concat(end, end, inner);
    lemma_echo_concat(content, end + end, inner);
    lemma_echo_concat(second, content + (end + end), outer);
    lemma_echo_concat(first, second + (content + (end + end)), none);
    let events = events_of(stream);
    let ends = seq![ReadEventView::EndElement { name: tag }, ReadEventView::EndElement { name }];
    assert(events =~= seq![
        ReadEventView::StartElement { name },
        ReadEventView::StartElement { name: tag },
    ] + (echo(content, inner) + ends));
    assert(stream.pending.len() == events.len());
    assert(events[0] == stream.pending[0].event);
    assert(events[1] == stream.pending[1].event);
    assert(stream.advance(1).pending[0] == stream.pending[1]);
    lemma_events_of_advance(stream, 2);
    assert(events.skip(2) =~= echo(content, inner) + ends);
}

/// Round trip. Take a value of a kind that has a codec, write it as the
/// property called `name`, and let a reader see the events. Then the stream
/// starts with the element of the property and, in it, the element that the
/// kind's tag names; reading a value under that tag gives the value that was
/// written; and what is left is the end of the property's element.
pub proof fn lemma_round_trip(name: Seq<char>, value: VariantView, stream: Stream)
    requires
        registered(value.ty()),
        value matches VariantView::CFrame(components) ==> components.len() == 12,
        echoes(stream, name, value),
    ensures
        stream.starts_with(name),
        stream.advance(1).starts_with(tag_of(value.ty())),
        value_outcome(stream.advance(2), tag_of(value.ty())) == Ok::<
            VariantView,
            DecodeErrorView,
        >(value),
        value_rest(stream.advance(2), tag_of(value.ty())).ends_with(name),
        value_rest(stream.advance(2), tag_of(value.ty())).pending.len() == 1,
{
    lemma_tags(value.ty());
    let tag = tag_of(value.ty());
    let inner = seq![name, tag];
    let inside = stream.advance(2);
    let ends = seq![ReadEventView::EndElement { name: tag }, ReadEventView::EndElement { name }];
    let behind = match value {
        VariantView::CFrame(components) => {
            let tags = crate::types::cframe::component_tags();
            lemma_opened_of_tagged_array(components, tags, 12, inner);
            lemma_property_reads_back(name, tag, content_of(value), stream);
            lemma_tagged_array_reads_back(components, tags, inner, ends, inside);
            inside.after_tag_array(tags)
        },
        _ => {
            let text = match value {
                VariantView::BinaryString(bytes) => {
                    crate::base64::lemma_decoded_encoded(bytes);
                    crate::base64::encoded(bytes)
                },
                VariantView::Bool(truth) => {
                    assert(crate::format::bool_text(true).len() == 4);
                    assert(crate::format::bool_text(false).len() == 5);
                    crate::format::bool_text(truth)
                },
                VariantView::String(text) => text,
                _ => Seq::empty(),
            };
            lemma_echo_of_text(text, inner);
            lemma_property_reads_back(name, tag, content_of(value), stream);
            lemma_text_reads_back(text, inner, ends, inside);
            inside.advance(inside.text_run())
        },
    };
    assert(events_of(behind) == ends);
    assert(behind.pending.len() == 2);
    assert(events_of(behind)[0] == behind.pending[0].event);
    assert(behind.after_next() == behind.advance(1));
    lemma_events_of_advance(behind, 1);
    assert(ends.skip(1) =~= seq![ReadEventView::EndElement { name }]);
    assert(events_of(behind.advance(1))[0] == behind.advance(1).pending[0].event);
}

/// A string that starts or ends with whitespace comes back as it went, with
/// the whitespace at its ends and all that lies between.
pub proof fn lemma_outer_whitespace_is_kept(name: Seq<char>, text: Seq<char>, stream: Stream)
    requires
        has_outer_whitespace(text),
        echoes(stream, name, VariantView::String(text)),
    ensures
        value_events(name, VariantView::String(text)) == property(
            name,
            <String as XmlType>::xml_tag(),
            seq![WrittenEvent::CData(text)],
        ),
        value_outcome(stream.advance(2), <String as XmlType>::xml_tag()) == Ok::<
            VariantView,
            DecodeErrorView,
        >(VariantView::String(text)),
{
    lemma_round_trip(name, VariantView::String(text), stream);
}

/// What is written for a value closes every element it opens: the elements
/// that were open before the property are the ones that are open after it.
pub proof fn lemma_value_events_are_balanced(name: Seq<char>, value: VariantView)
    requires
        registered(value.ty()),
    ensures
        open_elements(value_events(name, value)) == 0,
{
    let content = content_of(value);
    match value {
        VariantView::CFrame(texts) => {
            lemma_tagged_array_is_balanced(texts, crate::types::cframe::component_tags(), 12);
        },
        _ => {
            assert(content =~= Seq::<WrittenEvent>::empty().push(content[0]));
            lemma_open_elements_push(Seq::empty(), content[0]);
        },
    }
    lemma_property_is_balanced(name, tag_of(value.ty()), content);
}

/// The kinds with a codec and the tags of documents match one to one: the tag
/// of such a kind is read as that kind, and a tag that is read as a kind is
/// the tag of that kind, which has a codec. No tag is only read or only
/// written.
pub proof fn lemma_tags(kind: VariantType)
    ensures
        registered(kind) ==> kind_of_tag(tag_of(kind)) == Some(kind),
        forall|tag: Seq<char>| kind_of_tag(tag) == Some(kind) ==> registered(kind) && tag_of(kind)
            == tag,
{
    assert(<crate::types::BinaryString as XmlType>::xml_tag().len() == 12);
    assert(<bool as XmlType>::xml_tag().len() == 4);
    assert(<crate::types::CFrame as XmlType>::xml_tag().len() == 15);
    assert(<String as XmlType>::xml_tag().len() == 6);
}

/// Two kinds with a codec never share a tag.
pub proof fn lemma_tags_are_unique(first: VariantType, second: VariantType)
    requires
        registered(first),
        registered(second),
        tag_of(first) == tag_of(second),
    ensures
        first == second,
{
    lemma_tags(first);
    lemma_tags(second);
}

/// A tag that no kind goes by is an error that names the tag and the place
/// where reading stands, and nothing is taken from the stream.
pub proof fn lemma_unknown_tag(stream: Stream, tag: Seq<char>)
    requires
        kind_of_tag(tag) is None,
    ensures
        value_outcome(stream, tag) == Err::<VariantView, DecodeErrorView>(
            unknown_tag(stream, tag),
        ),
        value_rest(stream, tag) == stream,
{
}

} // verus!
