//! The reader of documents: a stream of the events that a parser found, each
//! with the place in the text where it was found. Only the events that say
//! something about values are kept: elements, text, and the parser's failure.

use vstd::prelude::*;
use crate::error::{DecodeError, DecodeErrorKind, DecodeErrorKindView, DecodeErrorView};
use crate::serializer_core::names_of;

verus! {

/// The error of the `xml` crate's parser, which is carried along and never
/// looked into.
#[verifier::external_type_specification]
#[verifier::external_body]
pub struct ExParseError(xml::reader::Error);

/// A place in the text of a document.
#[derive(Clone, Copy, Debug, PartialEq, Eq, Structural)]
pub struct Position {
    pub row: u64,
    pub column: u64,
}

/// One step in the reading of a document, as a parser reports it.
#[derive(Debug, PartialEq, Eq)]
pub enum XmlReadEvent {
    /// The document starts.
    StartDocument,
    /// The document ends.
    EndDocument,
    /// A processing instruction.
    ProcessingInstruction,
    /// A comment.
    Comment,
    /// Text between two tags that holds nothing but white space.
    Whitespace,
    /// An element with the given name opens.
    StartElement { name: String },
    /// The element with the given name closes.
    EndElement { name: String },
    /// Text that stood in the document as character data.
    Characters(String),
    /// Text that stood in the document inside a CDATA section.
    CData(String),
    /// The parser gave up at this point, for the reason it gives.
    Failure(xml::reader::Error),
}

/// What an `XmlReadEvent` says, with its texts as sequences of characters.
pub enum ReadEventView {
    StartDocument,
    EndDocument,
    ProcessingInstruction,
    Comment,
    Whitespace,
    StartElement { name: Seq<char> },
    EndElement { name: Seq<char> },
    Characters(Seq<char>),
    CData(Seq<char>),
    Failure(xml::reader::Error),
}

impl View for XmlReadEvent {
    type V = ReadEventView;

    open spec fn view(&self) -> ReadEventView {
        match *self {
            XmlReadEvent::StartDocument => ReadEventView::StartDocument,
            XmlReadEvent::EndDocument => ReadEventView::EndDocument,
            XmlReadEvent::ProcessingInstruction => ReadEventView::ProcessingInstruction,
            XmlReadEvent::Comment => ReadEventView::Comment,
            XmlReadEvent::Whitespace => ReadEventView::Whitespace,
            XmlReadEvent::StartElement { name } => ReadEventView::StartElement { name: name@ },
            XmlReadEvent::EndElement { name } => ReadEventView::EndElement { name: name@ },
            XmlReadEvent::Characters(text) => ReadEventView::Characters(text@),
            XmlReadEvent::CData(text) => ReadEventView::CData(text@),
            XmlReadEvent::Failure(error) => ReadEventView::Failure(error),
        }
    }
}

impl ReadEventView {
    /// Whether the event says something about values: the start and the end of
    /// an element do, and text, and the failure of the parser. The start and
    /// the end of the document, processing instructions, comments and white
    /// space between tags do not.
    pub open spec fn is_significant(self) -> bool {
        self is StartElement || self is EndElement || self is Characters || self is CData
            || self is Failure
    }

    /// Whether the event carries text.
    pub open spec fn is_text(self) -> bool {
        self is Characters || self is CData
    }

    /// The text that the event carries; empty for an event that carries none.
    pub open spec fn text(self) -> Seq<char> {
        match self {
            ReadEventView::Characters(text) => text,
            ReadEventView::CData(text) => text,
            _ => Seq::empty(),
        }
    }
}

/// An event and the place where it was found.
#[derive(Debug, PartialEq, Eq)]
pub struct XmlReadItem {
    pub event: XmlReadEvent,
    pub position: Position,
}

/// An `XmlReadItem` with its event as a `ReadEventView`.
pub struct ReadItemView {
    pub event: ReadEventView,
    pub position: Position,
}

impl View for XmlReadItem {
    type V = ReadItemView;

    open spec fn view(&self) -> ReadItemView {
        ReadItemView { event: self.event@, position: self.position }
    }
}

/// The items whose events say something about values, in the order in which
/// they stand in `items`.
pub open spec fn kept(items: Seq<ReadItemView>) -> Seq<ReadItemView>
    decreases items.len(),
{
    if items.len() == 0 {
        Seq::empty()
    } else if items[0].event.is_significant() {
        seq![items[0]] + kept(items.skip(1))
    } else {
        kept(items.skip(1))
    }
}

/// What is left of a document: the events still to be read, the next one
/// first, and the place where the document ends.
pub struct Stream {
    pub pending: Seq<ReadItemView>,
    pub end: Position,
}

impl Stream {
    /// The place where reading stands: that of the next event, or the end of
    /// the document when no event is left.
    pub open spec fn position(self) -> Position {
        if self.pending.len() > 0 {
            self.pending[0].position
        } else {
            self.end
        }
    }

    /// The stream without its first `count` events.
    pub open spec fn advance(self, count: nat) -> Stream {
        Stream { pending: self.pending.skip(count as int), end: self.end }
    }

    /// How many events at the front of the stream carry text.
    pub open spec fn text_run(self) -> nat
        decreases self.pending.len(),
    {
        if self.pending.len() > 0 && self.pending[0].event.is_text() {
            1 + self.advance(1).text_run()
        } else {
            0
        }
    }

    /// The texts of the events at the front that carry text, joined.
    pub open spec fn leading_text(self) -> Seq<char>
        decreases self.pending.len(),
    {
        if self.pending.len() > 0 && self.pending[0].event.is_text() {
            self.pending[0].event.text() + self.advance(1).leading_text()
        } else {
            Seq::empty()
        }
    }

    /// The error for a next event that is not the one called for: the end of
    /// the document, the parser's failure, or an event of another kind.
    pub open spec fn rejection(self) -> DecodeErrorView {
        DecodeErrorView {
            kind: if self.pending.len() == 0 {
                DecodeErrorKindView::UnexpectedEof
            } else {
                match self.pending[0].event {
                    ReadEventView::Failure(error) => DecodeErrorKindView::Xml(error),
                    event => DecodeErrorKindView::UnexpectedXmlEvent(event),
                }
            },
            position: self.position(),
        }
    }

    /// The stream after its next event, if it has one, was taken.
    pub open spec fn after_next(self) -> Stream {
        if self.pending.len() > 0 {
            self.advance(1)
        } else {
            self
        }
    }

    /// Whether the next event opens an element called `name`.
    pub open spec fn starts_with(self, name: Seq<char>) -> bool {
        self.pending.len() > 0 && self.pending[0].event == (ReadEventView::StartElement { name })
    }

    /// Whether the next event closes an element called `name`.
    pub open spec fn ends_with(self, name: Seq<char>) -> bool {
        self.pending.len() > 0 && self.pending[0].event == (ReadEventView::EndElement { name })
    }

    /// What `read_tag_contents` makes of the stream: the text inside an
    /// element called `name`, or the error at the first event that does not
    /// fit.
    pub open spec fn tag_contents(self, name: Seq<char>) -> Result<Seq<char>, DecodeErrorView> {
        let inside = self.advance(1);
        let after_text = inside.advance(inside.text_run());
        if !self.starts_with(name) {
            Err(self.rejection())
        } else if !after_text.ends_with(name) {
            Err(after_text.rejection())
        } else {
            Ok(inside.leading_text())
        }
    }

    /// The stream that `read_tag_contents` leaves behind: the events up to the
    /// first one that does not fit are taken, and that one too.
    pub open spec fn after_tag_contents(self, name: Seq<char>) -> Stream {
        let inside = self.advance(1);
        let after_text = inside.advance(inside.text_run());
        if !self.starts_with(name) {
            self.after_next()
        } else {
            after_text.after_next()
        }
    }

    /// What `read_tag_array` makes of the stream: the texts of one element
    /// after the other, named by `tags` in their order, or the error of the
    /// first element that cannot be read.
    pub open spec fn tag_array(self, tags: Seq<Seq<char>>) -> Result<
        Seq<Seq<char>>,
        DecodeErrorView,
    >
        decreases tags.len(),
    {
        if tags.len() == 0 {
            Ok(Seq::empty())
        } else {
            match self.tag_contents(tags[0]) {
                Err(error) => Err(error),
                Ok(text) => match self.after_tag_contents(tags[0]).tag_array(tags.skip(1)) {
                    Err(error) => Err(error),
                    Ok(texts) => Ok(seq![text] + texts),
                },
            }
        }
    }

    /// The stream that `read_tag_array` leaves behind: that behind the last
    /// element, or that behind the first element that cannot be read.
    pub open spec fn after_tag_array(self, tags: Seq<Seq<char>>) -> Stream
        decreases tags.len(),
    {
        if tags.len() == 0 {
            self
        } else if self.tag_contents(tags[0]) is Err {
            self.after_tag_contents(tags[0])
        } else {
            self.after_tag_contents(tags[0]).after_tag_array(tags.skip(1))
        }
    }
}

/// The texts of `strings`, in their order.
pub open spec fn views_of(strings: Seq<String>) -> Seq<Seq<char>> {
    strings.map_values(|text: String| text@)
}

/// A run of text events at the front is never longer than the stream.
pub proof fn lemma_text_run_bound(stream: Stream)
    ensures
        stream.text_run() <= stream.pending.len(),
    decreases stream.pending.len(),
{
    if stream.pending.len() > 0 && stream.pending[0].event.is_text() {
        lemma_text_run_bound(stream.advance(1));
    }
}

/// A reader over the events of a document.
pub struct XmlEventReader {
    /// The events still to be read, the next one last.
    stack: Vec<XmlReadItem>,
    end: Position,
}

impl View for XmlEventReader {
    type V = Stream;

    closed spec fn view(&self) -> Stream {
        Stream {
            pending: Seq::new(self.stack@.len(), |i: int| self.stack@[self.stack@.len() - 1 - i]@),
            end: self.end,
        }
    }
}

impl XmlEventReader {
    /// Makes a reader over what a parser reported. The events that say
    /// something about values are handed out from the first to the last, and
    /// the others are left out; `end` is the place where the document ends.
    pub fn from_events(events: Vec<XmlReadItem>, end: Position) -> (reader: XmlEventReader)
        ensures
            reader@.pending == kept(events@.map_values(|item: XmlReadItem| item@)),
            reader@.end == end,
    {
        let ghost all = events@.map_values(|item: XmlReadItem| item@);
        let ghost given = events@;
        let mut events = events;
        let mut stack: Vec<XmlReadItem> = Vec::new();
        assert(all.skip(all.len() as int) =~= Seq::<ReadItemView>::empty());
        while events.len() > 0
            invariant
                events@.len() <= given.len(),
                events@ == given.take(events@.len() as int),
                all == given.map_values(|item: XmlReadItem| item@),
                Seq::new(stack@.len(), |i: int| stack@[stack@.len() - 1 - i]@) == kept(
                    all.skip(events@.len() as int),
                ),
            decreases events@.len(),
        {
            let ghost count = events@.len() as int;
            let ghost before = stack@;
            let item = events.pop().unwrap();
            proof {
                let rest = all.skip(count - 1);
                assert(rest[0] == item@);
                assert(rest.skip(1) =~= all.skip(count));
            }
            if is_significant(&item.event) {
                stack.push(item);
                assert(Seq::new(stack@.len(), |i: int| stack@[stack@.len() - 1 - i]@) =~= seq![
                    item@,
                ] + Seq::new(before.len(), |i: int| before[before.len() - 1 - i]@));
            }
        }
        assert(all.skip(0) =~= all);
        XmlEventReader { stack, end }
    }

    /// The place where reading stands.
    pub fn position(&self) -> (position: Position)
        ensures
            position == self@.position(),
    {
        let length = self.stack.len();
        if length > 0 {
            self.stack[length - 1].position
        } else {
            self.end
        }
    }

    /// An error of the given kind at the place where reading stands.
    pub fn error(&self, kind: DecodeErrorKind) -> (error: DecodeError)
        ensures
            error@ == (DecodeErrorView { kind: kind@, position: self@.position() }),
    {
        DecodeError { kind, position: self.position() }
    }

    /// The next event, which stays in the stream.
    pub fn peek(&self) -> (event: Option<&XmlReadEvent>)
        ensures
            match event {
                Some(event) => self@.pending.len() > 0 && event@ == self@.pending[0].event,
                None => self@.pending.len() == 0,
            },
    {
        let length = self.stack.len();
        if length > 0 {
            Some(&self.stack[length - 1].event)
        } else {
            None
        }
    }

    /// Takes the next event out of the stream.
    pub fn next(&mut self) -> (event: Option<XmlReadEvent>)
        ensures
            final(self)@ == old(self)@.after_next(),
            match event {
                Some(event) => old(self)@.pending.len() > 0 && event@ == old(self)@.pending[0].event,
                None => old(self)@.pending.len() == 0,
            },
    {
        match self.stack.pop() {
            Some(item) => {
                assert(final(self)@.pending =~= old(self)@.pending.skip(1));
                Some(item.event)
            },
            None => {
                assert(final(self)@.pending =~= old(self)@.pending);
                None
            },
        }
    }

    /// Takes the next event, which has to open an element called
    /// `expected_name`.
    pub fn expect_start_with_name(&mut self, expected_name: &str) -> (result: Result<
        (),
        DecodeError,
    >)
        ensures
            final(self)@ == old(self)@.after_next(),
            result is Ok <==> old(self)@.starts_with(expected_name@),
            result matches Err(error) ==> error@ == old(self)@.rejection(),
    {
        let position = self.position();
        match self.next() {
            Some(XmlReadEvent::StartElement { name }) => {
                if *name.as_str() == *expected_name {
                    Ok(())
                } else {
                    Err(
                        DecodeError {
                            kind: DecodeErrorKind::UnexpectedXmlEvent(
                                XmlReadEvent::StartElement { name },
                            ),
                            position,
                        },
                    )
                }
            },
            other => Err(rejected(other, position)),
        }
    }

    /// Takes the next event, which has to close an element called
    /// `expected_name`.
    pub fn expect_end_with_name(&mut self, expected_name: &str) -> (result: Result<(), DecodeError>)
        ensures
            final(self)@ == old(self)@.after_next(),
            result is Ok <==> old(self)@.ends_with(expected_name@),
            result matches Err(error) ==> error@ == old(self)@.rejection(),
    {
        let position = self.position();
        match self.next() {
            Some(XmlReadEvent::EndElement { name }) => {
                if *name.as_str() == *expected_name {
                    Ok(())
                } else {
                    Err(
                        DecodeError {
                            kind: DecodeErrorKind::UnexpectedXmlEvent(
                                XmlReadEvent::EndElement { name },
                            ),
                            position,
                        },
                    )
                }
            },
            other => Err(rejected(other, position)),
        }
    }

    /// Takes the next event, which has to open an element, and gives the name
    /// of that element.
    pub fn expect_start(&mut self) -> (result: Result<String, DecodeError>)
        ensures
            final(self)@ == old(self)@.after_next(),
            match result {
                Ok(name) => old(self)@.starts_with(name@),
                Err(error) => !(old(self)@.pending.len() > 0 && old(self)@.pending[0].event
                    is StartElement) && error@ == old(self)@.rejection(),
            },
    {
        let position = self.position();
        match self.next() {
            Some(XmlReadEvent::StartElement { name }) => Ok(name),
            other => Err(rejected(other, position)),
        }
    }

    /// Takes the events at the front that carry text, character data and CDATA
    /// sections alike, and gives their texts joined. Where the next event
    /// carries no text, nothing is taken and the text is empty.
    pub fn read_characters(&mut self) -> (text: String)
        ensures
            final(self)@ == old(self)@.advance(old(self)@.text_run()),
            text@ == old(self)@.leading_text(),
    {
        let mut buffer = String::new();
        loop
            invariant
                self@.advance(self@.text_run()) == old(self)@.advance(old(self)@.text_run()),
                buffer@ + self@.leading_text() == old(self)@.leading_text(),
            ensures
                self@.text_run() == 0,
            decreases self@.pending.len(),
        {
            let is_text = match self.peek() {
                Some(XmlReadEvent::Characters(_)) => true,
                Some(XmlReadEvent::CData(_)) => true,
                _ => false,
            };
            if !is_text {
                break ;
            }
            let ghost before = self@;
            let ghost so_far = buffer@;
            match self.next() {
                Some(XmlReadEvent::Characters(text)) => {
                    buffer.append(text.as_str());
                },
                Some(XmlReadEvent::CData(text)) => {
                    buffer.append(text.as_str());
                },
                _ => {},
            }
            proof {
                let rest = before.advance(1);
                lemma_text_run_bound(rest);
                assert(before.text_run() == 1 + rest.text_run());
                assert(rest.advance(rest.text_run()).pending =~= before.advance(
                    before.text_run(),
                ).pending);
                assert(buffer@ + self@.leading_text() =~= so_far + before.leading_text());
            }
        }
        assert(self@.advance(0).pending =~= self@.pending);
        assert(buffer@ + Seq::<char>::empty() =~= buffer@);
        buffer
    }

    /// Reads an element called `expected_name` that holds text and nothing
    /// else, and gives the text.
    pub fn read_tag_contents(&mut self, expected_name: &str) -> (result: Result<
        String,
        DecodeError,
    >)
        ensures
            final(self)@ == old(self)@.after_tag_contents(expected_name@),
            match result {
                Ok(text) => old(self)@.tag_contents(expected_name@) == Ok::<
                    Seq<char>,
                    DecodeErrorView,
                >(text@),
                Err(error) => old(self)@.tag_contents(expected_name@) == Err::<
                    Seq<char>,
                    DecodeErrorView,
                >(error@),
            },
    {
        self.expect_start_with_name(expected_name)?;
        let contents = self.read_characters();
        self.expect_end_with_name(expected_name)?;
        Ok(contents)
    }
}

impl XmlEventReader {
    /// Reads one element after the other, each holding text and nothing else,
    /// named by `tags` in their order, and gives their texts. Reading stops at
    /// the first element that cannot be read.
    pub fn read_tag_array(&mut self, tags: &[&str]) -> (result: Result<Vec<String>, DecodeError>)
        ensures
            final(self)@ == old(self)@.after_tag_array(names_of(tags@)),
            result matches Ok(texts) ==> texts@.len() == tags@.len(),
            match result {
                Ok(texts) => old(self)@.tag_array(names_of(tags@)) == Ok::<
                    Seq<Seq<char>>,
                    DecodeErrorView,
                >(views_of(texts@)),
                Err(error) => old(self)@.tag_array(names_of(tags@)) == Err::<
                    Seq<Seq<char>>,
                    DecodeErrorView,
                >(error@),
            },
    {
        let ghost names = names_of(tags@);
        let mut texts: Vec<String> = Vec::new();
        let mut index: usize = 0;
        proof {
            assert(names.skip(0) =~= names);
            match self@.tag_array(names) {
                Ok(all) => {
                    assert(views_of(texts@) + all =~= all);
                },
                Err(_) => {},
            }
        }
        while index < tags.len()
            invariant
                index <= tags@.len(),
                texts@.len() == index,
                names == names_of(tags@),
                old(self)@.after_tag_array(names) == self@.after_tag_array(
                    names.skip(index as int),
                ),
                old(self)@.tag_array(names) == match self@.tag_array(names.skip(index as int)) {
                    Err(error) => Err::<Seq<Seq<char>>, DecodeErrorView>(error),
                    Ok(rest) => Ok(views_of(texts@) + rest),
                },
            decreases tags@.len() - index,
        {
            let ghost before = self@;
            let ghost so_far = views_of(texts@);
            let ghost left = names.skip(index as int);
            proof {
                assert(left[0] == tags@[index as int]@);
                assert(left.skip(1) =~= names.skip(index + 1));
            }
            match self.read_tag_contents(tags[index]) {
                Ok(text) => {
                    texts.push(text);
                    proof {
                        assert(views_of(texts@) =~= so_far.push(text@));
                        match self@.tag_array(left.skip(1)) {
                            Ok(rest) => {
                                assert(views_of(texts@) + rest =~= so_far + (seq![text@] + rest));
                            },
                            Err(_) => {},
                        }
                    }
                },
                Err(error) => {
                    return Err(error);
                },
            }
            index = index + 1;
        }
        proof {
            assert(names.skip(index as int) =~= Seq::<Seq<char>>::empty());
            assert(views_of(texts@) + Seq::<Seq<char>>::empty() =~= views_of(texts@));
        }
        Ok(texts)
    }
}

/// Tells whether an event says something about values.
fn is_significant(event: &XmlReadEvent) -> (significant: bool)
    ensures
        significant == event@.is_significant(),
{
    match event {
        XmlReadEvent::StartElement { .. } => true,
        XmlReadEvent::EndElement { .. } => true,
        XmlReadEvent::Characters(_) => true,
        XmlReadEvent::CData(_) => true,
        XmlReadEvent::Failure(_) => true,
        _ => false,
    }
}

/// The error for an event that is not the one called for, or for the lack of
/// any event.
fn rejected(event: Option<XmlReadEvent>, position: Position) -> (error: DecodeError)
    ensures
        error@.position == position,
        error@.kind == match event {
            None => DecodeErrorKindView::UnexpectedEof,
            Some(XmlReadEvent::Failure(error)) => DecodeErrorKindView::Xml(error),
            Some(event) => DecodeErrorKindView::UnexpectedXmlEvent(event@),
        },
{
    let kind = match event {
        None => DecodeErrorKind::UnexpectedEof,
        Some(XmlReadEvent::Failure(error)) => DecodeErrorKind::Xml(error),
        Some(event) => DecodeErrorKind::UnexpectedXmlEvent(event),
    };
    DecodeError { kind, position }
}

} // verus!
