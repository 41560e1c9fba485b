//! The events that make up a document on its way out.

use vstd::prelude::*;

verus! {

/// One step in the writing of a document: an element is opened or closed, or
/// text is put into the element that is open.
#[derive(Clone, Copy, Debug)]
pub enum XmlWriteEvent<'a> {
    /// Opens an element with the given name and no attributes.
    StartElement { name: &'a str },
    /// Closes the element that was opened last and is still open.
    EndElement,
    /// Text that is written with the characters `<`, `>` and `&` escaped.
    Characters(&'a str),
    /// Text that is written as it stands, inside a CDATA section.
    CData(&'a str),
}

/// What an `XmlWriteEvent` says, with its texts as sequences of characters.
pub enum WrittenEvent {
    StartElement { name: Seq<char> },
    EndElement,
    Characters(Seq<char>),
    CData(Seq<char>),
}

impl<'a> View for XmlWriteEvent<'a> {
    type V = WrittenEvent;

    open spec fn view(&self) -> WrittenEvent {
        match *self {
            XmlWriteEvent::StartElement { name } => WrittenEvent::StartElement { name: name@ },
            XmlWriteEvent::EndElement => WrittenEvent::EndElement,
            XmlWriteEvent::Characters(text) => WrittenEvent::Characters(text@),
            XmlWriteEvent::CData(text) => WrittenEvent::CData(text@),
        }
    }
}

/// How many elements a sequence of events leaves open: each start counts one
/// up, each end one down.
pub open spec fn open_elements(events: Seq<WrittenEvent>) -> int
    decreases events.len(),
{
    if events.len() == 0 {
        0
    } else {
        open_elements(events.drop_last()) + match events.last() {
            WrittenEvent::StartElement { .. } => 1int,
            WrittenEvent::EndElement => -1int,
            _ => 0int,
        }
    }
}

/// Whether `event` may follow `events`: everything may, except the end of an
/// element where none is open.
pub open spec fn accepts(events: Seq<WrittenEvent>, event: WrittenEvent) -> bool {
    event is EndElement ==> open_elements(events) > 0
}

/// One more event changes the number of open elements by what the event does.
pub proof fn lemma_open_elements_push(events: Seq<WrittenEvent>, event: WrittenEvent)
    ensures
        open_elements(events.push(event)) == open_elements(events) + match event {
            WrittenEvent::StartElement { .. } => 1int,
            WrittenEvent::EndElement => -1int,
            _ => 0int,
        },
{
    assert(events.push(event).drop_last() =~= events);
}

/// The number of elements that two runs of events leave open is the sum of
/// what each leaves open.
pub proof fn lemma_open_elements_concat(first: Seq<WrittenEvent>, second: Seq<WrittenEvent>)
    ensures
        open_elements(first + second) == open_elements(first) + open_elements(second),
    decreases second.len(),
{
    if second.len() == 0 {
        assert(first + second =~= first);
    } else {
        lemma_open_elements_concat(first, second.drop_last());
        assert((first + second).drop_last() =~= first + second.drop_last());
    }
}

impl<'a> XmlWriteEvent<'a> {
    /// The event that opens an element called `name`.
    pub fn start_element(name: &'a str) -> (event: Self)
        ensures
            event@ == (WrittenEvent::StartElement { name: name@ }),
    {
        XmlWriteEvent::StartElement { name }
    }

    /// The event that closes the innermost open element.
    pub fn end_element() -> (event: Self)
        ensures
            event@ == WrittenEvent::EndElement,
    {
        XmlWriteEvent::EndElement
    }

    /// The event that writes `text` escaped.
    pub fn characters(text: &'a str) -> (event: Self)
        ensures
            event@ == WrittenEvent::Characters(text@),
    {
        XmlWriteEvent::Characters(text)
    }

    /// The event that writes `text` inside a CDATA section.
    pub fn cdata(text: &'a str) -> (event: Self)
        ensures
            event@ == WrittenEvent::CData(text@),
    {
        XmlWriteEvent::CData(text)
    }
}

} // verus!
