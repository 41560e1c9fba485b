//! Coordinate frames, written as twelve numbers in twelve elements.

use vstd::prelude::*;
use crate::codec::XmlType;
use crate::deserializer_core::{views_of, Stream, XmlEventReader};
use crate::error::{DecodeError, DecodeErrorView, EncodeError};
use crate::event::WrittenEvent;
use crate::serializer_core::{
    lemma_tagged_array_is_balanced, names_of, tagged_array, texts_of, XmlEventWriter,
};

verus! {

/// A coordinate frame: a position and the nine entries of a rotation matrix.
/// The position comes first, then the matrix row by row. Each of the twelve
/// numbers is held as the text that stands for it in a document.
#[derive(Debug, PartialEq, Eq)]
pub struct CFrame {
    components: Vec<String>,
}

impl Clone for CFrame {
    fn clone(&self) -> (copy: CFrame)
        ensures
            copy@ == self@,
    {
        proof {
            use_type_invariant(self);
        }
        let mut components: Vec<String> = Vec::new();
        let mut index: usize = 0;
        while index < self.components.len()
            invariant
                index <= self.components@.len(),
                components@ == self.components@.take(index as int),
            decreases self.components@.len() - index,
        {
            components.push(self.components[index].clone());
            assert(components@ =~= self.components@.take(index + 1));
            index = index + 1;
        }
        assert(components@ =~= self.components@);
        CFrame { components }
    }
}

impl View for CFrame {
    type V = Seq<Seq<char>>;

    closed spec fn view(&self) -> Seq<Seq<char>> {
        views_of(self.components@)
    }
}

impl CFrame {
    #[verifier::type_invariant]
    spec fn has_twelve_components(self) -> bool {
        self.components@.len() == 12
    }

    /// Makes a coordinate frame of its twelve numbers; any other number of
    /// numbers makes none.
    pub fn new(components: Vec<String>) -> (frame: Option<CFrame>)
        ensures
            frame is Some <==> components@.len() == 12,
            frame matches Some(frame) ==> frame@ == views_of(components@),
    {
        if components.len() == 12 {
            Some(CFrame { components })
        } else {
            None
        }
    }

    /// The twelve numbers.
    pub fn components(&self) -> (components: &Vec<String>)
        ensures
            components@.len() == 12,
            views_of(components@) == self@,
    {
        proof {
            use_type_invariant(self);
        }
        &self.components
    }
}

/// The names of the elements that hold the twelve numbers, in their order.
pub open spec fn component_tags() -> Seq<Seq<char>> {
    seq![
        "X"@,
        "Y"@,
        "Z"@,
        "R00"@,
        "R01"@,
        "R02"@,
        "R10"@,
        "R11"@,
        "R12"@,
        "R20"@,
        "R21"@,
        "R22"@,
    ]
}

/// The names of the elements that hold the twelve numbers, in their order.
fn component_tag_names() -> (tags: [&'static str; 12])
    ensures
        names_of(tags@) == component_tags(),
{
    let tags = ["X", "Y", "Z", "R00", "R01", "R02", "R10", "R11", "R12", "R20", "R21", "R22"];
    assert(names_of(tags@) =~= component_tags());
    tags
}

impl XmlType for CFrame {
    open spec fn xml_tag() -> Seq<char> {
        seq!['C', 'o', 'o', 'r', 'd', 'i', 'n', 'a', 't', 'e', 'F', 'r', 'a', 'm', 'e']
    }

    open spec fn xml_content(value: Seq<Seq<char>>) -> Seq<WrittenEvent> {
        tagged_array(value, component_tags(), 12)
    }

    open spec fn parsed(stream: Stream) -> Result<Seq<Seq<char>>, DecodeErrorView> {
        stream.tag_array(component_tags())
    }

    open spec fn parsed_rest(stream: Stream) -> Stream {
        stream.after_tag_array(component_tags())
    }

    fn xml_tag_name() -> (name: &'static str) {
        proof {
            reveal_strlit("CoordinateFrame");
        }
        assert("CoordinateFrame"@ =~= Self::xml_tag());
        "CoordinateFrame"
    }

    fn write_content(&self, writer: &mut XmlEventWriter) -> (result: Result<(), EncodeError>) {
        proof {
            use_type_invariant(self);
            lemma_tagged_array_is_balanced(self@, component_tags(), 12);
            assert(texts_of(self.components@) =~= self@);
        }
        let tags = component_tag_names();
        writer.write_tag_array(self.components.as_slice(), tags.as_slice())
    }

    fn read_content(reader: &mut XmlEventReader) -> (result: Result<CFrame, DecodeError>) {
        let tags = component_tag_names();
        match reader.read_tag_array(tags.as_slice()) {
            Ok(components) => Ok(CFrame { components }),
            Err(error) => Err(error),
        }
    }
}

} // verus!
