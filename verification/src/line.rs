use vstd::prelude::*;
use crate::tag::Tag;
use crate::tag::is_tag_text;

verus! {

/// The highest level that a line may have.
pub const MAX_LEVEL: u8 = 99;

/// One line of the text, taken apart:
/// level, optional identifier, tag, and an optional pointer or value.
#[derive(Debug, Clone, PartialEq, Eq)]
pub struct Line {
    /// The depth of the line in the hierarchy.
    pub level: u8,
    /// The keyword of the line.
    pub tag: Tag,
    /// The cross-reference identifier that the line defines, with its
    /// enclosing marks.
    pub ref_id: Option<String>,
    /// The cross-reference identifier that the line points to, with its
    /// enclosing marks.
    pub pointer: Option<String>,
    /// The text that the line carries.
    pub value: Option<String>,
}

/// A line as a plain value: every text is a sequence of characters, and the
/// tag is its text.
pub struct LineView {
    pub level: nat,
    pub tag: Seq<char>,
    pub ref_id: Option<Seq<char>>,
    pub pointer: Option<Seq<char>>,
    pub value: Option<Seq<char>>,
}

/// The characters of an optional string.
pub open spec fn opt_text(s: Option<String>) -> Option<Seq<char>> {
    match s {
        Some(text) => Some(text@),
        None => None,
    }
}

impl LineView {
    /// What holds of every line that is scanned from a text: the level is
    /// in range, the tag is one that a tag stands for, and the line does not
    /// carry both a pointer and a value.
    pub open spec fn wf(self) -> bool {
        &&& self.level <= MAX_LEVEL
        &&& is_tag_text(self.tag)
        &&& !(self.pointer is Some && self.value is Some)
    }
}

impl View for Line {
    type V = LineView;

    open spec fn view(&self) -> LineView {
        LineView {
            level: self.level as nat,
            tag: self.tag@,
            ref_id: opt_text(self.ref_id),
            pointer: opt_text(self.pointer),
            value: opt_text(self.value),
        }
    }
}

impl Line {
    /// The line's view is well-formed and its tag is a well-formed tag.
    pub open spec fn wf(&self) -> bool {
        self@.wf() && self.tag.wf()
    }
}

} // verus!
