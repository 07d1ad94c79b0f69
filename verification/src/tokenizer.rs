use vstd::prelude::*;
use crate::grammar::Fault;
use crate::grammar::MAX_XREF_LEN;
use crate::grammar::Outcome;
use crate::grammar::after_terminator;
use crate::grammar::digit_value;
use crate::grammar::layout;
use crate::grammar::lemma_layout_ordered;
use crate::grammar::lemma_scanned_line_wf;
use crate::grammar::level_of;
use crate::grammar::scan_line;
use crate::grammar::value_end;
use crate::grammar::value_text;
use crate::grammar::xref_end;
use crate::grammar::xref_fits;
use crate::grammar::xref_text;
use crate::line::Line;
use crate::line::opt_text;
use crate::scan::CharClass;
use crate::scan::DELIMITER;
use crate::scan::TERMINATOR;
use crate::scan::XREF_MARK;
use crate::scan::belongs;
use crate::scan::lemma_line_index_bound;
use crate::scan::lemma_run_end;
use crate::scan::lemma_same_line;
use crate::scan::line_index;
use crate::scan::run_end;
use crate::scan::scan_run;
use crate::tag::Tag;
use crate::tag::is_tag_text;
use crate::text::chars_of;
use crate::text::text_of;

verus! {

/// Why a line could not be scanned. `line` is the index of the line in the
/// text, counted from zero; `level` is the level that the line had given
/// before the fault.
#[derive(Debug, Clone, PartialEq, Eq)]
pub enum TokenizerError {
    /// The line does not start with a level: one digit, or two digits of
    /// which the first is not zero.
    MalformedLevel { line: usize },
    /// The level is above the highest level. The scanner reads at most two
    /// digits, so it reports every such level as malformed instead.
    LevelOutOfRange { line: usize },
    /// A cross-reference identifier is longer than the limit.
    XrefTooLong { line: usize, level: u8 },
    /// The tag is neither in the standard vocabulary nor user-defined.
    UnknownTag { line: usize, level: u8, tag: String },
}

impl View for TokenizerError {
    type V = Fault;

    open spec fn view(&self) -> Fault {
        match self {
            TokenizerError::MalformedLevel { line } => Fault::MalformedLevel { line: *line as nat },
            TokenizerError::LevelOutOfRange { line } => Fault::LevelOutOfRange {
                line: *line as nat,
            },
            TokenizerError::XrefTooLong { line, level } => Fault::XrefTooLong {
                line: *line as nat,
                level: *level,
            },
            TokenizerError::UnknownTag { line, level, tag } => Fault::UnknownTag {
                line: *line as nat,
                level: *level,
                tag: tag@,
            },
        }
    }
}

/// What a call of `next_line` returned, as a plain value.
pub open spec fn outcome_of(r: Result<Option<Line>, TokenizerError>) -> Outcome {
    match r {
        Ok(None) => Outcome::End,
        Ok(Some(line)) => Outcome::Line(line@),
        Err(e) => Outcome::Fault(e@),
    }
}

/// A cursor over a text that reads it line by line.
#[derive(Debug)]
pub struct Tokenizer<'a> {
    content: &'a str,
    chars: Vec<char>,
    pos: usize,
    line: usize,
}

impl<'a> Tokenizer<'a> {
    /// The text that is read.
    pub closed spec fn input(&self) -> Seq<char> {
        self.chars@
    }

    /// The position of the cursor: the number of characters already read.
    pub closed spec fn cursor(&self) -> int {
        self.pos as int
    }

    /// The cursor lies within the text, and the tokenizer knows the index of
    /// the line it is in.
    pub closed spec fn wf(&self) -> bool {
        &&& self.chars@ == self.content@
        &&& self.pos <= self.chars.len()
        &&& self.line == line_index(self.chars@, self.pos as int)
    }

    /// The cursor of a well-formed tokenizer lies within its text.
    pub proof fn lemma_cursor_within(&self)
        requires
            self.wf(),
        ensures
            0 <= self.cursor() <= self.input().len(),
    {
    }

    /// The cursor is in the same line of the same text as that of `other`.
    pub open spec fn same_line(&self, other: &Self) -> bool {
        &&& self.input() == other.input()
        &&& line_index(self.input(), self.cursor()) == line_index(other.input(), other.cursor())
    }

    /// A tokenizer at the start of `content`.
    pub fn new(content: &'a str) -> (t: Self)
        ensures
            t.wf(),
            t.input() == content@,
            t.cursor() == 0,
    {
        Self { content, chars: chars_of(content), pos: 0, line: 0 }
    }

    /// The text that is read.
    pub fn content(&self) -> (content: &'a str)
        requires
            self.wf(),
        ensures
            content@ == self.input(),
    {
        self.content
    }

    /// The index of the line that the cursor is in, counted from zero.
    pub fn line(&self) -> (line: usize)
        requires
            self.wf(),
        ensures
            line == line_index(self.input(), self.cursor()),
    {
        self.line
    }

    /// The character under the cursor, or `None` where the text is
    /// exhausted. The cursor does not move.
    pub fn peek(&self) -> (c: Option<char>)
        requires
            self.wf(),
        ensures
            c == (if self.cursor() < self.input().len() {
                Some(self.input()[self.cursor()])
            } else {
                None
            }),
    {
        if self.pos < self.chars.len() {
            Some(self.chars[self.pos])
        } else {
            None
        }
    }

    /// Moves the cursor over the run of characters of `class` that starts
    /// under it.
    fn advance(&mut self, class: CharClass)
        requires
            old(self).wf(),
        ensures
            final(self).wf(),
            final(self).same_line(old(self)),
            final(self).cursor() == run_end(old(self).input(), old(self).cursor(), class),
            old(self).cursor() <= final(self).cursor() <= old(self).input().len(),
            final(self).same_line(old(self)),
    {
        let end = scan_run(&self.chars, self.pos, class);
        proof {
            lemma_run_end(self.chars@, self.pos as int, class);
            assert forall|k: int| self.pos <= k < end implies #[trigger] self.chars@[k]
                != TERMINATOR by {
                assert(belongs(self.chars@[k], class));
            }
            lemma_same_line(self.chars@, self.pos as int, end as int);
        }
        self.pos = end;
    }

    /// Skips the delimiters under the cursor.
    pub fn consume_delimiter(&mut self)
        requires
            old(self).wf(),
        ensures
            final(self).wf(),
            final(self).same_line(old(self)),
            final(self).cursor() == run_end(
                old(self).input(),
                old(self).cursor(),
                CharClass::Delimiter,
            ),
    {
        self.advance(CharClass::Delimiter);
    }

    /// Reads the level under the cursor: the run of digits there, which
    /// must be one digit, or two of which the first is not zero. The cursor
    /// moves behind the run in either case.
    pub fn get_level(&mut self) -> (r: Result<u8, TokenizerError>)
        requires
            old(self).wf(),
        ensures
            final(self).wf(),
            final(self).same_line(old(self)),
            final(self).cursor() == run_end(
                old(self).input(),
                old(self).cursor(),
                CharClass::Digit,
            ),
            match r {
                Ok(level) => level_of(
                    old(self).input().subrange(old(self).cursor(), final(self).cursor()),
                ) == Some(level),
                Err(e) => level_of(
                    old(self).input().subrange(old(self).cursor(), final(self).cursor()),
                ) is None && e@ == (Fault::MalformedLevel {
                    line: line_index(old(self).input(), old(self).cursor()),
                }),
            },
    {
        let start = self.pos;
        self.advance(CharClass::Digit);
        let end = self.pos;
        let ghost digits = self.chars@.subrange(start as int, end as int);
        proof {
            lemma_run_end(self.chars@, start as int, CharClass::Digit);
        }
        if end - start == 1 {
            assert(digits[0] == self.chars@[start as int]);
            Ok(digit_of(self.chars[start]))
        } else if end - start == 2 && self.chars[start] != '0' {
            assert(digits[0] == self.chars@[start as int]);
            assert(digits[1] == self.chars@[start + 1]);
            let high = digit_of(self.chars[start]);
            let low = digit_of(self.chars[start + 1]);
            Ok(10 * high + low)
        } else {
            assert(digits.len() == 2 ==> digits[0] == self.chars@[start as int]);
            Err(TokenizerError::MalformedLevel { line: self.line })
        }
    }

    /// Reads the cross-reference identifier under the cursor, if one starts
    /// there: the text from the opening mark up to the next delimiter or
    /// terminator. The cursor moves behind it, also where it is too long.
    pub fn get_ref_id(&mut self, level: u8) -> (r: Result<Option<String>, TokenizerError>)
        requires
            old(self).wf(),
        ensures
            final(self).wf(),
            final(self).same_line(old(self)),
            final(self).cursor() == xref_end(old(self).input(), old(self).cursor()),
            match r {
                Ok(id) => xref_fits(old(self).input(), old(self).cursor()) && opt_text(id)
                    == xref_text(old(self).input(), old(self).cursor()),
                Err(e) => !xref_fits(old(self).input(), old(self).cursor()) && e@
                    == (Fault::XrefTooLong {
                    line: line_index(old(self).input(), old(self).cursor()),
                    level,
                }),
            },
    {
        if self.pos < self.chars.len() && self.chars[self.pos] == XREF_MARK {
            let start = self.pos;
            self.advance(CharClass::Token);
            let end = self.pos;
            if end - start > MAX_XREF_LEN {
                Err(TokenizerError::XrefTooLong { line: self.line, level })
            } else {
                Ok(Some(text_of(&self.chars, start, end)))
            }
        } else {
            Ok(None)
        }
    }

    /// Reads the tag under the cursor: the text up to the next delimiter or
    /// terminator, which must be the text of a tag. The cursor moves behind
    /// it in either case.
    pub fn get_tag(&mut self, level: u8) -> (r: Result<Tag, TokenizerError>)
        requires
            old(self).wf(),
        ensures
            final(self).wf(),
            final(self).same_line(old(self)),
            final(self).cursor() == run_end(
                old(self).input(),
                old(self).cursor(),
                CharClass::Token,
            ),
            match r {
                Ok(tag) => tag.wf() && tag@ == old(self).input().subrange(
                    old(self).cursor(),
                    final(self).cursor(),
                ) && is_tag_text(tag@),
                Err(e) => !is_tag_text(
                    old(self).input().subrange(old(self).cursor(), final(self).cursor()),
                ) && e@ == (Fault::UnknownTag {
                    line: line_index(old(self).input(), old(self).cursor()),
                    level,
                    tag: old(self).input().subrange(old(self).cursor(), final(self).cursor()),
                }),
            },
    {
        let start = self.pos;
        self.advance(CharClass::Token);
        let end = self.pos;
        match Tag::classify(&self.chars, start, end) {
            Ok(tag) => Ok(tag),
            Err(unknown) => Err(
                TokenizerError::UnknownTag { line: self.line, level, tag: unknown.text },
            ),
        }
    }

    /// Reads the value of the line, if a delimiter is under the cursor: a
    /// pointer where the value starts with the mark of a cross-reference
    /// identifier, else the rest of the line as its text. An empty rest
    /// gives neither. The result is the pair of pointer and text.
    pub fn get_line_value(&mut self, level: u8) -> (r: Result<
        (Option<String>, Option<String>),
        TokenizerError,
    >)
        requires
            old(self).wf(),
        ensures
            final(self).wf(),
            final(self).same_line(old(self)),
            ({
                let s = old(self).input();
                let at = old(self).cursor();
                let start = run_end(s, at, CharClass::Delimiter);
                if at < s.len() && s[at] == DELIMITER {
                    &&& final(self).cursor() == value_end(s, start)
                    &&& match r {
                        Ok((pointer, value)) => {
                            &&& xref_fits(s, start)
                            &&& opt_text(pointer) == xref_text(s, start)
                            &&& opt_text(value) == value_text(s, start)
                        },
                        Err(e) => !xref_fits(s, start) && e@ == (Fault::XrefTooLong {
                            line: line_index(s, at),
                            level,
                        }),
                    }
                } else {
                    final(self).cursor() == at && r matches Ok((None, None))
                }
            }),
    {
        if self.peek() != Some(DELIMITER) {
            return Ok((None, None));
        }
        self.consume_delimiter();
        proof {
            lemma_run_end(self.input(), self.cursor(), CharClass::Payload);
        }
        match self.peek() {
            Some(c) => {
                if c == XREF_MARK {
                    match self.get_ref_id(level) {
                        Ok(pointer) => Ok((pointer, None)),
                        Err(e) => Err(e),
                    }
                } else if c != TERMINATOR {
                    let start = self.pos;
                    self.advance(CharClass::Payload);
                    let text = text_of(&self.chars, start, self.pos);
                    Ok((None, Some(text)))
                } else {
                    Ok((None, None))
                }
            },
            None => Ok((None, None)),
        }
    }

    /// Steps over the terminator under the cursor, if one is there.
    fn consume_terminator(&mut self)
        requires
            old(self).wf(),
        ensures
            final(self).wf(),
            final(self).input() == old(self).input(),
            final(self).cursor() == after_terminator(old(self).input(), old(self).cursor()),
    {
        if self.pos < self.chars.len() && self.chars[self.pos] == TERMINATOR {
            proof {
                lemma_line_index_bound(self.chars@, self.pos as int);
            }
            self.pos = self.pos + 1;
            self.line = self.line + 1;
        }
    }

    /// Reads the next line of the text. At the end of the text the result is
    /// `Ok(None)`. A malformed line gives an error, and the cursor stays
    /// behind the field that was at fault; `skip_line` then leads to the
    /// next line.
    pub fn next_line(&mut self) -> (r: Result<Option<Line>, TokenizerError>)
        requires
            old(self).wf(),
        ensures
            final(self).wf(),
            final(self).input() == old(self).input(),
            outcome_of(r) == scan_line(old(self).input(), old(self).cursor()).outcome,
            final(self).cursor() == scan_line(old(self).input(), old(self).cursor()).stop,
            r matches Ok(Some(line)) ==> line.wf(),
    {
        let ghost s = self.input();
        let ghost at = self.cursor();
        let ghost l = layout(s, at);
        proof {
            lemma_layout_ordered(s, at);
            lemma_scanned_line_wf(s, at);
        }
        if self.peek().is_none() {
            return Ok(None);
        }
        self.consume_delimiter();
        let level = match self.get_level() {
            Ok(level) => level,
            Err(e) => {
                return Err(e);
            },
        };
        self.consume_delimiter();
        let ref_id = match self.get_ref_id(level) {
            Ok(ref_id) => ref_id,
            Err(e) => {
                return Err(e);
            },
        };
        self.consume_delimiter();
        let tag = match self.get_tag(level) {
            Ok(tag) => tag,
            Err(e) => {
                return Err(e);
            },
        };
        proof {
            lemma_run_end(s, l.tag_start, CharClass::Token);
            lemma_run_end(s, l.tag_end, CharClass::Delimiter);
            lemma_run_end(s, l.tag_end, CharClass::Payload);
        }
        let (pointer, value) = match self.get_line_value(level) {
            Ok(pair) => pair,
            Err(e) => {
                return Err(e);
            },
        };
        self.consume_terminator();
        Ok(Some(Line { level, tag, ref_id, pointer, value }))
    }

    /// Moves the cursor to the start of the next line: behind the next
    /// terminator, or to the end of the text where there is none. After a
    /// fault this abandons the line that was at fault.
    pub fn skip_line(&mut self)
        requires
            old(self).wf(),
        ensures
            final(self).wf(),
            final(self).input() == old(self).input(),
            final(self).cursor() == after_terminator(
                old(self).input(),
                run_end(old(self).input(), old(self).cursor(), CharClass::Payload),
            ),
    {
        self.advance(CharClass::Payload);
        self.consume_terminator();
    }
}

/// The number that a decimal digit stands for.
fn digit_of(c: char) -> (v: u8)
    requires
        '0' <= c <= '9',
    ensures
        v == digit_value(c),
        v <= 9,
{
    match c {
        '0' => 0,
        '1' => 1,
        '2' => 2,
        '3' => 3,
        '4' => 4,
        '5' => 5,
        '6' => 6,
        '7' => 7,
        '8' => 8,
        _ => 9,
    }
}

} // verus!
