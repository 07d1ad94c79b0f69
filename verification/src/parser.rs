use vstd::prelude::*;
use crate::assembler::Assembler;
use crate::assembler::AssemblyError;
use crate::assembler::line_views;
use crate::document::Document;
use crate::grammar::Fault;
use crate::grammar::Outcome;
use crate::grammar::layout;
use crate::grammar::lemma_layout_ordered;
use crate::grammar::scan_line;
use crate::line::Line;
use crate::line::LineView;
use crate::rules::AssemblyFault;
use crate::rules::first_fault;
use crate::rules::level_fault;
use crate::rules::level_fits;
use crate::scan::CharClass;
use crate::scan::lemma_run_end;
use crate::tokenizer::Tokenizer;
use crate::tokenizer::TokenizerError;

verus! {

/// Why a text is no document: a line could not be scanned, or the lines
/// do not fit together.
#[derive(Debug, Clone, PartialEq, Eq)]
pub enum ParseError {
    /// A line could not be scanned. Its `line` counts the terminators
    /// before it in the text.
    Tokenizer(TokenizerError),
    /// The lines do not fit together. Its `line` counts the lines that were
    /// read before it.
    Assembly(AssemblyError),
}

/// A `ParseError` as a plain value.
pub enum ParseFault {
    Tokenizer(Fault),
    Assembly(AssemblyFault),
}

impl View for ParseError {
    type V = ParseFault;

    open spec fn view(&self) -> ParseFault {
        match self {
            ParseError::Tokenizer(e) => ParseFault::Tokenizer(e@),
            ParseError::Assembly(e) => ParseFault::Assembly(e@),
        }
    }
}

/// What is read from a text up to its end or to the first line that cannot
/// be scanned: the lines before that, the fault of that line if there is
/// one, and the position at which reading stops.
pub struct Reading {
    pub lines: Seq<LineView>,
    pub fault: Option<Fault>,
    pub stop: int,
}

/// The reading of the text `s` from position `at` on, line after line.
pub open spec fn read_from(s: Seq<char>, at: int) -> Reading
    decreases s.len() - at,
    when 0 <= at <= s.len()
    via read_from_decreases
{
    let scan = scan_line(s, at);
    match scan.outcome {
        Outcome::End => Reading { lines: Seq::empty(), fault: None, stop: scan.stop },
        Outcome::Fault(fault) => Reading {
            lines: Seq::empty(),
            fault: Some(fault),
            stop: scan.stop,
        },
        Outcome::Line(line) => {
            let rest = read_from(s, scan.stop);
            Reading { lines: seq![line] + rest.lines, fault: rest.fault, stop: rest.stop }
        },
    }
}

#[via_fn]
proof fn read_from_decreases(s: Seq<char>, at: int) {
    lemma_line_advances(s, at);
}

/// A scan that finds a line ends behind at least one character.
pub proof fn lemma_line_advances(s: Seq<char>, at: int)
    requires
        0 <= at <= s.len(),
    ensures
        scan_line(s, at).outcome is Line ==> at < scan_line(s, at).stop <= s.len(),
{
    let l = layout(s, at);
    lemma_layout_ordered(s, at);
    lemma_run_end(s, l.level_start, CharClass::Digit);
}

/// The level that a line had given before a fault in it, if it had.
pub open spec fn level_before(fault: Fault) -> Option<u8> {
    match fault {
        Fault::MalformedLevel { .. } => None,
        Fault::LevelOutOfRange { .. } => None,
        Fault::XrefTooLong { level, .. } => Some(level),
        Fault::UnknownTag { level, .. } => Some(level),
    }
}

/// Why lines that were read, and the fault of the line behind them that
/// could not be scanned, are no document, if they are none. Faults are
/// reported in the order of the text: a fault among the lines that were
/// read comes first; then, within the line that could not be scanned, a
/// level that does not fit behind those lines comes before the fault of a
/// later field.
pub open spec fn verdict(lines: Seq<LineView>, fault: Option<Fault>) -> Option<ParseFault> {
    match first_fault(lines) {
        Some(found) => Some(ParseFault::Assembly(found)),
        None => match fault {
            None => None,
            Some(fault) => match level_before(fault) {
                Some(level) => if level_fits(lines, level as nat) {
                    Some(ParseFault::Tokenizer(fault))
                } else {
                    Some(ParseFault::Assembly(level_fault(lines)))
                },
                None => Some(ParseFault::Tokenizer(fault)),
            },
        },
    }
}

/// The view of an optional error.
pub open spec fn opt_fault(fault: Option<TokenizerError>) -> Option<Fault> {
    match fault {
        Some(e) => Some(e@),
        None => None,
    }
}

impl TokenizerError {
    /// The level that the line had given before the fault, if it had.
    pub fn level(&self) -> (level: Option<u8>)
        ensures
            level == level_before(self@),
    {
        match self {
            TokenizerError::MalformedLevel { .. } => None,
            TokenizerError::LevelOutOfRange { .. } => None,
            TokenizerError::XrefTooLong { level, .. } => Some(*level),
            TokenizerError::UnknownTag { level, .. } => Some(*level),
        }
    }
}

/// Reads a text and assembles the document of its lines.
#[derive(Debug)]
pub struct Parser<'a> {
    content: &'a str,
    tokenizer: Tokenizer<'a>,
}

impl<'a> Parser<'a> {
    /// The text that is parsed.
    pub closed spec fn input(&self) -> Seq<char> {
        self.tokenizer.input()
    }

    /// The position up to which the text has been read.
    pub closed spec fn cursor(&self) -> int {
        self.tokenizer.cursor()
    }

    /// The parser's tokenizer is well-formed.
    pub closed spec fn wf(&self) -> bool {
        self.tokenizer.wf() && self.tokenizer.input() == self.content@
    }

    /// A parser at the start of `content`.
    pub fn new(content: &'a str) -> (p: Self)
        ensures
            p.wf(),
            p.input() == content@,
            p.cursor() == 0,
    {
        Self { content, tokenizer: Tokenizer::new(content) }
    }

    /// The text that is parsed.
    pub fn content(&self) -> (content: &'a str)
        requires
            self.wf(),
        ensures
            content@ == self.input(),
    {
        self.content
    }

    /// Judges what was read: `lines`, and `fault` where a line after them
    /// could not be scanned. The result is the document of the lines, or
    /// the first fault in the order of the text.
    pub fn conclude(lines: Vec<Line>, fault: Option<TokenizerError>) -> (r: Result<
        Document,
        ParseError,
    >)
        ensures
            match r {
                Ok(doc) => {
                    &&& verdict(line_views(lines@), opt_fault(fault)) is None
                    &&& doc.wf()
                    &&& doc.lines() == line_views(lines@)
                },
                Err(e) => verdict(line_views(lines@), opt_fault(fault)) == Some(e@),
            },
    {
        let fits = match &fault {
            Some(e) => match e.level() {
                Some(level) => {
                    if lines.len() == 0 {
                        level == 0
                    } else {
                        level as usize <= lines[lines.len() - 1].level as usize + 1
                    }
                },
                None => true,
            },
            None => true,
        };
        let count = lines.len();
        match Assembler::parse(lines) {
            Err(e) => Err(ParseError::Assembly(e)),
            Ok(doc) => match fault {
                None => Ok(doc),
                Some(e) => {
                    if fits {
                        Err(ParseError::Tokenizer(e))
                    } else if count == 0 {
                        Err(ParseError::Assembly(AssemblyError::OrphanRecord { line: count }))
                    } else {
                        Err(ParseError::Assembly(AssemblyError::LevelSkip { line: count }))
                    }
                },
            },
        }
    }

    /// Reads the text from the cursor to its end and assembles the document
    /// of its lines. Reading stops at the first line that cannot be
    /// scanned; the result is then the first fault in the order of the
    /// text, as `verdict` says.
    pub fn parse(&mut self) -> (r: Result<Document, ParseError>)
        requires
            old(self).wf(),
        ensures
            final(self).wf(),
            final(self).input() == old(self).input(),
            final(self).cursor() == read_from(old(self).input(), old(self).cursor()).stop,
            ({
                let reading = read_from(old(self).input(), old(self).cursor());
                match r {
                    Ok(doc) => {
                        &&& verdict(reading.lines, reading.fault) is None
                        &&& doc.wf()
                        &&& doc.lines() == reading.lines
                    },
                    Err(e) => verdict(reading.lines, reading.fault) == Some(e@),
                }
            }),
    {
        let ghost s = self.input();
        let ghost whole = read_from(s, self.cursor());
        let mut lines: Vec<Line> = Vec::new();
        let mut fault: Option<TokenizerError> = None;
        proof {
            self.tokenizer.lemma_cursor_within();
            assert(line_views(lines@) + whole.lines =~= whole.lines);
        }
        loop
            invariant_except_break
                fault is None,
                whole.lines == line_views(lines@) + read_from(s, self.cursor()).lines,
                whole.fault == read_from(s, self.cursor()).fault,
                whole.stop == read_from(s, self.cursor()).stop,
            invariant
                self.wf(),
                self.input() == s,
                0 <= self.cursor() <= s.len(),
            ensures
                whole.lines == line_views(lines@),
                whole.stop == self.cursor(),
                whole.fault == opt_fault(fault),
            decreases s.len() - self.cursor(),
        {
            let ghost at = self.cursor();
            let ghost seen = line_views(lines@);
            proof {
                lemma_line_advances(s, at);
            }
            let next = self.tokenizer.next_line();
            proof {
                self.tokenizer.lemma_cursor_within();
            }
            match next {
                Ok(None) => {
                    proof {
                        assert(seen + read_from(s, at).lines =~= seen);
                    }
                    break ;
                },
                Ok(Some(line)) => {
                    lines.push(line);
                    proof {
                        let rest = read_from(s, self.cursor());
                        assert(line_views(lines@) =~= seen.push(line@));
                        assert(seen + (seq![line@] + rest.lines) =~= seen.push(line@) + rest.lines);
                    }
                },
                Err(e) => {
                    proof {
                        assert(seen + read_from(s, at).lines =~= seen);
                    }
                    fault = Some(e);
                    break ;
                },
            }
        }
        Self::conclude(lines, fault)
    }
}

} // verus!
