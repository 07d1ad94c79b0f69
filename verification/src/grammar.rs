use vstd::prelude::*;
use crate::line::LineView;
use crate::line::MAX_LEVEL;
use crate::scan::CharClass;
use crate::scan::TERMINATOR;
use crate::scan::XREF_MARK;
use crate::scan::line_index;
use crate::scan::run_end;
use crate::scan::lemma_run_end;
use crate::scan::lemma_run_end_unique;
use crate::tag::is_tag_text;

verus! {

/// The greatest length of a cross-reference identifier, its two enclosing
/// marks included.
pub const MAX_XREF_LEN: usize = 22;

/// Why a line could not be scanned. `line` is the index of the line in the
/// text, counted from zero; `level` is the level that the line had given
/// before the fault.
pub enum Fault {
    MalformedLevel { line: nat },
    LevelOutOfRange { line: nat },
    XrefTooLong { line: nat, level: u8 },
    UnknownTag { line: nat, level: u8, tag: Seq<char> },
}

/// What one scan of a line finds.
pub enum Outcome {
    /// The text is exhausted.
    End,
    /// A line.
    Line(LineView),
    /// The line is malformed.
    Fault(Fault),
}

/// The outcome of a scan and the position at which it stops.
pub struct Scan {
    pub outcome: Outcome,
    pub stop: int,
}

/// Where the fields of the line that starts at some position lie. Each
/// field is the part of the text from its start up to its end; an absent
/// field is empty.
pub struct Layout {
    pub level_start: int,
    pub level_end: int,
    pub xref_start: int,
    pub xref_end: int,
    pub tag_start: int,
    pub tag_end: int,
    pub value_start: int,
    pub value_end: int,
    /// The end of the line, after its terminator where it has one.
    pub end: int,
}

/// The number that a decimal digit stands for.
pub open spec fn digit_value(c: char) -> int {
    c as int - '0' as int
}

/// The digit that stands for a number below ten.
pub open spec fn digit_char(v: int) -> char {
    (v + '0' as int) as char
}

/// The level that a run of digits denotes: one digit, or two of which the
/// first is not zero. Any other run denotes no level.
pub open spec fn level_of(digits: Seq<char>) -> Option<u8> {
    if digits.len() == 1 {
        Some(digit_value(digits[0]) as u8)
    } else if digits.len() == 2 && digits[0] != '0' {
        Some((10 * digit_value(digits[0]) + digit_value(digits[1])) as u8)
    } else {
        None
    }
}

/// The decimal digits of a level, without a leading zero.
pub open spec fn level_digits(level: u8) -> Seq<char> {
    if level < 10 {
        seq![digit_char(level as int)]
    } else {
        seq![digit_char(level as int / 10), digit_char(level as int % 10)]
    }
}

/// Whether a cross-reference identifier starts at `at`.
pub open spec fn has_xref(s: Seq<char>, at: int) -> bool {
    0 <= at < s.len() && s[at] == XREF_MARK
}

/// The end of the cross-reference identifier that starts at `at`: it runs up
/// to the next delimiter or terminator. Where none starts at `at`, `at`.
pub open spec fn xref_end(s: Seq<char>, at: int) -> int {
    if has_xref(s, at) {
        run_end(s, at, CharClass::Token)
    } else {
        at
    }
}

/// The cross-reference identifier that starts at `at`, with its marks.
pub open spec fn xref_text(s: Seq<char>, at: int) -> Option<Seq<char>> {
    if has_xref(s, at) {
        Some(s.subrange(at, xref_end(s, at)))
    } else {
        None
    }
}

/// Whether the cross-reference identifier at `at` is within the limit.
pub open spec fn xref_fits(s: Seq<char>, at: int) -> bool {
    xref_end(s, at) - at <= MAX_XREF_LEN
}

/// The end of the line value that starts at `at`: a pointer ends as a
/// cross-reference identifier does, any other value at the end of the line.
pub open spec fn value_end(s: Seq<char>, at: int) -> int {
    if has_xref(s, at) {
        xref_end(s, at)
    } else {
        run_end(s, at, CharClass::Payload)
    }
}

/// The text that a line value carries: none where it is a pointer or empty.
pub open spec fn value_text(s: Seq<char>, at: int) -> Option<Seq<char>> {
    if !has_xref(s, at) && value_end(s, at) > at {
        Some(s.subrange(at, value_end(s, at)))
    } else {
        None
    }
}

/// The position after the terminator at `at`, or `at` where none is there.
pub open spec fn after_terminator(s: Seq<char>, at: int) -> int {
    if 0 <= at < s.len() && s[at] == TERMINATOR {
        at + 1
    } else {
        at
    }
}

/// The layout of the line that starts at `at`: delimiters, level,
/// delimiters, optional identifier, delimiters, tag, delimiters, optional
/// value, terminator.
pub open spec fn layout(s: Seq<char>, at: int) -> Layout {
    let level_start = run_end(s, at, CharClass::Delimiter);
    let level_end = run_end(s, level_start, CharClass::Digit);
    let xref_start = run_end(s, level_end, CharClass::Delimiter);
    let xref_end = xref_end(s, xref_start);
    let tag_start = run_end(s, xref_end, CharClass::Delimiter);
    let tag_end = run_end(s, tag_start, CharClass::Token);
    let value_start = run_end(s, tag_end, CharClass::Delimiter);
    let value_end = value_end(s, value_start);
    Layout {
        level_start,
        level_end,
        xref_start,
        xref_end,
        tag_start,
        tag_end,
        value_start,
        value_end,
        end: after_terminator(s, value_end),
    }
}

/// The scan of the line that starts at `at`. The fields are judged from
/// left to right, and the scan stops behind the first field that is at
/// fault: a level that is no level, an identifier that is too long, a tag
/// that is no tag, a pointer that is too long.
pub open spec fn scan_line(s: Seq<char>, at: int) -> Scan {
    let l = layout(s, at);
    let line = line_index(s, at);
    if at >= s.len() {
        Scan { outcome: Outcome::End, stop: at }
    } else {
        match level_of(s.subrange(l.level_start, l.level_end)) {
            None => Scan {
                outcome: Outcome::Fault(Fault::MalformedLevel { line }),
                stop: l.level_end,
            },
            Some(level) => {
                let tag = s.subrange(l.tag_start, l.tag_end);
                if !xref_fits(s, l.xref_start) {
                    Scan {
                        outcome: Outcome::Fault(Fault::XrefTooLong { line, level }),
                        stop: l.xref_end,
                    }
                } else if !is_tag_text(tag) {
                    Scan {
                        outcome: Outcome::Fault(Fault::UnknownTag { line, level, tag }),
                        stop: l.tag_end,
                    }
                } else if !xref_fits(s, l.value_start) {
                    Scan {
                        outcome: Outcome::Fault(Fault::XrefTooLong { line, level }),
                        stop: l.value_end,
                    }
                } else {
                    Scan {
                        outcome: Outcome::Line(
                            LineView {
                                level: level as nat,
                                tag,
                                ref_id: xref_text(s, l.xref_start),
                                pointer: xref_text(s, l.value_start),
                                value: value_text(s, l.value_start),
                            },
                        ),
                        stop: l.end,
                    }
                }
            },
        }
    }
}

/// The fields of a line lie in order within the text.
pub proof fn lemma_layout_ordered(s: Seq<char>, at: int)
    requires
        0 <= at <= s.len(),
    ensures
        ({
            let l = layout(s, at);
            &&& at <= l.level_start <= l.level_end <= l.xref_start <= l.xref_end <= l.tag_start
            &&& l.tag_start <= l.tag_end <= l.value_start <= l.value_end <= l.end <= s.len()
        }),
{
    let l = layout(s, at);
    lemma_run_end(s, at, CharClass::Delimiter);
    lemma_run_end(s, l.level_start, CharClass::Digit);
    lemma_run_end(s, l.level_end, CharClass::Delimiter);
    lemma_run_end(s, l.xref_start, CharClass::Token);
    lemma_run_end(s, l.xref_end, CharClass::Delimiter);
    lemma_run_end(s, l.tag_start, CharClass::Token);
    lemma_run_end(s, l.tag_end, CharClass::Delimiter);
    lemma_run_end(s, l.value_start, CharClass::Token);
    lemma_run_end(s, l.value_start, CharClass::Payload);
}

/// A level that is read from a run of digits is at most the highest level,
/// and its decimal digits are the run itself: what is read is what was
/// written. A run with a leading zero before another digit, an empty run
/// and a run of more than two digits give no level.
pub proof fn lemma_level_is_literal(digits: Seq<char>)
    requires
        forall|k: int| 0 <= k < digits.len() ==> '0' <= #[trigger] digits[k] <= '9',
    ensures
        level_of(digits) matches Some(level) ==> level <= MAX_LEVEL && level_digits(level)
            == digits,
        level_of(digits) is Some <==> (digits.len() == 1 || (digits.len() == 2 && digits[0]
            != '0')),
{
    if digits.len() == 1 {
        let d = digits[0];
        assert('0' <= d <= '9');
        assert(level_digits(level_of(digits)->0) =~= digits);
    } else if digits.len() == 2 && digits[0] != '0' {
        let d0 = digits[0];
        let d1 = digits[1];
        assert('0' <= d0 <= '9');
        assert('0' <= d1 <= '9');
        let v = 10 * digit_value(d0) + digit_value(d1);
        assert(10 <= v <= 99);
        assert(v / 10 == digit_value(d0));
        assert(v % 10 == digit_value(d1));
        assert(level_digits(level_of(digits)->0) =~= digits);
    }
}

/// The decimal digits of a level in range read back as that level.
pub proof fn lemma_level_digits_read_back(level: u8)
    requires
        level <= MAX_LEVEL,
    ensures
        level_of(level_digits(level)) == Some(level),
{
    if level >= 10 {
        let d0 = digit_char(level as int / 10);
        let d1 = digit_char(level as int % 10);
        assert(1 <= level as int / 10 <= 9);
        assert(0 <= level as int % 10 <= 9);
        assert(digit_value(d0) == level as int / 10);
        assert(digit_value(d1) == level as int % 10);
    }
}

/// Scanning a cross-reference identifier is exact and idempotent: the
/// identifier that is read at `at` is the text from the opening mark up to
/// the next delimiter or terminator, and scanning that identifier by itself
/// gives it back whole. It is within the limit exactly if it has at most
/// `MAX_XREF_LEN` characters.
pub proof fn lemma_xref_scan_exact(s: Seq<char>, at: int)
    requires
        has_xref(s, at),
    ensures
        ({
            let id = xref_text(s, at)->0;
            &&& xref_text(s, at) is Some
            &&& id.len() >= 1
            &&& id[0] == XREF_MARK
            &&& xref_text(id, 0) == Some(id)
            &&& xref_fits(s, at) <==> id.len() <= MAX_XREF_LEN
            &&& xref_fits(id, 0) <==> xref_fits(s, at)
        }),
{
    let end = xref_end(s, at);
    lemma_run_end(s, at, CharClass::Token);
    let id = s.subrange(at, end);
    assert(run_end(s, at, CharClass::Token) == run_end(s, at + 1, CharClass::Token));
    assert forall|k: int| 0 <= k < id.len() implies crate::scan::belongs(
        #[trigger] id[k],
        CharClass::Token,
    ) by {
        assert(id[k] == s[at + k]);
    }
    lemma_run_end_unique(id, 0, CharClass::Token, id.len() as int);
    assert(id.subrange(0, id.len() as int) =~= id);
}

/// The level of a line that is scanned is the level that the text spells
/// out: its decimal digits are the run of digits at the start of the line.
/// A line whose run of digits is empty, longer than two, or two digits
/// with a leading zero is refused as malformed, whatever follows the run.
pub proof fn lemma_line_level_is_written(s: Seq<char>, at: int)
    requires
        0 <= at < s.len(),
    ensures
        ({
            let l = layout(s, at);
            let digits = s.subrange(l.level_start, l.level_end);
            &&& scan_line(s, at).outcome matches Outcome::Line(line) ==> line.level <= MAX_LEVEL
                && level_digits(line.level as u8) == digits
            &&& (digits.len() == 0 || digits.len() > 2 || (digits.len() == 2 && digits[0] == '0'))
                <==> scan_line(s, at).outcome == Outcome::Fault(
                Fault::MalformedLevel { line: line_index(s, at) },
            )
        }),
{
    let l = layout(s, at);
    lemma_layout_ordered(s, at);
    lemma_run_end(s, l.level_start, CharClass::Digit);
    let digits = s.subrange(l.level_start, l.level_end);
    assert forall|k: int| 0 <= k < digits.len() implies '0' <= #[trigger] digits[k] <= '9' by {
        assert(digits[k] == s[l.level_start + k]);
    }
    lemma_level_is_literal(digits);
}

/// A line that is scanned from a text is well-formed.
pub proof fn lemma_scanned_line_wf(s: Seq<char>, at: int)
    requires
        0 <= at <= s.len(),
    ensures
        scan_line(s, at).outcome matches Outcome::Line(line) ==> line.wf(),
{
    let l = layout(s, at);
    lemma_layout_ordered(s, at);
    lemma_run_end(s, l.level_start, CharClass::Digit);
    let digits = s.subrange(l.level_start, l.level_end);
    assert forall|k: int| 0 <= k < digits.len() implies '0' <= #[trigger] digits[k] <= '9' by {
        assert(digits[k] == s[l.level_start + k]);
    }
    lemma_level_is_literal(digits);
}

} // verus!
