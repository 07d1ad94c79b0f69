use vstd::prelude::*;

verus! {

/// The kinds of characters that a field of a line is made of.
#[derive(Debug, Clone, Copy, PartialEq, Eq)]
pub enum CharClass {
    /// The space that separates the fields of a line.
    Delimiter,
    /// A decimal digit, of which a level is made.
    Digit,
    /// Anything but a delimiter or a line terminator: tags and
    /// cross-reference identifiers are made of these.
    Token,
    /// Anything but a line terminator: a line value is made of these.
    Payload,
}

/// The delimiter between the fields of a line.
pub const DELIMITER: char = ' ';

/// The terminator of a line.
pub const TERMINATOR: char = '\n';

/// The character that encloses a cross-reference identifier.
pub const XREF_MARK: char = '@';

/// Whether `c` is of the given class.
pub open spec fn belongs(c: char, class: CharClass) -> bool {
    match class {
        CharClass::Delimiter => c == DELIMITER,
        CharClass::Digit => '0' <= c && c <= '9',
        CharClass::Token => c != DELIMITER && c != TERMINATOR,
        CharClass::Payload => c != TERMINATOR,
    }
}

/// The end of the longest run of characters of `class` that starts at
/// `from`: the first position at or after `from` that holds a character of
/// another class, or the end of the text.
pub open spec fn run_end(s: Seq<char>, from: int, class: CharClass) -> int
    decreases s.len() - from,
{
    if 0 <= from < s.len() && belongs(s[from], class) {
        run_end(s, from + 1, class)
    } else {
        from
    }
}

/// The number of line terminators before position `at`, which is the index
/// of the line that `at` lies in, counted from zero.
pub open spec fn line_index(s: Seq<char>, at: int) -> nat
    decreases at,
{
    if at <= 0 || at > s.len() {
        0
    } else if s[at - 1] == TERMINATOR {
        line_index(s, at - 1) + 1
    } else {
        line_index(s, at - 1)
    }
}

/// A run ends within the text, holds only characters of its class, and
/// cannot be extended.
pub proof fn lemma_run_end(s: Seq<char>, from: int, class: CharClass)
    requires
        0 <= from <= s.len(),
    ensures
        from <= run_end(s, from, class) <= s.len(),
        forall|k: int| from <= k < run_end(s, from, class) ==> belongs(#[trigger] s[k], class),
        run_end(s, from, class) < s.len() ==> !belongs(s[run_end(s, from, class)], class),
    decreases s.len() - from,
{
    if from < s.len() && belongs(s[from], class) {
        lemma_run_end(s, from + 1, class);
    }
}

/// The three properties of `lemma_run_end` determine the end of a run.
pub proof fn lemma_run_end_unique(s: Seq<char>, from: int, class: CharClass, end: int)
    requires
        0 <= from <= end <= s.len(),
        forall|k: int| from <= k < end ==> belongs(#[trigger] s[k], class),
        end < s.len() ==> !belongs(s[end], class),
    ensures
        run_end(s, from, class) == end,
    decreases end - from,
{
    if from < end {
        lemma_run_end_unique(s, from + 1, class, end);
    }
}

/// Positions between which no terminator lies are in the same line.
pub proof fn lemma_same_line(s: Seq<char>, from: int, to: int)
    requires
        0 <= from <= to <= s.len(),
        forall|k: int| from <= k < to ==> #[trigger] s[k] != TERMINATOR,
    ensures
        line_index(s, to) == line_index(s, from),
    decreases to - from,
{
    if from < to {
        lemma_same_line(s, from, to - 1);
    }
}

/// The index of a line is at most the number of characters before it.
pub proof fn lemma_line_index_bound(s: Seq<char>, at: int)
    requires
        0 <= at <= s.len(),
    ensures
        line_index(s, at) <= at,
    decreases at,
{
    if at > 0 {
        lemma_line_index_bound(s, at - 1);
    }
}

/// Whether `c` is of the given class.
pub fn is_member(c: char, class: CharClass) -> (b: bool)
    ensures
        b == belongs(c, class),
{
    match class {
        CharClass::Delimiter => c == DELIMITER,
        CharClass::Digit => '0' <= c && c <= '9',
        CharClass::Token => c != DELIMITER && c != TERMINATOR,
        CharClass::Payload => c != TERMINATOR,
    }
}

/// Finds the end of the run of `class` that starts at `from`.
pub fn scan_run(chars: &Vec<char>, from: usize, class: CharClass) -> (end: usize)
    requires
        from <= chars.len(),
    ensures
        end == run_end(chars@, from as int, class),
        from <= end <= chars.len(),
{
    let mut end: usize = from;
    while end < chars.len() && is_member(chars[end], class)
        invariant
            from <= end <= chars.len(),
            forall|k: int| from <= k < end ==> belongs(#[trigger] chars@[k], class),
        decreases chars.len() - end,
    {
        end = end + 1;
    }
    proof {
        lemma_run_end_unique(chars@, from as int, class, end as int);
    }
    end
}

} // verus!
