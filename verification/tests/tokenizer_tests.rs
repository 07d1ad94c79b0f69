use gedcom::Line;
use gedcom::Tag;
use gedcom::Tokenizer;
use gedcom::TokenizerError;

fn line(
    level: u8,
    tag: Tag,
    ref_id: Option<&str>,
    pointer: Option<&str>,
    value: Option<&str>,
) -> Line {
    Line {
        level,
        tag,
        ref_id: ref_id.map(|s| s.to_string()),
        pointer: pointer.map(|s| s.to_string()),
        value: value.map(|s| s.to_string()),
    }
}

fn scan_all(text: &str) -> Vec<Result<Line, TokenizerError>> {
    let mut tokenizer = Tokenizer::new(text);
    let mut out = Vec::new();
    loop {
        match tokenizer.next_line() {
            Ok(None) => break,
            Ok(Some(line)) => out.push(Ok(line)),
            Err(e) => {
                out.push(Err(e));
                tokenizer.skip_line();
            }
        }
    }
    out
}

fn first(text: &str) -> Result<Option<Line>, TokenizerError> {
    Tokenizer::new(text).next_line()
}

#[test]
fn individual_with_name() {
    let lines = scan_all("0 @I1@ INDI\n1 NAME John /Doe/\n");
    assert_eq!(
        lines,
        vec![
            Ok(line(0, Tag::INDI, Some("@I1@"), None, None)),
            Ok(line(1, Tag::NAME, None, None, Some("John /Doe/"))),
        ]
    );
}

#[test]
fn empty_text_has_no_line() {
    assert_eq!(first(""), Ok(None));
    let mut tokenizer = Tokenizer::new("");
    assert_eq!(tokenizer.peek(), None);
    assert_eq!(tokenizer.next_line(), Ok(None));
    assert_eq!(tokenizer.next_line(), Ok(None));
}

#[test]
fn level_zero_is_accepted() {
    assert_eq!(first("0 HEAD"), Ok(Some(line(0, Tag::HEAD, None, None, None))));
}

#[test]
fn level_with_leading_zero_is_rejected() {
    assert_eq!(first("02 NAME x\n"), Err(TokenizerError::MalformedLevel { line: 0 }));
    assert_eq!(first("00 HEAD\n"), Err(TokenizerError::MalformedLevel { line: 0 }));
}

#[test]
fn level_is_the_digit_run() {
    assert_eq!(first("7 NOTE a"), Ok(Some(line(7, Tag::NOTE, None, None, Some("a")))));
    assert_eq!(first("10 NOTE a"), Ok(Some(line(10, Tag::NOTE, None, None, Some("a")))));
    assert_eq!(first("42 NOTE a"), Ok(Some(line(42, Tag::NOTE, None, None, Some("a")))));
    assert_eq!(first("99 NOTE a"), Ok(Some(line(99, Tag::NOTE, None, None, Some("a")))));
}

#[test]
fn every_level_reads_back() {
    let mut level: u8 = 0;
    while level <= 99 {
        let text = format!("{} NOTE\n", level);
        assert_eq!(first(&text), Ok(Some(line(level, Tag::NOTE, None, None, None))));
        level += 1;
    }
}

#[test]
fn level_of_three_digits_is_rejected() {
    assert_eq!(first("100 NAME x\n"), Err(TokenizerError::MalformedLevel { line: 0 }));
    assert_eq!(first("007 NAME x\n"), Err(TokenizerError::MalformedLevel { line: 0 }));
}

#[test]
fn missing_level_is_rejected() {
    assert_eq!(first("NAME x\n"), Err(TokenizerError::MalformedLevel { line: 0 }));
    assert_eq!(first("\n"), Err(TokenizerError::MalformedLevel { line: 0 }));
    assert_eq!(first("   "), Err(TokenizerError::MalformedLevel { line: 0 }));
    assert_eq!(first("-1 NAME x\n"), Err(TokenizerError::MalformedLevel { line: 0 }));
}

#[test]
fn leading_delimiters_are_skipped() {
    assert_eq!(
        first("   1   NAME   x y  "),
        Ok(Some(line(1, Tag::NAME, None, None, Some("x y  "))))
    );
}

#[test]
fn xref_round_trips() {
    let scanned = first("0 @I1@ INDI\n").unwrap().unwrap();
    let id = scanned.ref_id.unwrap();
    assert_eq!(id, "@I1@");
    assert_eq!(id.chars().count(), 4);
    let again = first(&format!("0 {} INDI\n", id)).unwrap().unwrap();
    assert_eq!(again.ref_id, Some(id));
}

#[test]
fn xref_of_22_characters_is_accepted() {
    let id = format!("@{}@", "A".repeat(20));
    assert_eq!(id.chars().count(), 22);
    assert_eq!(
        first(&format!("0 {} INDI\n", id)),
        Ok(Some(line(0, Tag::INDI, Some(&id), None, None)))
    );
    assert_eq!(
        first(&format!("1 HUSB {}\n", id)),
        Ok(Some(line(1, Tag::HUSB, None, Some(&id), None)))
    );
}

#[test]
fn xref_of_23_characters_is_rejected() {
    let id = format!("@{}@", "A".repeat(21));
    assert_eq!(id.chars().count(), 23);
    assert_eq!(
        first(&format!("0 {} INDI\n", id)),
        Err(TokenizerError::XrefTooLong { line: 0, level: 0 })
    );
    assert_eq!(
        first(&format!("1 HUSB {}\n", id)),
        Err(TokenizerError::XrefTooLong { line: 0, level: 1 })
    );
}

#[test]
fn xref_length_counts_characters_not_bytes() {
    let id = format!("@{}@", "\u{e9}".repeat(20));
    assert_eq!(id.chars().count(), 22);
    assert_eq!(
        first(&format!("0 {} INDI\n", id)),
        Ok(Some(line(0, Tag::INDI, Some(&id), None, None)))
    );
}

#[test]
fn pointer_is_not_a_value() {
    assert_eq!(
        first("1 HUSB @I1@\n"),
        Ok(Some(line(1, Tag::HUSB, None, Some("@I1@"), None)))
    );
}

#[test]
fn value_may_hold_marks_and_delimiters() {
    assert_eq!(
        first("1 NOTE see @I1@ and more\n"),
        Ok(Some(line(1, Tag::NOTE, None, None, Some("see @I1@ and more"))))
    );
}

#[test]
fn line_without_value_has_neither() {
    assert_eq!(first("0 TRLR\n"), Ok(Some(line(0, Tag::TRLR, None, None, None))));
    assert_eq!(first("0 TRLR"), Ok(Some(line(0, Tag::TRLR, None, None, None))));
}

#[test]
fn empty_value_region_is_no_value() {
    assert_eq!(first("1 NOTE \n"), Ok(Some(line(1, Tag::NOTE, None, None, None))));
    assert_eq!(first("1 NOTE    "), Ok(Some(line(1, Tag::NOTE, None, None, None))));
    assert_eq!(first("1 NOTE "), Ok(Some(line(1, Tag::NOTE, None, None, None))));
}

#[test]
fn last_line_may_be_unterminated() {
    let lines = scan_all("0 HEAD\n1 CHAR UTF-8");
    assert_eq!(
        lines,
        vec![
            Ok(line(0, Tag::HEAD, None, None, None)),
            Ok(line(1, Tag::CHAR, None, None, Some("UTF-8"))),
        ]
    );
}

#[test]
fn custom_tag_keeps_its_text() {
    assert_eq!(
        first("1 _UID 12345\n"),
        Ok(Some(line(1, Tag::Custom("_UID".to_string()), None, None, Some("12345"))))
    );
    assert_eq!(first("1 _\n"), Ok(Some(line(1, Tag::Custom("_".to_string()), None, None, None))));
}

#[test]
fn unknown_tag_is_named_with_its_line() {
    let lines = scan_all("0 HEAD\n1 BOGUS x\n0 TRLR\n");
    assert_eq!(
        lines,
        vec![
            Ok(line(0, Tag::HEAD, None, None, None)),
            Err(TokenizerError::UnknownTag { line: 1, level: 1, tag: "BOGUS".to_string() }),
            Ok(line(0, Tag::TRLR, None, None, None)),
        ]
    );
}

#[test]
fn tags_are_case_sensitive() {
    assert_eq!(
        first("0 head\n"),
        Err(TokenizerError::UnknownTag { line: 0, level: 0, tag: "head".to_string() })
    );
}

#[test]
fn missing_tag_is_unknown() {
    assert_eq!(
        first("0\n"),
        Err(TokenizerError::UnknownTag { line: 0, level: 0, tag: String::new() })
    );
    assert_eq!(
        first("0 @I1@\n"),
        Err(TokenizerError::UnknownTag { line: 0, level: 0, tag: String::new() })
    );
}

#[test]
fn fault_leaves_the_rest_of_the_line() {
    let mut tokenizer = Tokenizer::new("1 BOGUS x\n0 TRLR\n");
    assert!(tokenizer.next_line().is_err());
    assert_eq!(tokenizer.peek(), Some(' '));
    tokenizer.skip_line();
    assert_eq!(tokenizer.peek(), Some('0'));
    assert_eq!(tokenizer.next_line(), Ok(Some(line(0, Tag::TRLR, None, None, None))));
    assert_eq!(tokenizer.next_line(), Ok(None));
}

#[test]
fn skip_line_stops_at_the_end() {
    let mut tokenizer = Tokenizer::new("abc");
    tokenizer.skip_line();
    assert_eq!(tokenizer.peek(), None);
    tokenizer.skip_line();
    assert_eq!(tokenizer.peek(), None);
}

#[test]
fn faults_count_lines_from_zero() {
    let lines = scan_all("0 HEAD\n1 NOTE a\nx\n1 NOTE b\n\n");
    assert_eq!(lines.len(), 5);
    assert_eq!(lines[2], Err(TokenizerError::MalformedLevel { line: 2 }));
    assert_eq!(lines[4], Err(TokenizerError::MalformedLevel { line: 4 }));
}

#[test]
fn text_behind_a_pointer_is_left_for_the_next_scan() {
    let mut tokenizer = Tokenizer::new("1 HUSB @I1@ rest\n");
    assert_eq!(
        tokenizer.next_line(),
        Ok(Some(line(1, Tag::HUSB, None, Some("@I1@"), None)))
    );
    assert_eq!(tokenizer.peek(), Some(' '));
    assert_eq!(tokenizer.next_line(), Err(TokenizerError::MalformedLevel { line: 0 }));
}

#[test]
fn line_may_define_and_point() {
    // Whether a line may both define an identifier and point to another is
    // left open by the format's grammar; the scanner allows it.
    assert_eq!(
        first("0 @F1@ FAM @I1@\n"),
        Ok(Some(line(0, Tag::FAM, Some("@F1@"), Some("@I1@"), None)))
    );
}

#[test]
fn steps_of_a_line() {
    let mut tokenizer = Tokenizer::new("  12 @X@ NAME  Jo\nrest");
    tokenizer.consume_delimiter();
    assert_eq!(tokenizer.peek(), Some('1'));
    assert_eq!(tokenizer.get_level(), Ok(12));
    tokenizer.consume_delimiter();
    assert_eq!(tokenizer.get_ref_id(12), Ok(Some("@X@".to_string())));
    assert_eq!(tokenizer.get_ref_id(12), Ok(None));
    tokenizer.consume_delimiter();
    assert_eq!(tokenizer.get_tag(12), Ok(Tag::NAME));
    assert_eq!(tokenizer.get_line_value(12), Ok((None, Some("Jo".to_string()))));
    assert_eq!(tokenizer.peek(), Some('\n'));
    assert_eq!(tokenizer.get_line_value(12), Ok((None, None)));
    assert_eq!(tokenizer.peek(), Some('\n'));
}

#[test]
fn tokenizer_knows_its_text_and_line() {
    let text = "0 HEAD\n1 SOUR x\n0 TRLR";
    let mut tokenizer = Tokenizer::new(text);
    assert_eq!(tokenizer.content(), text);
    assert_eq!(tokenizer.line(), 0);
    assert!(tokenizer.next_line().is_ok());
    assert_eq!(tokenizer.line(), 1);
    assert!(tokenizer.next_line().is_ok());
    assert_eq!(tokenizer.line(), 2);
    assert!(tokenizer.next_line().is_ok());
    assert_eq!(tokenizer.line(), 2);
    assert_eq!(tokenizer.next_line(), Ok(None));
    assert_eq!(tokenizer.content(), text);
}

#[test]
fn fault_knows_its_level() {
    assert_eq!(TokenizerError::MalformedLevel { line: 3 }.level(), None);
    assert_eq!(TokenizerError::LevelOutOfRange { line: 3 }.level(), None);
    assert_eq!(TokenizerError::XrefTooLong { line: 3, level: 7 }.level(), Some(7));
    assert_eq!(
        TokenizerError::UnknownTag { line: 3, level: 2, tag: "X".to_string() }.level(),
        Some(2)
    );
}
