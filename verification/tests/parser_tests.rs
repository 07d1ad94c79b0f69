use gedcom::AssemblyError;
use gedcom::Document;
use gedcom::Line;
use gedcom::ParseError;
use gedcom::Parser;
use gedcom::Tag;
use gedcom::TokenizerError;

fn document_of(text: &str) -> Document {
    match Parser::new(text).parse() {
        Ok(doc) => doc,
        Err(e) => panic!("the text was refused: {:?}", e),
    }
}

fn error_of(text: &str) -> ParseError {
    match Parser::new(text).parse() {
        Ok(_) => panic!("the text was parsed"),
        Err(e) => e,
    }
}

#[test]
fn individual_with_name_makes_one_tree() {
    let doc = document_of("0 @I1@ INDI\n1 NAME John /Doe/\n");
    let roots = doc.roots();
    assert_eq!(roots.len(), 1);
    assert_eq!(roots[0].tag, Tag::INDI);
    assert_eq!(roots[0].ref_id, Some("@I1@".to_string()));
    assert_eq!(roots[0].value, None);
    assert_eq!(roots[0].pointer, None);
    assert_eq!(roots[0].children.len(), 1);
    assert_eq!(roots[0].children[0].tag, Tag::NAME);
    assert_eq!(roots[0].children[0].value, Some("John /Doe/".to_string()));
    assert_eq!(roots[0].children[0].ref_id, None);
    assert!(roots[0].children[0].children.is_empty());
    assert_eq!(doc.resolve("@I1@"), Some(&roots[0]));
    assert!(doc.unresolved().is_empty());
}

#[test]
fn level_jump_is_a_level_skip() {
    assert_eq!(
        error_of("0 HEAD\n2 BAD\n"),
        ParseError::Assembly(AssemblyError::LevelSkip { line: 1 })
    );
    assert_eq!(
        error_of("0 HEAD\n2 NOTE\n"),
        ParseError::Assembly(AssemblyError::LevelSkip { line: 1 })
    );
}

#[test]
fn pointer_without_definition_is_listed() {
    let doc = document_of("0 @F1@ FAM\n1 HUSB @I1@\n");
    assert_eq!(
        doc.unresolved(),
        &vec![AssemblyError::UnresolvedXref { line: 1, target: "@I1@".to_string() }]
    );
    let roots = doc.roots();
    assert_eq!(roots.len(), 1);
    assert_eq!(roots[0].tag, Tag::FAM);
    assert_eq!(roots[0].children.len(), 1);
    assert_eq!(roots[0].children[0].tag, Tag::HUSB);
    assert_eq!(roots[0].children[0].pointer, Some("@I1@".to_string()));
    assert!(doc.resolve("@I1@").is_none());
    assert_eq!(doc.resolve("@F1@"), Some(&roots[0]));
}

#[test]
fn unknown_tag_at_a_fitting_level_is_a_tokenizer_error() {
    assert_eq!(
        error_of("0 HEAD\n1 BAD\n"),
        ParseError::Tokenizer(TokenizerError::UnknownTag {
            line: 1,
            level: 1,
            tag: "BAD".to_string()
        })
    );
}

#[test]
fn orphan_comes_before_a_later_fault_of_the_line() {
    assert_eq!(
        error_of("1 BAD\n"),
        ParseError::Assembly(AssemblyError::OrphanRecord { line: 0 })
    );
    let long = format!("3 @{}@ INDI\n", "A".repeat(30));
    assert_eq!(error_of(&long), ParseError::Assembly(AssemblyError::OrphanRecord { line: 0 }));
}

#[test]
fn earlier_structure_fault_comes_first() {
    assert_eq!(
        error_of("0 @I1@ INDI\n0 @I1@ INDI\n1 BAD\n"),
        ParseError::Assembly(AssemblyError::DuplicateXref { line: 1, ref_id: "@I1@".to_string() })
    );
}

#[test]
fn malformed_level_is_a_tokenizer_error() {
    assert_eq!(
        error_of("0 HEAD\n01 NOTE\n"),
        ParseError::Tokenizer(TokenizerError::MalformedLevel { line: 1 })
    );
    assert_eq!(
        error_of("0 HEAD\n\n0 TRLR\n"),
        ParseError::Tokenizer(TokenizerError::MalformedLevel { line: 1 })
    );
}

#[test]
fn overlong_pointer_is_a_tokenizer_error() {
    let text = format!("0 @F1@ FAM\n1 HUSB @{}@\n", "I".repeat(21));
    assert_eq!(
        error_of(&text),
        ParseError::Tokenizer(TokenizerError::XrefTooLong { line: 1, level: 1 })
    );
}

#[test]
fn empty_text_is_an_empty_document() {
    let doc = document_of("");
    assert!(doc.roots().is_empty());
    assert!(doc.unresolved().is_empty());
}

#[test]
fn whole_file() {
    let text = "0 HEAD\n1 SOUR demo\n2 VERS 1.0\n1 GEDC\n2 VERS 5.5.1\n1 CHAR UTF-8\n\
0 @I1@ INDI\n1 NAME John /Doe/\n2 GIVN John\n2 SURN Doe\n1 SEX M\n1 FAMS @F1@\n\
0 @I2@ INDI\n1 NAME Jane /Roe/\n1 SEX F\n1 FAMS @F1@\n\
0 @F1@ FAM\n1 HUSB @I1@\n1 WIFE @I2@\n1 CHIL @I3@\n1 _NOTE custom\n\
0 TRLR";
    let doc = document_of(text);
    let roots = doc.roots();
    assert_eq!(roots.len(), 5);
    assert_eq!(roots[0].children.len(), 3);
    assert_eq!(roots[1].children.len(), 3);
    assert_eq!(roots[1].children[0].children.len(), 2);
    assert_eq!(roots[3].children.len(), 4);
    assert_eq!(roots[3].children[3].tag, Tag::Custom("_NOTE".to_string()));
    assert_eq!(roots[4].tag, Tag::TRLR);
    assert_eq!(doc.resolve("@I2@"), Some(&roots[2]));
    assert_eq!(doc.resolve("@F1@"), Some(&roots[3]));
    assert_eq!(
        doc.unresolved(),
        &vec![AssemblyError::UnresolvedXref { line: 19, target: "@I3@".to_string() }]
    );
}

#[test]
fn parse_reads_on_from_the_cursor() {
    let mut parser = Parser::new("0 HEAD\n1 BAD\n0 TRLR\n");
    assert!(parser.parse().is_err());
    // The fault left the cursor behind the tag; what follows is no line.
    assert_eq!(
        parser.parse().err(),
        Some(ParseError::Tokenizer(TokenizerError::MalformedLevel { line: 1 }))
    );
}

#[test]
fn parser_knows_its_text() {
    let text = "0 HEAD\n";
    let mut parser = Parser::new(text);
    assert_eq!(parser.content(), text);
    assert!(parser.parse().is_ok());
    assert_eq!(parser.content(), text);
}

#[test]
fn conclude_judges_lines_and_fault() {
    let head = Line { level: 0, tag: Tag::HEAD, ref_id: None, pointer: None, value: None };
    let note = Line { level: 1, tag: Tag::NOTE, ref_id: None, pointer: None, value: None };
    let doc = Parser::conclude(vec![head.clone(), note.clone()], None).ok().unwrap();
    assert_eq!(doc.roots().len(), 1);
    assert_eq!(doc.roots()[0].children.len(), 1);
    let fault = TokenizerError::UnknownTag { line: 2, level: 2, tag: "X".to_string() };
    assert_eq!(
        Parser::conclude(vec![head.clone(), note.clone()], Some(fault.clone())).err(),
        Some(ParseError::Tokenizer(fault))
    );
    let deep = TokenizerError::UnknownTag { line: 2, level: 3, tag: "X".to_string() };
    assert_eq!(
        Parser::conclude(vec![head.clone(), note.clone()], Some(deep)).err(),
        Some(ParseError::Assembly(AssemblyError::LevelSkip { line: 2 }))
    );
    let malformed = TokenizerError::MalformedLevel { line: 2 };
    assert_eq!(
        Parser::conclude(vec![head.clone(), note], Some(malformed.clone())).err(),
        Some(ParseError::Tokenizer(malformed.clone()))
    );
    assert_eq!(
        Parser::conclude(vec![head.clone(), head], Some(malformed.clone())).err(),
        Some(ParseError::Tokenizer(malformed))
    );
}
