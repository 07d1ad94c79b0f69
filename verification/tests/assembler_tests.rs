use gedcom::Assembler;
use gedcom::AssemblyError;
use gedcom::Document;
use gedcom::Line;
use gedcom::Record;
use gedcom::Tag;

fn line(
    level: u8,
    tag: Tag,
    ref_id: Option<&str>,
    pointer: Option<&str>,
    value: Option<&str>,
) -> Line {
    Line {
        level,
        tag,
        ref_id: ref_id.map(|s| s.to_string()),
        pointer: pointer.map(|s| s.to_string()),
        value: value.map(|s| s.to_string()),
    }
}

fn plain(level: u8, tag: Tag) -> Line {
    line(level, tag, None, None, None)
}

fn read_back(records: &Vec<Record>, level: u8, out: &mut Vec<Line>) {
    for record in records {
        out.push(Line {
            level,
            tag: record.tag.clone(),
            ref_id: record.ref_id.clone(),
            pointer: record.pointer.clone(),
            value: record.value.clone(),
        });
        read_back(&record.children, level + 1, out);
    }
}

fn lines_of(doc: &Document) -> Vec<Line> {
    let mut out = Vec::new();
    read_back(doc.roots(), 0, &mut out);
    out
}

fn error_of(lines: Vec<Line>) -> AssemblyError {
    match Assembler::parse(lines) {
        Ok(_) => panic!("the lines were assembled"),
        Err(e) => e,
    }
}

fn document_of(lines: Vec<Line>) -> Document {
    match Assembler::parse(lines) {
        Ok(doc) => doc,
        Err(e) => panic!("the lines were refused: {:?}", e),
    }
}

#[test]
fn no_lines_make_an_empty_document() {
    let doc = document_of(Vec::new());
    assert!(doc.roots().is_empty());
    assert!(doc.unresolved().is_empty());
    assert!(doc.resolve("@I1@").is_none());
}

#[test]
fn tree_follows_the_levels() {
    let lines = vec![
        plain(0, Tag::HEAD),
        plain(1, Tag::SOUR),
        plain(2, Tag::VERS),
        plain(2, Tag::NAME),
        plain(1, Tag::GEDC),
        plain(2, Tag::VERS),
        line(0, Tag::INDI, Some("@I1@"), None, None),
        line(1, Tag::NAME, None, None, Some("John /Doe/")),
        plain(0, Tag::TRLR),
    ];
    let doc = document_of(lines);
    let roots = doc.roots();
    assert_eq!(roots.len(), 3);
    assert_eq!(roots[0].tag, Tag::HEAD);
    assert_eq!(roots[0].children.len(), 2);
    assert_eq!(roots[0].children[0].tag, Tag::SOUR);
    assert_eq!(roots[0].children[0].children.len(), 2);
    assert_eq!(roots[0].children[0].children[0].tag, Tag::VERS);
    assert_eq!(roots[0].children[0].children[1].tag, Tag::NAME);
    assert_eq!(roots[0].children[1].tag, Tag::GEDC);
    assert_eq!(roots[0].children[1].children.len(), 1);
    assert_eq!(roots[1].tag, Tag::INDI);
    assert_eq!(roots[1].children.len(), 1);
    assert_eq!(roots[1].children[0].value, Some("John /Doe/".to_string()));
    assert_eq!(roots[2].tag, Tag::TRLR);
    assert!(roots[2].children.is_empty());
}

#[test]
fn document_reads_back_as_its_lines() {
    let lines = vec![
        plain(0, Tag::HEAD),
        plain(1, Tag::SOUR),
        line(2, Tag::VERS, None, None, Some("5.5.1")),
        plain(3, Tag::NOTE),
        plain(1, Tag::GEDC),
        line(0, Tag::FAM, Some("@F1@"), None, None),
        line(1, Tag::HUSB, None, Some("@I1@"), None),
        line(1, Tag::WIFE, None, Some("@I2@"), None),
        line(0, Tag::INDI, Some("@I1@"), None, None),
        line(1, Tag::Custom("_UID".to_string()), None, None, Some("77")),
        plain(0, Tag::TRLR),
    ];
    let doc = document_of(lines.clone());
    assert_eq!(lines_of(&doc), lines);
}

#[test]
fn level_may_fall_by_any_amount() {
    let lines = vec![
        plain(0, Tag::HEAD),
        plain(1, Tag::SOUR),
        plain(2, Tag::CORP),
        plain(3, Tag::ADDR),
        plain(4, Tag::CITY),
        plain(0, Tag::TRLR),
    ];
    let doc = document_of(lines.clone());
    assert_eq!(doc.roots().len(), 2);
    assert_eq!(lines_of(&doc), lines);
}

#[test]
fn level_skip_is_refused() {
    assert_eq!(
        error_of(vec![plain(0, Tag::HEAD), plain(2, Tag::NOTE)]),
        AssemblyError::LevelSkip { line: 1 }
    );
    assert_eq!(
        error_of(vec![
            plain(0, Tag::HEAD),
            plain(1, Tag::SOUR),
            plain(0, Tag::INDI),
            plain(2, Tag::NOTE),
        ]),
        AssemblyError::LevelSkip { line: 3 }
    );
}

#[test]
fn first_line_above_level_zero_is_an_orphan() {
    assert_eq!(error_of(vec![plain(1, Tag::NAME)]), AssemblyError::OrphanRecord { line: 0 });
    assert_eq!(
        error_of(vec![plain(3, Tag::NAME), plain(0, Tag::HEAD)]),
        AssemblyError::OrphanRecord { line: 0 }
    );
}

#[test]
fn duplicate_xref_is_refused() {
    let lines = vec![
        line(0, Tag::INDI, Some("@I1@"), None, None),
        plain(1, Tag::NAME),
        line(0, Tag::INDI, Some("@I1@"), None, None),
    ];
    assert_eq!(
        error_of(lines),
        AssemblyError::DuplicateXref { line: 2, ref_id: "@I1@".to_string() }
    );
}

#[test]
fn level_is_judged_before_the_identifier() {
    let lines = vec![
        line(0, Tag::INDI, Some("@I1@"), None, None),
        line(2, Tag::NOTE, Some("@I1@"), None, None),
    ];
    assert_eq!(error_of(lines), AssemblyError::LevelSkip { line: 1 });
}

#[test]
fn first_fault_is_reported() {
    let lines = vec![
        line(0, Tag::INDI, Some("@I1@"), None, None),
        line(0, Tag::INDI, Some("@I1@"), None, None),
        plain(2, Tag::NOTE),
    ];
    assert_eq!(
        error_of(lines),
        AssemblyError::DuplicateXref { line: 1, ref_id: "@I1@".to_string() }
    );
}

#[test]
fn forward_reference_resolves() {
    let lines = vec![
        line(0, Tag::INDI, Some("@I1@"), None, None),
        line(1, Tag::FAMS, None, Some("@F1@"), None),
        line(0, Tag::FAM, Some("@F1@"), None, None),
        line(1, Tag::HUSB, None, Some("@I1@"), None),
    ];
    let doc = document_of(lines);
    assert!(doc.unresolved().is_empty());
    let family = doc.resolve("@F1@").unwrap();
    assert_eq!(family.tag, Tag::FAM);
    assert_eq!(family.ref_id, Some("@F1@".to_string()));
    assert_eq!(family.children.len(), 1);
    assert_eq!(family.children[0].tag, Tag::HUSB);
    let pointer = doc.roots()[0].children[0].pointer.clone().unwrap();
    assert_eq!(doc.resolve(&pointer).unwrap(), family);
    let person = doc.resolve("@I1@").unwrap();
    assert_eq!(person.tag, Tag::INDI);
    assert_eq!(person, &doc.roots()[0]);
}

#[test]
fn identifier_below_level_zero_resolves() {
    let lines = vec![
        plain(0, Tag::HEAD),
        plain(1, Tag::SOUR),
        line(2, Tag::NOTE, Some("@N1@"), None, Some("deep")),
        plain(3, Tag::CONT),
        plain(1, Tag::DEST),
        line(1, Tag::NOTE, Some("@N2@"), None, Some("later")),
        line(0, Tag::INDI, None, Some("@N1@"), None),
    ];
    let doc = document_of(lines);
    let deep = doc.resolve("@N1@").unwrap();
    assert_eq!(deep.value, Some("deep".to_string()));
    assert_eq!(deep.children.len(), 1);
    assert_eq!(deep, &doc.roots()[0].children[0].children[0]);
    let later = doc.resolve("@N2@").unwrap();
    assert_eq!(later.value, Some("later".to_string()));
    assert_eq!(later, &doc.roots()[0].children[2]);
    assert!(doc.resolve("@N3@").is_none());
    assert!(doc.unresolved().is_empty());
}

#[test]
fn dangling_pointers_are_listed_in_order() {
    let lines = vec![
        line(0, Tag::FAM, Some("@F1@"), None, None),
        line(1, Tag::HUSB, None, Some("@I1@"), None),
        line(1, Tag::WIFE, None, Some("@I2@"), None),
        line(1, Tag::CHIL, None, Some("@I3@"), None),
        line(0, Tag::INDI, Some("@I2@"), None, None),
        line(1, Tag::FAMS, None, Some("@F1@"), None),
        line(1, Tag::FAMC, None, Some("@I1@"), None),
    ];
    let doc = document_of(lines);
    assert_eq!(
        doc.unresolved(),
        &vec![
            AssemblyError::UnresolvedXref { line: 1, target: "@I1@".to_string() },
            AssemblyError::UnresolvedXref { line: 3, target: "@I3@".to_string() },
            AssemblyError::UnresolvedXref { line: 6, target: "@I1@".to_string() },
        ]
    );
    assert_eq!(doc.roots().len(), 2);
    assert!(doc.resolve("@I1@").is_none());
    assert!(doc.resolve("@I2@").is_some());
}

#[test]
fn line_that_defines_and_points_is_both() {
    // A line that carries both an identifier and a pointer is taken as it
    // is: its record is the target of the one and the source of the other.
    let lines = vec![
        line(0, Tag::FAM, Some("@F1@"), Some("@F1@"), None),
        line(0, Tag::FAM, Some("@F2@"), Some("@F9@"), None),
    ];
    let doc = document_of(lines);
    assert_eq!(doc.resolve("@F1@").unwrap().pointer, Some("@F1@".to_string()));
    assert_eq!(
        doc.unresolved(),
        &vec![AssemblyError::UnresolvedXref { line: 1, target: "@F9@".to_string() }]
    );
}

#[test]
fn refused_line_leaves_the_assembler_as_it_was() {
    let mut assembler = Assembler::new();
    assert_eq!(assembler.len(), 0);
    assert_eq!(assembler.feed(plain(1, Tag::NAME)), Err(AssemblyError::OrphanRecord { line: 0 }));
    assert_eq!(assembler.len(), 0);
    assert_eq!(assembler.feed(line(0, Tag::INDI, Some("@I1@"), None, None)), Ok(()));
    assert_eq!(assembler.feed(plain(2, Tag::NOTE)), Err(AssemblyError::LevelSkip { line: 1 }));
    assert_eq!(
        assembler.feed(line(1, Tag::NOTE, Some("@I1@"), None, None)),
        Err(AssemblyError::DuplicateXref { line: 1, ref_id: "@I1@".to_string() })
    );
    assert_eq!(assembler.len(), 1);
    assert_eq!(assembler.check_level(1), Ok(()));
    assert_eq!(assembler.check_level(0), Ok(()));
    assert_eq!(assembler.check_level(2), Err(AssemblyError::LevelSkip { line: 1 }));
    assert_eq!(assembler.feed(plain(1, Tag::NAME)), Ok(()));
    assert_eq!(assembler.len(), 2);
    let doc = assembler.finish();
    assert_eq!(
        lines_of(&doc),
        vec![line(0, Tag::INDI, Some("@I1@"), None, None), plain(1, Tag::NAME)]
    );
}

#[test]
fn deep_nesting_is_assembled() {
    let mut lines = Vec::new();
    let mut level: u8 = 0;
    while level <= 99 {
        lines.push(plain(level, Tag::NOTE));
        level += 1;
    }
    lines.push(plain(0, Tag::TRLR));
    let doc = document_of(lines.clone());
    assert_eq!(doc.roots().len(), 2);
    assert_eq!(lines_of(&doc), lines);
}

#[test]
fn record_of_a_line() {
    let mut record = Record::from_line(line(1, Tag::NAME, Some("@A@"), None, Some("x")));
    assert_eq!(record.tag, Tag::NAME);
    assert_eq!(record.ref_id, Some("@A@".to_string()));
    assert_eq!(record.value, Some("x".to_string()));
    assert_eq!(record.pointer, None);
    assert!(record.children.is_empty());
    record.push_child(Record::from_line(plain(2, Tag::GIVN)));
    record.push_child(Record::from_line(plain(2, Tag::SURN)));
    assert_eq!(record.children.len(), 2);
    assert_eq!(record.children[0].tag, Tag::GIVN);
    assert_eq!(record.children[1].tag, Tag::SURN);
}
