use gedcom::tag::UnknownTag;
use gedcom::Tag;

#[test]
fn standard_tags_are_known() {
    assert_eq!(Tag::from_str("INDI"), Ok(Tag::INDI));
    assert_eq!(Tag::from_str("FAM"), Ok(Tag::FAM));
    assert_eq!(Tag::from_str("EMAIL"), Ok(Tag::EMAIL));
    assert_eq!(Tag::from_str("HEAD"), Ok(Tag::HEAD));
    assert_eq!(Tag::from_str("WWW"), Ok(Tag::WWW));
    assert_eq!(Tag::from_str("ABBR"), Ok(Tag::ABBR));
}

#[test]
fn underscore_makes_a_custom_tag() {
    assert_eq!(Tag::from_str("_MILT"), Ok(Tag::Custom("_MILT".to_string())));
    assert_eq!(Tag::from_str("_"), Ok(Tag::Custom("_".to_string())));
    assert_eq!(Tag::from_str("_INDI"), Ok(Tag::Custom("_INDI".to_string())));
}

#[test]
fn other_texts_are_no_tags() {
    assert_eq!(Tag::from_str("BAD"), Err(UnknownTag { text: "BAD".to_string() }));
    assert_eq!(Tag::from_str(""), Err(UnknownTag { text: String::new() }));
    assert_eq!(Tag::from_str("indi"), Err(UnknownTag { text: "indi".to_string() }));
    assert_eq!(Tag::from_str("INDIX"), Err(UnknownTag { text: "INDIX".to_string() }));
    assert_eq!(Tag::from_str("IND"), Err(UnknownTag { text: "IND".to_string() }));
    assert_eq!(Tag::from_str("NAME_"), Err(UnknownTag { text: "NAME_".to_string() }));
}

#[test]
fn tag_text_round_trips() {
    let tags = vec![
        Tag::ABBR, Tag::ADR1, Tag::AFN, Tag::BIRT, Tag::CHR, Tag::CONC, Tag::CONT, Tag::DATE,
        Tag::EMAIL, Tag::FAMC, Tag::FAMS, Tag::HUSB, Tag::MAP, Tag::NAME, Tag::SEX, Tag::TRLR,
        Tag::WIFE, Tag::Custom("_X".to_string()),
    ];
    for tag in tags {
        assert_eq!(Tag::from_str(tag.as_str()), Ok(tag));
    }
}

#[test]
fn classify_reads_a_part_of_the_text() {
    let chars: Vec<char> = "1 NAME x".chars().collect();
    assert_eq!(Tag::classify(&chars, 2, 6), Ok(Tag::NAME));
    assert_eq!(Tag::lookup(&chars, 2, 6), Some(Tag::NAME));
    assert_eq!(Tag::lookup(&chars, 2, 5), None);
    assert_eq!(Tag::classify(&chars, 2, 5), Err(UnknownTag { text: "NAM".to_string() }));
    assert_eq!(Tag::classify(&chars, 2, 2), Err(UnknownTag { text: String::new() }));
}
