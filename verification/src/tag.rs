use vstd::prelude::*;
use crate::text::text_of;
use crate::text::chars_of;

verus! {

/// The keyword of a line: one of the standard tags of the format, each
/// variant named as the tag is written, or a user-defined tag, which is
/// written with a leading underscore.
#[derive(Debug, Clone, PartialEq, Eq)]
pub enum Tag {
    ABBR,
    ADDR,
    ADOP,
    ADR1,
    ADR2,
    ADR3,
    AFN,
    AGE,
    AGNC,
    ALIA,
    ANCE,
    ANCI,
    ANUL,
    ASSO,
    AUTH,
    BAPL,
    BAPM,
    BARM,
    BASM,
    BIRT,
    BLES,
    BLOB,
    BURI,
    CALN,
    CAST,
    CAUS,
    CENS,
    CHAN,
    CHAR,
    CHIL,
    CHR,
    CHRA,
    CITY,
    CONC,
    CONF,
    CONL,
    CONT,
    COPR,
    CORP,
    CREM,
    CTRY,
    DATA,
    DATE,
    DEAT,
    DESC,
    DESI,
    DEST,
    DIV,
    DIVF,
    DSCR,
    EDUC,
    EMAIL,
    EMIG,
    ENDL,
    ENGA,
    EVEN,
    FACT,
    FAM,
    FAMC,
    FAMF,
    FAMS,
    FAX,
    FCOM,
    FILE,
    FONE,
    FORM,
    GEDC,
    GIVN,
    GRAD,
    HEAD,
    HUSB,
    IDNO,
    IMMI,
    INDI,
    LANG,
    LATI,
    LEGA,
    LONG,
    MAP,
    MARB,
    MARC,
    MARL,
    MARR,
    MARS,
    MEDI,
    NAME,
    NATI,
    NATU,
    NCHI,
    NICK,
    NMR,
    NOTE,
    NPFX,
    NSFX,
    OBJE,
    OCCU,
    ORDI,
    ORDN,
    PAGE,
    PEDI,
    PHON,
    PLAC,
    POST,
    PROB,
    PROP,
    PUBL,
    QUAY,
    REFN,
    RELA,
    RELI,
    REPO,
    RESI,
    RESN,
    RETI,
    RFN,
    RIN,
    ROLE,
    ROMN,
    SEX,
    SLGC,
    SLGS,
    SOUR,
    SPFX,
    SSN,
    STAE,
    STAT,
    SUBM,
    SUBN,
    SURN,
    TEMP,
    TEXT,
    TIME,
    TITL,
    TRLR,
    TYPE,
    VERS,
    WIFE,
    WILL,
    WWW,
    /// A user-defined tag, kept as it was written.
    Custom(String),
}

/// A tag text that is neither in the standard vocabulary nor user-defined.
#[derive(Debug, Clone, PartialEq, Eq)]
pub struct UnknownTag {
    pub text: String,
}

/// The marker that opens a user-defined tag.
pub const CUSTOM_MARK: char = '_';

impl View for Tag {
    type V = Seq<char>;

    /// A tag is viewed as its text, as it is written in a line.
    open spec fn view(&self) -> Seq<char> {
        match self {
            Tag::ABBR => seq!['A', 'B', 'B', 'R'],
            Tag::ADDR => seq!['A', 'D', 'D', 'R'],
            Tag::ADOP => seq!['A', 'D', 'O', 'P'],
            Tag::ADR1 => seq!['A', 'D', 'R', '1'],
            Tag::ADR2 => seq!['A', 'D', 'R', '2'],
            Tag::ADR3 => seq!['A', 'D', 'R', '3'],
            Tag::AFN => seq!['A', 'F', 'N'],
            Tag::AGE => seq!['A', 'G', 'E'],
            Tag::AGNC => seq!['A', 'G', 'N', 'C'],
            Tag::ALIA => seq!['A', 'L', 'I', 'A'],
            Tag::ANCE => seq!['A', 'N', 'C', 'E'],
            Tag::ANCI => seq!['A', 'N', 'C', 'I'],
            Tag::ANUL => seq!['A', 'N', 'U', 'L'],
            Tag::ASSO => seq!['A', 'S', 'S', 'O'],
            Tag::AUTH => seq!['A', 'U', 'T', 'H'],
            Tag::BAPL => seq!['B', 'A', 'P', 'L'],
            Tag::BAPM => seq!['B', 'A', 'P', 'M'],
            Tag::BARM => seq!['B', 'A', 'R', 'M'],
            Tag::BASM => seq!['B', 'A', 'S', 'M'],
            Tag::BIRT => seq!['B', 'I', 'R', 'T'],
            Tag::BLES => seq!['B', 'L', 'E', 'S'],
            Tag::BLOB => seq!['B', 'L', 'O', 'B'],
            Tag::BURI => seq!['B', 'U', 'R', 'I'],
            Tag::CALN => seq!['C', 'A', 'L', 'N'],
            Tag::CAST => seq!['C', 'A', 'S', 'T'],
            Tag::CAUS => seq!['C', 'A', 'U', 'S'],
            Tag::CENS => seq!['C', 'E', 'N', 'S'],
            Tag::CHAN => seq!['C', 'H', 'A', 'N'],
            Tag::CHAR => seq!['C', 'H', 'A', 'R'],
            Tag::CHIL => seq!['C', 'H', 'I', 'L'],
            Tag::CHR => seq!['C', 'H', 'R'],
            Tag::CHRA => seq!['C', 'H', 'R', 'A'],
            Tag::CITY => seq!['C', 'I', 'T', 'Y'],
            Tag::CONC => seq!['C', 'O', 'N', 'C'],
            Tag::CONF => seq!['C', 'O', 'N', 'F'],
            Tag::CONL => seq!['C', 'O', 'N', 'L'],
            Tag::CONT => seq!['C', 'O', 'N', 'T'],
            Tag::COPR => seq!['C', 'O', 'P', 'R'],
            Tag::CORP => seq!['C', 'O', 'R', 'P'],
            Tag::CREM => seq!['C', 'R', 'E', 'M'],
            Tag::CTRY => seq!['C', 'T', 'R', 'Y'],
            Tag::DATA => seq!['D', 'A', 'T', 'A'],
            Tag::DATE => seq!['D', 'A', 'T', 'E'],
            Tag::DEAT => seq!['D', 'E', 'A', 'T'],
            Tag::DESC => seq!['D', 'E', 'S', 'C'],
            Tag::DESI => seq!['D', 'E', 'S', 'I'],
            Tag::DEST => seq!['D', 'E', 'S', 'T'],
            Tag::DIV => seq!['D', 'I', 'V'],
            Tag::DIVF => seq!['D', 'I', 'V', 'F'],
            Tag::DSCR => seq!['D', 'S', 'C', 'R'],
            Tag::EDUC => seq!['E', 'D', 'U', 'C'],
            Tag::EMAIL => seq!['E', 'M', 'A', 'I', 'L'],
            Tag::EMIG => seq!['E', 'M', 'I', 'G'],
            Tag::ENDL => seq!['E', 'N', 'D', 'L'],
            Tag::ENGA => seq!['E', 'N', 'G', 'A'],
            Tag::EVEN => seq!['E', 'V', 'E', 'N'],
            Tag::FACT => seq!['F', 'A', 'C', 'T'],
            Tag::FAM => seq!['F', 'A', 'M'],
            Tag::FAMC => seq!['F', 'A', 'M', 'C'],
            Tag::FAMF => seq!['F', 'A', 'M', 'F'],
            Tag::FAMS => seq!['F', 'A', 'M', 'S'],
            Tag::FAX => seq!['F', 'A', 'X'],
            Tag::FCOM => seq!['F', 'C', 'O', 'M'],
            Tag::FILE => seq!['F', 'I', 'L', 'E'],
            Tag::FONE => seq!['F', 'O', 'N', 'E'],
            Tag::FORM => seq!['F', 'O', 'R', 'M'],
            Tag::GEDC => seq!['G', 'E', 'D', 'C'],
            Tag::GIVN => seq!['G', 'I', 'V', 'N'],
            Tag::GRAD => seq!['G', 'R', 'A', 'D'],
            Tag::HEAD => seq!['H', 'E', 'A', 'D'],
            Tag::HUSB => seq!['H', 'U', 'S', 'B'],
            Tag::IDNO => seq!['I', 'D', 'N', 'O'],
            Tag::IMMI => seq!['I', 'M', 'M', 'I'],
            Tag::INDI => seq!['I', 'N', 'D', 'I'],
            Tag::LANG => seq!['L', 'A', 'N', 'G'],
            Tag::LATI => seq!['L', 'A', 'T', 'I'],
            Tag::LEGA => seq!['L', 'E', 'G', 'A'],
            Tag::LONG => seq!['L', 'O', 'N', 'G'],
            Tag::MAP => seq!['M', 'A', 'P'],
            Tag::MARB => seq!['M', 'A', 'R', 'B'],
            Tag::MARC => seq!['M', 'A', 'R', 'C'],
            Tag::MARL => seq!['M', 'A', 'R', 'L'],
            Tag::MARR => seq!['M', 'A', 'R', 'R'],
            Tag::MARS => seq!['M', 'A', 'R', 'S'],
            Tag::MEDI => seq!['M', 'E', 'D', 'I'],
            Tag::NAME => seq!['N', 'A', 'M', 'E'],
            Tag::NATI => seq!['N', 'A', 'T', 'I'],
            Tag::NATU => seq!['N', 'A', 'T', 'U'],
            Tag::NCHI => seq!['N', 'C', 'H', 'I'],
            Tag::NICK => seq!['N', 'I', 'C', 'K'],
            Tag::NMR => seq!['N', 'M', 'R'],
            Tag::NOTE => seq!['N', 'O', 'T', 'E'],
            Tag::NPFX => seq!['N', 'P', 'F', 'X'],
            Tag::NSFX => seq!['N', 'S', 'F', 'X'],
            Tag::OBJE => seq!['O', 'B', 'J', 'E'],
            Tag::OCCU => seq!['O', 'C', 'C', 'U'],
            Tag::ORDI => seq!['O', 'R', 'D', 'I'],
            Tag::ORDN => seq!['O', 'R', 'D', 'N'],
            Tag::PAGE => seq!['P', 'A', 'G', 'E'],
            Tag::PEDI => seq!['P', 'E', 'D', 'I'],
            Tag::PHON => seq!['P', 'H', 'O', 'N'],
            Tag::PLAC => seq!['P', 'L', 'A', 'C'],
            Tag::POST => seq!['P', 'O', 'S', 'T'],
            Tag::PROB => seq!['P', 'R', 'O', 'B'],
            Tag::PROP => seq!['P', 'R', 'O', 'P'],
            Tag::PUBL => seq!['P', 'U', 'B', 'L'],
            Tag::QUAY => seq!['Q', 'U', 'A', 'Y'],
            Tag::REFN => seq!['R', 'E', 'F', 'N'],
            Tag::RELA => seq!['R', 'E', 'L', 'A'],
            Tag::RELI => seq!['R', 'E', 'L', 'I'],
            Tag::REPO => seq!['R', 'E', 'P', 'O'],
            Tag::RESI => seq!['R', 'E', 'S', 'I'],
            Tag::RESN => seq!['R', 'E', 'S', 'N'],
            Tag::RETI => seq!['R', 'E', 'T', 'I'],
            Tag::RFN => seq!['R', 'F', 'N'],
            Tag::RIN => seq!['R', 'I', 'N'],
            Tag::ROLE => seq!['R', 'O', 'L', 'E'],
            Tag::ROMN => seq!['R', 'O', 'M', 'N'],
            Tag::SEX => seq!['S', 'E', 'X'],
            Tag::SLGC => seq!['S', 'L', 'G', 'C'],
            Tag::SLGS => seq!['S', 'L', 'G', 'S'],
            Tag::SOUR => seq!['S', 'O', 'U', 'R'],
            Tag::SPFX => seq!['S', 'P', 'F', 'X'],
            Tag::SSN => seq!['S', 'S', 'N'],
            Tag::STAE => seq!['S', 'T', 'A', 'E'],
            Tag::STAT => seq!['S', 'T', 'A', 'T'],
            Tag::SUBM => seq!['S', 'U', 'B', 'M'],
            Tag::SUBN => seq!['S', 'U', 'B', 'N'],
            Tag::SURN => seq!['S', 'U', 'R', 'N'],
            Tag::TEMP => seq!['T', 'E', 'M', 'P'],
            Tag::TEXT => seq!['T', 'E', 'X', 'T'],
            Tag::TIME => seq!['T', 'I', 'M', 'E'],
            Tag::TITL => seq!['T', 'I', 'T', 'L'],
            Tag::TRLR => seq!['T', 'R', 'L', 'R'],
            Tag::TYPE => seq!['T', 'Y', 'P', 'E'],
            Tag::VERS => seq!['V', 'E', 'R', 'S'],
            Tag::WIFE => seq!['W', 'I', 'F', 'E'],
            Tag::WILL => seq!['W', 'I', 'L', 'L'],
            Tag::WWW => seq!['W', 'W', 'W'],
            Tag::Custom(text) => text@,
        }
    }
}

/// A text that may stand as a user-defined tag: it begins with the marker.
pub open spec fn is_custom_text(text: Seq<char>) -> bool {
    text.len() > 0 && text[0] == CUSTOM_MARK
}

/// A text that is the text of a tag of the standard vocabulary.
pub open spec fn is_known_text(text: Seq<char>) -> bool {
    exists|t: Tag| t.is_known() && t@ == text
}

/// A text that some tag stands for.
pub open spec fn is_tag_text(text: Seq<char>) -> bool {
    is_known_text(text) || is_custom_text(text)
}

impl Tag {
    /// Whether the tag belongs to the standard vocabulary.
    pub open spec fn is_known(&self) -> bool {
        !(self is Custom)
    }

    /// A user-defined tag carries a text that begins with the marker.
    pub open spec fn wf(&self) -> bool {
        self matches Tag::Custom(text) ==> is_custom_text(text@)
    }

    /// A standard tag is three to five capital letters or digits, so its
    /// text never begins with the marker of a user-defined tag.
    pub proof fn lemma_known_shape(self)
        requires
            self.is_known(),
        ensures
            3 <= self@.len() <= 5,
            !is_custom_text(self@),
            forall|i: int| 0 <= i < self@.len() ==> self@[i] != ' ' && self@[i] != '\n',
    {
    }

    /// Two well-formed tags with the same text are the same tag.
    pub proof fn lemma_text_decides(self, other: Tag)
        requires
            self.wf(),
            other.wf(),
            self@ == other@,
        ensures
            self.is_known() ==> self == other,
            self matches Tag::Custom(a) ==> (other matches Tag::Custom(b) && a@ == b@),
    {
        if self.is_known() {
            self.lemma_known_shape();
            if other.is_known() {
                lemma_known_distinct(self, other);
            }
        } else {
            if other.is_known() {
                other.lemma_known_shape();
            }
        }
    }

    /// The text of the tag.
    pub fn as_str(&self) -> (text: &str)
        ensures
            text@ == self@,
    {
        match self {
            Tag::ABBR => {
                proof { reveal_strlit("ABBR"); }
                "ABBR"
            },
            Tag::ADDR => {
                proof { reveal_strlit("ADDR"); }
                "ADDR"
            },
            Tag::ADOP => {
                proof { reveal_strlit("ADOP"); }
                "ADOP"
            },
            Tag::ADR1 => {
                proof { reveal_strlit("ADR1"); }
                "ADR1"
            },
            Tag::ADR2 => {
                proof { reveal_strlit("ADR2"); }
                "ADR2"
            },
            Tag::ADR3 => {
                proof { reveal_strlit("ADR3"); }
                "ADR3"
            },
            Tag::AFN => {
                proof { reveal_strlit("AFN"); }
                "AFN"
            },
            Tag::AGE => {
                proof { reveal_strlit("AGE"); }
                "AGE"
            },
            Tag::AGNC => {
                proof { reveal_strlit("AGNC"); }
                "AGNC"
            },
            Tag::ALIA => {
                proof { reveal_strlit("ALIA"); }
                "ALIA"
            },
            Tag::ANCE => {
                proof { reveal_strlit("ANCE"); }
                "ANCE"
            },
            Tag::ANCI => {
                proof { reveal_strlit("ANCI"); }
                "ANCI"
            },
            Tag::ANUL => {
                proof { reveal_strlit("ANUL"); }
                "ANUL"
            },
            Tag::ASSO => {
                proof { reveal_strlit("ASSO"); }
                "ASSO"
            },
            Tag::AUTH => {
                proof { reveal_strlit("AUTH"); }
                "AUTH"
            },
            Tag::BAPL => {
                proof { reveal_strlit("BAPL"); }
                "BAPL"
            },
            Tag::BAPM => {
                proof { reveal_strlit("BAPM"); }
                "BAPM"
            },
            Tag::BARM => {
                proof { reveal_strlit("BARM"); }
                "BARM"
            },
            Tag::BASM => {
                proof { reveal_strlit("BASM"); }
                "BASM"
            },
            Tag::BIRT => {
                proof { reveal_strlit("BIRT"); }
                "BIRT"
            },
            Tag::BLES => {
                proof { reveal_strlit("BLES"); }
                "BLES"
            },
            Tag::BLOB => {
                proof { reveal_strlit("BLOB"); }
                "BLOB"
            },
            Tag::BURI => {
                proof { reveal_strlit("BURI"); }
                "BURI"
            },
            Tag::CALN => {
                proof { reveal_strlit("CALN"); }
                "CALN"
            },
            Tag::CAST => {
                proof { reveal_strlit("CAST"); }
                "CAST"
            },
            Tag::CAUS => {
                proof { reveal_strlit("CAUS"); }
                "CAUS"
            },
            Tag::CENS => {
                proof { reveal_strlit("CENS"); }
                "CENS"
            },
            Tag::CHAN => {
                proof { reveal_strlit("CHAN"); }
                "CHAN"
            },
            Tag::CHAR => {
                proof { reveal_strlit("CHAR"); }
                "CHAR"
            },
            Tag::CHIL => {
                proof { reveal_strlit("CHIL"); }
                "CHIL"
            },
            Tag::CHR => {
                proof { reveal_strlit("CHR"); }
                "CHR"
            },
            Tag::CHRA => {
                proof { reveal_strlit("CHRA"); }
                "CHRA"
            },
            Tag::CITY => {
                proof { reveal_strlit("CITY"); }
                "CITY"
            },
            Tag::CONC => {
                proof { reveal_strlit("CONC"); }
                "CONC"
            },
            Tag::CONF => {
                proof { reveal_strlit("CONF"); }
                "CONF"
            },
            Tag::CONL => {
                proof { reveal_strlit("CONL"); }
                "CONL"
            },
            Tag::CONT => {
                proof { reveal_strlit("CONT"); }
                "CONT"
            },
            Tag::COPR => {
                proof { reveal_strlit("COPR"); }
                "COPR"
            },
            Tag::CORP => {
                proof { reveal_strlit("CORP"); }
                "CORP"
            },
            Tag::CREM => {
                proof { reveal_strlit("CREM"); }
                "CREM"
            },
            Tag::CTRY => {
                proof { reveal_strlit("CTRY"); }
                "CTRY"
            },
            Tag::DATA => {
                proof { reveal_strlit("DATA"); }
                "DATA"
            },
            Tag::DATE => {
                proof { reveal_strlit("DATE"); }
                "DATE"
            },
            Tag::DEAT => {
                proof { reveal_strlit("DEAT"); }
                "DEAT"
            },
            Tag::DESC => {
                proof { reveal_strlit("DESC"); }
                "DESC"
            },
            Tag::DESI => {
                proof { reveal_strlit("DESI"); }
                "DESI"
            },
            Tag::DEST => {
                proof { reveal_strlit("DEST"); }
                "DEST"
            },
            Tag::DIV => {
                proof { reveal_strlit("DIV"); }
                "DIV"
            },
            Tag::DIVF => {
                proof { reveal_strlit("DIVF"); }
                "DIVF"
            },
            Tag::DSCR => {
                proof { reveal_strlit("DSCR"); }
                "DSCR"
            },
            Tag::EDUC => {
                proof { reveal_strlit("EDUC"); }
                "EDUC"
            },
            Tag::EMAIL => {
                proof { reveal_strlit("EMAIL"); }
                "EMAIL"
            },
            Tag::EMIG => {
                proof { reveal_strlit("EMIG"); }
                "EMIG"
            },
            Tag::ENDL => {
                proof { reveal_strlit("ENDL"); }
                "ENDL"
            },
            Tag::ENGA => {
                proof { reveal_strlit("ENGA"); }
                "ENGA"
            },
            Tag::EVEN => {
                proof { reveal_strlit("EVEN"); }
                "EVEN"
            },
            Tag::FACT => {
                proof { reveal_strlit("FACT"); }
                "FACT"
            },
            Tag::FAM => {
                proof { reveal_strlit("FAM"); }
                "FAM"
            },
            Tag::FAMC => {
                proof { reveal_strlit("FAMC"); }
                "FAMC"
            },
            Tag::FAMF => {
                proof { reveal_strlit("FAMF"); }
                "FAMF"
            },
            Tag::FAMS => {
                proof { reveal_strlit("FAMS"); }
                "FAMS"
            },
            Tag::FAX => {
                proof { reveal_strlit("FAX"); }
                "FAX"
            },
            Tag::FCOM => {
                proof { reveal_strlit("FCOM"); }
                "FCOM"
            },
            Tag::FILE => {
                proof { reveal_strlit("FILE"); }
                "FILE"
            },
            Tag::FONE => {
                proof { reveal_strlit("FONE"); }
                "FONE"
            },
            Tag::FORM => {
                proof { reveal_strlit("FORM"); }
                "FORM"
            },
            Tag::GEDC => {
                proof { reveal_strlit("GEDC"); }
                "GEDC"
            },
            Tag::GIVN => {
                proof { reveal_strlit("GIVN"); }
                "GIVN"
            },
            Tag::GRAD => {
                proof { reveal_strlit("GRAD"); }
                "GRAD"
            },
            Tag::HEAD => {
                proof { reveal_strlit("HEAD"); }
                "HEAD"
            },
            Tag::HUSB => {
                proof { reveal_strlit("HUSB"); }
                "HUSB"
            },
            Tag::IDNO => {
                proof { reveal_strlit("IDNO"); }
                "IDNO"
            },
            Tag::IMMI => {
                proof { reveal_strlit("IMMI"); }
                "IMMI"
            },
            Tag::INDI => {
                proof { reveal_strlit("INDI"); }
                "INDI"
            },
            Tag::LANG => {
                proof { reveal_strlit("LANG"); }
                "LANG"
            },
            Tag::LATI => {
                proof { reveal_strlit("LATI"); }
                "LATI"
            },
            Tag::LEGA => {
                proof { reveal_strlit("LEGA"); }
                "LEGA"
            },
            Tag::LONG => {
                proof { reveal_strlit("LONG"); }
                "LONG"
            },
            Tag::MAP => {
                proof { reveal_strlit("MAP"); }
                "MAP"
            },
            Tag::MARB => {
                proof { reveal_strlit("MARB"); }
                "MARB"
            },
            Tag::MARC => {
                proof { reveal_strlit("MARC"); }
                "MARC"
            },
            Tag::MARL => {
                proof { reveal_strlit("MARL"); }
                "MARL"
            },
            Tag::MARR => {
                proof { reveal_strlit("MARR"); }
                "MARR"
            },
            Tag::MARS => {
                proof { reveal_strlit("MARS"); }
                "MARS"
            },
            Tag::MEDI => {
                proof { reveal_strlit("MEDI"); }
                "MEDI"
            },
            Tag::NAME => {
                proof { reveal_strlit("NAME"); }
                "NAME"
            },
            Tag::NATI => {
                proof { reveal_strlit("NATI"); }
                "NATI"
            },
            Tag::NATU => {
                proof { reveal_strlit("NATU"); }
                "NATU"
            },
            Tag::NCHI => {
                proof { reveal_strlit("NCHI"); }
                "NCHI"
            },
            Tag::NICK => {
                proof { reveal_strlit("NICK"); }
                "NICK"
            },
            Tag::NMR => {
                proof { reveal_strlit("NMR"); }
                "NMR"
            },
            Tag::NOTE => {
                proof { reveal_strlit("NOTE"); }
                "NOTE"
            },
            Tag::NPFX => {
                proof { reveal_strlit("NPFX"); }
                "NPFX"
            },
            Tag::NSFX => {
                proof { reveal_strlit("NSFX"); }
                "NSFX"
            },
            Tag::OBJE => {
                proof { reveal_strlit("OBJE"); }
                "OBJE"
            },
            Tag::OCCU => {
                proof { reveal_strlit("OCCU"); }
                "OCCU"
            },
            Tag::ORDI => {
                proof { reveal_strlit("ORDI"); }
                "ORDI"
            },
            Tag::ORDN => {
                proof { reveal_strlit("ORDN"); }
                "ORDN"
            },
            Tag::PAGE => {
                proof { reveal_strlit("PAGE"); }
                "PAGE"
            },
            Tag::PEDI => {
                proof { reveal_strlit("PEDI"); }
                "PEDI"
            },
            Tag::PHON => {
                proof { reveal_strlit("PHON"); }
                "PHON"
            },
            Tag::PLAC => {
                proof { reveal_strlit("PLAC"); }
                "PLAC"
            },
            Tag::POST => {
                proof { reveal_strlit("POST"); }
                "POST"
            },
            Tag::PROB => {
                proof { reveal_strlit("PROB"); }
                "PROB"
            },
            Tag::PROP => {
                proof { reveal_strlit("PROP"); }
                "PROP"
            },
            Tag::PUBL => {
                proof { reveal_strlit("PUBL"); }
                "PUBL"
            },
            Tag::QUAY => {
                proof { reveal_strlit("QUAY"); }
                "QUAY"
            },
            Tag::REFN => {
                proof { reveal_strlit("REFN"); }
                "REFN"
            },
            Tag::RELA => {
                proof { reveal_strlit("RELA"); }
                "RELA"
            },
            Tag::RELI => {
                proof { reveal_strlit("RELI"); }
                "RELI"
            },
            Tag::REPO => {
                proof { reveal_strlit("REPO"); }
                "REPO"
            },
            Tag::RESI => {
                proof { reveal_strlit("RESI"); }
                "RESI"
            },
            Tag::RESN => {
                proof { reveal_strlit("RESN"); }
                "RESN"
            },
            Tag::RETI => {
                proof { reveal_strlit("RETI"); }
                "RETI"
            },
            Tag::RFN => {
                proof { reveal_strlit("RFN"); }
                "RFN"
            },
            Tag::RIN => {
                proof { reveal_strlit("RIN"); }
                "RIN"
            },
            Tag::ROLE => {
                proof { reveal_strlit("ROLE"); }
                "ROLE"
            },
            Tag::ROMN => {
                proof { reveal_strlit("ROMN"); }
                "ROMN"
            },
            Tag::SEX => {
                proof { reveal_strlit("SEX"); }
                "SEX"
            },
            Tag::SLGC => {
                proof { reveal_strlit("SLGC"); }
                "SLGC"
            },
            Tag::SLGS => {
                proof { reveal_strlit("SLGS"); }
                "SLGS"
            },
            Tag::SOUR => {
                proof { reveal_strlit("SOUR"); }
                "SOUR"
            },
            Tag::SPFX => {
                proof { reveal_strlit("SPFX"); }
                "SPFX"
            },
            Tag::SSN => {
                proof { reveal_strlit("SSN"); }
                "SSN"
            },
            Tag::STAE => {
                proof { reveal_strlit("STAE"); }
                "STAE"
            },
            Tag::STAT => {
                proof { reveal_strlit("STAT"); }
                "STAT"
            },
            Tag::SUBM => {
                proof { reveal_strlit("SUBM"); }
                "SUBM"
            },
            Tag::SUBN => {
                proof { reveal_strlit("SUBN"); }
                "SUBN"
            },
            Tag::SURN => {
                proof { reveal_strlit("SURN"); }
                "SURN"
            },
            Tag::TEMP => {
                proof { reveal_strlit("TEMP"); }
                "TEMP"
            },
            Tag::TEXT => {
                proof { reveal_strlit("TEXT"); }
                "TEXT"
            },
            Tag::TIME => {
                proof { reveal_strlit("TIME"); }
                "TIME"
            },
            Tag::TITL => {
                proof { reveal_strlit("TITL"); }
                "TITL"
            },
            Tag::TRLR => {
                proof { reveal_strlit("TRLR"); }
                "TRLR"
            },
            Tag::TYPE => {
                proof { reveal_strlit("TYPE"); }
                "TYPE"
            },
            Tag::VERS => {
                proof { reveal_strlit("VERS"); }
                "VERS"
            },
            Tag::WIFE => {
                proof { reveal_strlit("WIFE"); }
                "WIFE"
            },
            Tag::WILL => {
                proof { reveal_strlit("WILL"); }
                "WILL"
            },
            Tag::WWW => {
                proof { reveal_strlit("WWW"); }
                "WWW"
            },
            Tag::Custom(text) => text.as_str(),
        }
    }

    /// Finds the standard tag spelled by `chars[from..to]`.
    pub fn lookup(chars: &Vec<char>, from: usize, to: usize) -> (found: Option<Tag>)
        requires
            from <= to <= chars.len(),
        ensures
            match found {
                Some(t) => t.is_known() && t@ == chars@.subrange(from as int, to as int),
                None => !is_known_text(chars@.subrange(from as int, to as int)),
            },
    {
        let ghost text = chars@.subrange(from as int, to as int);
        let found = if to - from == 3 {
            lookup3(chars[from], chars[from + 1], chars[from + 2])
        } else if to - from == 4 {
            lookup4(chars[from], chars[from + 1], chars[from + 2], chars[from + 3])
        } else if to - from == 5 {
            lookup5(chars[from], chars[from + 1], chars[from + 2], chars[from + 3], chars[from + 4])
        } else {
            None
        };
        proof {
            if found is Some {
                assert(found->0@ =~= text);
            } else {
                assert forall|t: Tag| t.is_known() implies t@ != text by {
                    t.lemma_known_shape();
                    if t@ == text {
                        assert(text[0] == t@[0]);
                        assert(text[1] == t@[1]);
                        assert(text[2] == t@[2]);
                        if text.len() > 3 {
                            assert(text[3] == t@[3]);
                        }
                        if text.len() > 4 {
                            assert(text[4] == t@[4]);
                        }
                    }
                }
            }
        }
        found
    }

    /// Classifies `chars[from..to]` as a tag: a standard tag where the text
    /// is in the vocabulary, a user-defined tag where it begins with the
    /// marker, and otherwise an error that carries the text.
    pub fn classify(chars: &Vec<char>, from: usize, to: usize) -> (r: Result<Tag, UnknownTag>)
        requires
            from <= to <= chars.len(),
        ensures
            match r {
                Ok(t) => {
                    &&& is_tag_text(chars@.subrange(from as int, to as int))
                    &&& t.wf()
                    &&& t@ == chars@.subrange(from as int, to as int)
                },
                Err(e) => {
                    &&& !is_tag_text(chars@.subrange(from as int, to as int))
                    &&& e.text@ == chars@.subrange(from as int, to as int)
                },
            },
    {
        match Tag::lookup(chars, from, to) {
            Some(t) => Ok(t),
            None => {
                let text = text_of(chars, from, to);
                if from < to && chars[from] == CUSTOM_MARK {
                    Ok(Tag::Custom(text))
                } else {
                    Err(UnknownTag { text })
                }
            },
        }
    }

    /// Classifies a whole string as a tag.
    pub fn from_str(raw: &str) -> (r: Result<Tag, UnknownTag>)
        ensures
            match r {
                Ok(t) => is_tag_text(raw@) && t.wf() && t@ == raw@,
                Err(e) => !is_tag_text(raw@) && e.text@ == raw@,
            },
    {
        let chars = chars_of(raw);
        assert(chars@.subrange(0, chars@.len() as int) =~= raw@);
        Tag::classify(&chars, 0, chars.len())
    }
}

/// Standard tags are told apart by their texts.
pub proof fn lemma_known_distinct(a: Tag, b: Tag)
    requires
        a.is_known(),
        b.is_known(),
        a@ == b@,
    ensures
        a == b,
{
    a.lemma_known_shape();
    assert(a@[0] == b@[0]);
    assert(a@[1] == b@[1]);
    assert(a@[2] == b@[2]);
    if a@.len() > 3 {
        assert(a@[3] == b@[3]);
    }
    if a@.len() > 4 {
        assert(a@[4] == b@[4]);
    }
}

/// The standard tag of 3 characters that is spelled by the arguments.
fn lookup3(a: char, b: char, c: char) -> (found: Option<Tag>)
    ensures
        match found {
            Some(t) => t.is_known() && t@ == seq![a, b, c],
            None => forall|t: Tag| t.is_known() && t@.len() == 3 ==> t@ != seq![a, b, c],
        },
{
    let found = match (a, b, c) {
        ('A', 'F', 'N') => Some(Tag::AFN),
        ('A', 'G', 'E') => Some(Tag::AGE),
        ('C', 'H', 'R') => Some(Tag::CHR),
        ('D', 'I', 'V') => Some(Tag::DIV),
        ('F', 'A', 'M') => Some(Tag::FAM),
        ('F', 'A', 'X') => Some(Tag::FAX),
        ('M', 'A', 'P') => Some(Tag::MAP),
        ('N', 'M', 'R') => Some(Tag::NMR),
        ('R', 'F', 'N') => Some(Tag::RFN),
        ('R', 'I', 'N') => Some(Tag::RIN),
        ('S', 'E', 'X') => Some(Tag::SEX),
        ('S', 'S', 'N') => Some(Tag::SSN),
        ('W', 'W', 'W') => Some(Tag::WWW),
        _ => None,
    };
    proof {
        if found is Some {
            assert(found->0@ =~= seq![a, b, c]);
        } else {
            assert forall|t: Tag| t.is_known() && t@.len() == 3 implies t@ != seq![a, b, c] by {
                if t@ == seq![a, b, c] {
                    assert(t@[0] == a);
                    assert(t@[1] == b);
                    assert(t@[2] == c);
                }
            }
        }
    }
    found
}

/// The standard tag of 4 characters that is spelled by the arguments.
fn lookup4(a: char, b: char, c: char, d: char) -> (found: Option<Tag>)
    ensures
        match found {
            Some(t) => t.is_known() && t@ == seq![a, b, c, d],
            None => forall|t: Tag| t.is_known() && t@.len() == 4 ==> t@ != seq![a, b, c, d],
        },
{
    let found = match (a, b, c, d) {
        ('A', 'B', 'B', 'R') => Some(Tag::ABBR),
        ('A', 'D', 'D', 'R') => Some(Tag::ADDR),
        ('A', 'D', 'O', 'P') => Some(Tag::ADOP),
        ('A', 'D', 'R', '1') => Some(Tag::ADR1),
        ('A', 'D', 'R', '2') => Some(Tag::ADR2),
        ('A', 'D', 'R', '3') => Some(Tag::ADR3),
        ('A', 'G', 'N', 'C') => Some(Tag::AGNC),
        ('A', 'L', 'I', 'A') => Some(Tag::ALIA),
        ('A', 'N', 'C', 'E') => Some(Tag::ANCE),
        ('A', 'N', 'C', 'I') => Some(Tag::ANCI),
        ('A', 'N', 'U', 'L') => Some(Tag::ANUL),
        ('A', 'S', 'S', 'O') => Some(Tag::ASSO),
        ('A', 'U', 'T', 'H') => Some(Tag::AUTH),
        ('B', 'A', 'P', 'L') => Some(Tag::BAPL),
        ('B', 'A', 'P', 'M') => Some(Tag::BAPM),
        ('B', 'A', 'R', 'M') => Some(Tag::BARM),
        ('B', 'A', 'S', 'M') => Some(Tag::BASM),
        ('B', 'I', 'R', 'T') => Some(Tag::BIRT),
        ('B', 'L', 'E', 'S') => Some(Tag::BLES),
        ('B', 'L', 'O', 'B') => Some(Tag::BLOB),
        ('B', 'U', 'R', 'I') => Some(Tag::BURI),
        ('C', 'A', 'L', 'N') => Some(Tag::CALN),
        ('C', 'A', 'S', 'T') => Some(Tag::CAST),
        ('C', 'A', 'U', 'S') => Some(Tag::CAUS),
        ('C', 'E', 'N', 'S') => Some(Tag::CENS),
        ('C', 'H', 'A', 'N') => Some(Tag::CHAN),
        ('C', 'H', 'A', 'R') => Some(Tag::CHAR),
        ('C', 'H', 'I', 'L') => Some(Tag::CHIL),
        ('C', 'H', 'R', 'A') => Some(Tag::CHRA),
        ('C', 'I', 'T', 'Y') => Some(Tag::CITY),
        ('C', 'O', 'N', 'C') => Some(Tag::CONC),
        ('C', 'O', 'N', 'F') => Some(Tag::CONF),
        ('C', 'O', 'N', 'L') => Some(Tag::CONL),
        ('C', 'O', 'N', 'T') => Some(Tag::CONT),
        ('C', 'O', 'P', 'R') => Some(Tag::COPR),
        ('C', 'O', 'R', 'P') => Some(Tag::CORP),
        ('C', 'R', 'E', 'M') => Some(Tag::CREM),
        ('C', 'T', 'R', 'Y') => Some(Tag::CTRY),
        ('D', 'A', 'T', 'A') => Some(Tag::DATA),
        ('D', 'A', 'T', 'E') => Some(Tag::DATE),
        ('D', 'E', 'A', 'T') => Some(Tag::DEAT),
        ('D', 'E', 'S', 'C') => Some(Tag::DESC),
        ('D', 'E', 'S', 'I') => Some(Tag::DESI),
        ('D', 'E', 'S', 'T') => Some(Tag::DEST),
        ('D', 'I', 'V', 'F') => Some(Tag::DIVF),
        ('D', 'S', 'C', 'R') => Some(Tag::DSCR),
        ('E', 'D', 'U', 'C') => Some(Tag::EDUC),
        ('E', 'M', 'I', 'G') => Some(Tag::EMIG),
        ('E', 'N', 'D', 'L') => Some(Tag::ENDL),
        ('E', 'N', 'G', 'A') => Some(Tag::ENGA),
        ('E', 'V', 'E', 'N') => Some(Tag::EVEN),
        ('F', 'A', 'C', 'T') => Some(Tag::FACT),
        ('F', 'A', 'M', 'C') => Some(Tag::FAMC),
        ('F', 'A', 'M', 'F') => Some(Tag::FAMF),
        ('F', 'A', 'M', 'S') => Some(Tag::FAMS),
        ('F', 'C', 'O', 'M') => Some(Tag::FCOM),
        ('F', 'I', 'L', 'E') => Some(Tag::FILE),
        ('F', 'O', 'N', 'E') => Some(Tag::FONE),
        ('F', 'O', 'R', 'M') => Some(Tag::FORM),
        ('G', 'E', 'D', 'C') => Some(Tag::GEDC),
        ('G', 'I', 'V', 'N') => Some(Tag::GIVN),
        ('G', 'R', 'A', 'D') => Some(Tag::GRAD),
        ('H', 'E', 'A', 'D') => Some(Tag::HEAD),
        ('H', 'U', 'S', 'B') => Some(Tag::HUSB),
        ('I', 'D', 'N', 'O') => Some(Tag::IDNO),
        ('I', 'M', 'M', 'I') => Some(Tag::IMMI),
        ('I', 'N', 'D', 'I') => Some(Tag::INDI),
        ('L', 'A', 'N', 'G') => Some(Tag::LANG),
        ('L', 'A', 'T', 'I') => Some(Tag::LATI),
        ('L', 'E', 'G', 'A') => Some(Tag::LEGA),
        ('L', 'O', 'N', 'G') => Some(Tag::LONG),
        ('M', 'A', 'R', 'B') => Some(Tag::MARB),
        ('M', 'A', 'R', 'C') => Some(Tag::MARC),
        ('M', 'A', 'R', 'L') => Some(Tag::MARL),
        ('M', 'A', 'R', 'R') => Some(Tag::MARR),
        ('M', 'A', 'R', 'S') => Some(Tag::MARS),
        ('M', 'E', 'D', 'I') => Some(Tag::MEDI),
        ('N', 'A', 'M', 'E') => Some(Tag::NAME),
        ('N', 'A', 'T', 'I') => Some(Tag::NATI),
        ('N', 'A', 'T', 'U') => Some(Tag::NATU),
        ('N', 'C', 'H', 'I') => Some(Tag::NCHI),
        ('N', 'I', 'C', 'K') => Some(Tag::NICK),
        ('N', 'O', 'T', 'E') => Some(Tag::NOTE),
        ('N', 'P', 'F', 'X') => Some(Tag::NPFX),
        ('N', 'S', 'F', 'X') => Some(Tag::NSFX),
        ('O', 'B', 'J', 'E') => Some(Tag::OBJE),
        ('O', 'C', 'C', 'U') => Some(Tag::OCCU),
        ('O', 'R', 'D', 'I') => Some(Tag::ORDI),
        ('O', 'R', 'D', 'N') => Some(Tag::ORDN),
        ('P', 'A', 'G', 'E') => Some(Tag::PAGE),
        ('P', 'E', 'D', 'I') => Some(Tag::PEDI),
        ('P', 'H', 'O', 'N') => Some(Tag::PHON),
        ('P', 'L', 'A', 'C') => Some(Tag::PLAC),
        ('P', 'O', 'S', 'T') => Some(Tag::POST),
        ('P', 'R', 'O', 'B') => Some(Tag::PROB),
        ('P', 'R', 'O', 'P') => Some(Tag::PROP),
        ('P', 'U', 'B', 'L') => Some(Tag::PUBL),
        ('Q', 'U', 'A', 'Y') => Some(Tag::QUAY),
        ('R', 'E', 'F', 'N') => Some(Tag::REFN),
        ('R', 'E', 'L', 'A') => Some(Tag::RELA),
        ('R', 'E', 'L', 'I') => Some(Tag::RELI),
        ('R', 'E', 'P', 'O') => Some(Tag::REPO),
        ('R', 'E', 'S', 'I') => Some(Tag::RESI),
        ('R', 'E', 'S', 'N') => Some(Tag::RESN),
        ('R', 'E', 'T', 'I') => Some(Tag::RETI),
        ('R', 'O', 'L', 'E') => Some(Tag::ROLE),
        ('R', 'O', 'M', 'N') => Some(Tag::ROMN),
        ('S', 'L', 'G', 'C') => Some(Tag::SLGC),
        ('S', 'L', 'G', 'S') => Some(Tag::SLGS),
        ('S', 'O', 'U', 'R') => Some(Tag::SOUR),
        ('S', 'P', 'F', 'X') => Some(Tag::SPFX),
        ('S', 'T', 'A', 'E') => Some(Tag::STAE),
        ('S', 'T', 'A', 'T') => Some(Tag::STAT),
        ('S', 'U', 'B', 'M') => Some(Tag::SUBM),
        ('S', 'U', 'B', 'N') => Some(Tag::SUBN),
        ('S', 'U', 'R', 'N') => Some(Tag::SURN),
        ('T', 'E', 'M', 'P') => Some(Tag::TEMP),
        ('T', 'E', 'X', 'T') => Some(Tag::TEXT),
        ('T', 'I', 'M', 'E') => Some(Tag::TIME),
        ('T', 'I', 'T', 'L') => Some(Tag::TITL),
        ('T', 'R', 'L', 'R') => Some(Tag::TRLR),
        ('T', 'Y', 'P', 'E') => Some(Tag::TYPE),
        ('V', 'E', 'R', 'S') => Some(Tag::VERS),
        ('W', 'I', 'F', 'E') => Some(Tag::WIFE),
        ('W', 'I', 'L', 'L') => Some(Tag::WILL),
        _ => None,
    };
    proof {
        if found is Some {
            assert(found->0@ =~= seq![a, b, c, d]);
        } else {
            assert forall|t: Tag| t.is_known() && t@.len() == 4 implies t@ != seq![a, b, c, d] by {
                if t@ == seq![a, b, c, d] {
                    assert(t@[0] == a);
                    assert(t@[1] == b);
                    assert(t@[2] == c);
                    assert(t@[3] == d);
                }
            }
        }
    }
    found
}

/// The standard tag of 5 characters that is spelled by the arguments.
fn lookup5(a: char, b: char, c: char, d: char, e: char) -> (found: Option<Tag>)
    ensures
        match found {
            Some(t) => t.is_known() && t@ == seq![a, b, c, d, e],
            None => forall|t: Tag| t.is_known() && t@.len() == 5 ==> t@ != seq![a, b, c, d, e],
        },
{
    let found = match (a, b, c, d, e) {
        ('E', 'M', 'A', 'I', 'L') => Some(Tag::EMAIL),
        _ => None,
    };
    proof {
        if found is Some {
            assert(found->0@ =~= seq![a, b, c, d, e]);
        } else {
            assert forall|t: Tag| t.is_known() && t@.len() == 5 implies t@ != seq![a, b, c, d, e] by {
                if t@ == seq![a, b, c, d, e] {
                    assert(t@[0] == a);
                    assert(t@[1] == b);
                    assert(t@[2] == c);
                    assert(t@[3] == d);
                    assert(t@[4] == e);
                }
            }
        }
    }
    found
}

} // verus!
