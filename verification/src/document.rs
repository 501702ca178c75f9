//! The parsed dictionary: one record type per element of the document, each
//! with its mathematical view.

use vstd::prelude::*;

verus! {

/// The view of an optional string.
pub open spec fn opt_text(o: Option<String>) -> Option<Seq<char>> {
    match o {
        Some(s) => Some(s@),
        None => None,
    }
}

/// The views of a sequence of strings.
pub open spec fn texts(v: Seq<String>) -> Seq<Seq<char>> {
    v.map_values(|s: String| s@)
}

/// A code point of the character under one encoding standard.
#[derive(Debug)]
pub struct CpValue {
    pub cp_type: String,
    pub value: String,
}

/// What a `CpValue` holds, as mathematical values.
#[verifier::ext_equal]
pub struct CpValueView {
    pub cp_type: Seq<char>,
    pub value: Seq<char>,
}

impl View for CpValue {
    type V = CpValueView;

    open spec fn view(&self) -> CpValueView {
        CpValueView { cp_type: self.cp_type@, value: self.value@ }
    }
}

/// The code points of a character.
#[derive(Debug)]
pub struct Codepoint {
    pub cp_value: Vec<CpValue>,
}

/// What a `Codepoint` holds, as mathematical values.
#[verifier::ext_equal]
pub struct CodepointView {
    pub cp_value: Seq<CpValueView>,
}

impl View for Codepoint {
    type V = CodepointView;

    open spec fn view(&self) -> CodepointView {
        CodepointView { cp_value: self.cp_value@.map_values(|c: CpValue| c@) }
    }
}

/// A radical number of the character under one classification.
#[derive(Debug)]
pub struct RadValue {
    pub rad_type: String,
    pub rad_value: u64,
}

/// What a `RadValue` holds, as mathematical values.
#[verifier::ext_equal]
pub struct RadValueView {
    pub rad_type: Seq<char>,
    pub rad_value: u64,
}

impl View for RadValue {
    type V = RadValueView;

    open spec fn view(&self) -> RadValueView {
        RadValueView { rad_type: self.rad_type@, rad_value: self.rad_value }
    }
}

/// The radicals of a character.
#[derive(Debug)]
pub struct Radical {
    pub rad_value: Vec<RadValue>,
}

/// What a `Radical` holds, as mathematical values.
#[verifier::ext_equal]
pub struct RadicalView {
    pub rad_value: Seq<RadValueView>,
}

impl View for Radical {
    type V = RadicalView;

    open spec fn view(&self) -> RadicalView {
        RadicalView { rad_value: self.rad_value@.map_values(|r: RadValue| r@) }
    }
}

/// A cross-reference to a variant of the character.
#[derive(Debug)]
pub struct MiscVariant {
    pub var_type: String,
    pub var_value: String,
}

/// What a `MiscVariant` holds, as mathematical values.
#[verifier::ext_equal]
pub struct MiscVariantView {
    pub var_type: Seq<char>,
    pub var_value: Seq<char>,
}

impl View for MiscVariant {
    type V = MiscVariantView;

    open spec fn view(&self) -> MiscVariantView {
        MiscVariantView { var_type: self.var_type@, var_value: self.var_value@ }
    }
}

/// The view of an optional variant.
pub open spec fn opt_variant(o: Option<MiscVariant>) -> Option<MiscVariantView> {
    match o {
        Some(v) => Some(v@),
        None => None,
    }
}

/// Miscellaneous facts about a character: the school grade in which it is
/// taught, its stroke counts, a variant, its frequency rank, the level of the
/// proficiency test that asks for it, and the name of its radical.
#[derive(Debug)]
pub struct Misc {
    pub grade: Option<u64>,
    pub stroke_count: Vec<u64>,
    pub variant: Option<MiscVariant>,
    pub freq: Option<u64>,
    pub jlpt: Option<u64>,
    pub rad_name: Option<String>,
}

/// What a `Misc` holds, as mathematical values.
#[verifier::ext_equal]
pub struct MiscView {
    pub grade: Option<u64>,
    pub stroke_count: Seq<u64>,
    pub variant: Option<MiscVariantView>,
    pub freq: Option<u64>,
    pub jlpt: Option<u64>,
    pub rad_name: Option<Seq<char>>,
}

impl View for Misc {
    type V = MiscView;

    open spec fn view(&self) -> MiscView {
        MiscView {
            grade: self.grade,
            stroke_count: self.stroke_count@,
            variant: opt_variant(self.variant),
            freq: self.freq,
            jlpt: self.jlpt,
            rad_name: opt_text(self.rad_name),
        }
    }
}

/// A citation of the character in a printed dictionary.
#[derive(Debug)]
pub struct DicRef {
    pub dr_type: String,
    pub dr_value: String,
    pub m_vol: Option<u64>,
    pub m_page: Option<u64>,
}

/// What a `DicRef` holds, as mathematical values.
#[verifier::ext_equal]
pub struct DicRefView {
    pub dr_type: Seq<char>,
    pub dr_value: Seq<char>,
    pub m_vol: Option<u64>,
    pub m_page: Option<u64>,
}

impl View for DicRef {
    type V = DicRefView;

    open spec fn view(&self) -> DicRefView {
        DicRefView {
            dr_type: self.dr_type@,
            dr_value: self.dr_value@,
            m_vol: self.m_vol,
            m_page: self.m_page,
        }
    }
}

/// The citations of a character.
#[derive(Debug)]
pub struct DicNumber {
    pub dic_ref: Vec<DicRef>,
}

/// What a `DicNumber` holds, as mathematical values.
#[verifier::ext_equal]
pub struct DicNumberView {
    pub dic_ref: Seq<DicRefView>,
}

impl View for DicNumber {
    type V = DicNumberView;

    open spec fn view(&self) -> DicNumberView {
        DicNumberView { dic_ref: self.dic_ref@.map_values(|d: DicRef| d@) }
    }
}

/// The view of optional citations.
pub open spec fn opt_dic_number(o: Option<DicNumber>) -> Option<DicNumberView> {
    match o {
        Some(d) => Some(d@),
        None => None,
    }
}

/// A code by which the character is found under one lookup method.
#[derive(Debug)]
pub struct QCode {
    pub qc_type: String,
    pub qc_value: String,
    pub skip_misclass: Option<String>,
}

/// What a `QCode` holds, as mathematical values.
#[verifier::ext_equal]
pub struct QCodeView {
    pub qc_type: Seq<char>,
    pub qc_value: Seq<char>,
    pub skip_misclass: Option<Seq<char>>,
}

impl View for QCode {
    type V = QCodeView;

    open spec fn view(&self) -> QCodeView {
        QCodeView {
            qc_type: self.qc_type@,
            qc_value: self.qc_value@,
            skip_misclass: opt_text(self.skip_misclass),
        }
    }
}

/// The lookup codes of a character.
#[derive(Debug)]
pub struct QueryCode {
    pub q_code: Vec<QCode>,
}

/// What a `QueryCode` holds, as mathematical values.
#[verifier::ext_equal]
pub struct QueryCodeView {
    pub q_code: Seq<QCodeView>,
}

impl View for QueryCode {
    type V = QueryCodeView;

    open spec fn view(&self) -> QueryCodeView {
        QueryCodeView { q_code: self.q_code@.map_values(|q: QCode| q@) }
    }
}

/// A gloss of the character, tagged with its language where that is not
/// English.
#[derive(Debug)]
pub struct Meaning {
    pub m_lang: Option<String>,
    pub meaning: String,
}

/// What a `Meaning` holds, as mathematical values.
#[verifier::ext_equal]
pub struct MeaningView {
    pub m_lang: Option<Seq<char>>,
    pub meaning: Seq<char>,
}

impl View for Meaning {
    type V = MeaningView;

    open spec fn view(&self) -> MeaningView {
        MeaningView { m_lang: opt_text(self.m_lang), meaning: self.meaning@ }
    }
}

/// A pronunciation of the character, tagged with its kind.
#[derive(Debug)]
pub struct Reading {
    pub r_type: String,
    pub r_value: String,
}

/// What a `Reading` holds, as mathematical values.
#[verifier::ext_equal]
pub struct ReadingView {
    pub r_type: Seq<char>,
    pub r_value: Seq<char>,
}

impl View for Reading {
    type V = ReadingView;

    open spec fn view(&self) -> ReadingView {
        ReadingView { r_type: self.r_type@, r_value: self.r_value@ }
    }
}

/// A group of readings with the meanings that go with them.
#[derive(Debug)]
pub struct RMGroup {
    pub reading: Vec<Reading>,
    pub meaning: Vec<Meaning>,
}

/// What a `RMGroup` holds, as mathematical values.
#[verifier::ext_equal]
pub struct RMGroupView {
    pub reading: Seq<ReadingView>,
    pub meaning: Seq<MeaningView>,
}

impl View for RMGroup {
    type V = RMGroupView;

    open spec fn view(&self) -> RMGroupView {
        RMGroupView {
            reading: self.reading@.map_values(|r: Reading| r@),
            meaning: self.meaning@.map_values(|m: Meaning| m@),
        }
    }
}

/// The readings and meanings of a character, and its readings in names.
#[derive(Debug)]
pub struct ReadingMeaning {
    pub rmgroup: Vec<RMGroup>,
    pub nanori: Vec<String>,
}

/// What a `ReadingMeaning` holds, as mathematical values.
#[verifier::ext_equal]
pub struct ReadingMeaningView {
    pub rmgroup: Seq<RMGroupView>,
    pub nanori: Seq<Seq<char>>,
}

impl View for ReadingMeaning {
    type V = ReadingMeaningView;

    open spec fn view(&self) -> ReadingMeaningView {
        ReadingMeaningView {
            rmgroup: self.rmgroup@.map_values(|g: RMGroup| g@),
            nanori: texts(self.nanori@),
        }
    }
}

/// The view of optional readings and meanings.
pub open spec fn opt_reading_meaning(o: Option<ReadingMeaning>) -> Option<ReadingMeaningView> {
    match o {
        Some(r) => Some(r@),
        None => None,
    }
}

/// One character of the dictionary with everything recorded about it.
#[derive(Debug)]
pub struct Character {
    pub literal: String,
    pub codepoint: Codepoint,
    pub radical: Radical,
    pub misc: Misc,
    pub dic_number: Option<DicNumber>,
    pub query_code: QueryCode,
    pub reading_meaning: Option<ReadingMeaning>,
}

/// What a `Character` holds, as mathematical values.
#[verifier::ext_equal]
pub struct CharacterView {
    pub literal: Seq<char>,
    pub codepoint: CodepointView,
    pub radical: RadicalView,
    pub misc: MiscView,
    pub dic_number: Option<DicNumberView>,
    pub query_code: QueryCodeView,
    pub reading_meaning: Option<ReadingMeaningView>,
}

impl View for Character {
    type V = CharacterView;

    open spec fn view(&self) -> CharacterView {
        CharacterView {
            literal: self.literal@,
            codepoint: self.codepoint@,
            radical: self.radical@,
            misc: self.misc@,
            dic_number: opt_dic_number(self.dic_number),
            query_code: self.query_code@,
            reading_meaning: opt_reading_meaning(self.reading_meaning),
        }
    }
}

/// The header of the dictionary: the version of its format, the version of
/// the database it was made from, and the date it was made.
#[derive(Debug)]
pub struct Dict2Header {
    pub file_version: u64,
    pub database_version: String,
    pub date_of_creation: String,
}

/// What a `Dict2Header` holds, as mathematical values.
#[verifier::ext_equal]
pub struct Dict2HeaderView {
    pub file_version: u64,
    pub database_version: Seq<char>,
    pub date_of_creation: Seq<char>,
}

impl View for Dict2Header {
    type V = Dict2HeaderView;

    open spec fn view(&self) -> Dict2HeaderView {
        Dict2HeaderView {
            file_version: self.file_version,
            database_version: self.database_version@,
            date_of_creation: self.date_of_creation@,
        }
    }
}

/// The dictionary: its header and its characters in document order.
#[derive(Debug)]
pub struct Dict2 {
    pub header: Dict2Header,
    pub character: Vec<Character>,
}

/// What a `Dict2` holds, as mathematical values.
#[verifier::ext_equal]
pub struct Dict2View {
    pub header: Dict2HeaderView,
    pub character: Seq<CharacterView>,
}

impl View for Dict2 {
    type V = Dict2View;

    open spec fn view(&self) -> Dict2View {
        Dict2View {
            header: self.header@,
            character: self.character@.map_values(|c: Character| c@),
        }
    }
}

} // verus!
