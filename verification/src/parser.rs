//! The elements of the dictionary that hold other elements, read strictly:
//! an element fails to parse where it holds an attribute or a child that the
//! schema does not declare, a second occurrence of a child that may occur
//! once, or lacks a required child.

use crate::document::{
    opt_text, Character, CharacterView, Codepoint, CodepointView, CpValue, DicNumber,
    DicNumberView, DicRef, Dict2, Dict2Header, Dict2HeaderView, Dict2View, Meaning, Misc,
    MiscVariant, MiscView, QCode, QueryCode, QueryCodeView, RMGroup, RMGroupView, RadValue,
    Radical, RadicalView, Reading, ReadingMeaning, ReadingMeaningView,
};
use crate::elements::{element_list, read_list, read_text_element, text_element, views};
use crate::schema::{
    container_entered, enter_container, entered, flat_text, next_child, read_flat_text,
    same_text, starts, XmlFailure,
};
use crate::xml::{child_step, decimal_u64, open_reader, parse_u64, pending, xml_events, XmlEvent};
use vstd::prelude::*;

verus! {

/// The step `step` taken from the pending events `p`, where it has consumed
/// at least one event.
pub open spec fn shorter<A>(step: Option<(A, Seq<XmlEvent>)>, p: Seq<XmlEvent>) -> Option<
    (A, Seq<XmlEvent>),
> {
    match step {
        Some((a, rest)) => if rest.len() < p.len() {
            Some((a, rest))
        } else {
            None
        },
        None => None,
    }
}

/// Reads the text of the child `tag` as a decimal number.
pub open spec fn flat_number(p: Seq<XmlEvent>, tag: Seq<char>) -> Option<(u64, Seq<XmlEvent>)> {
    match flat_text(p, tag) {
        Some((t, rest)) => match decimal_u64(t) {
            Some(n) => Some((n, rest)),
            None => None,
        },
        None => None,
    }
}

/// Reads the text of the child `tag`, whose start is the first pending event,
/// as a decimal number.
pub fn read_flat_number(reader: &mut hard_xml::XmlReader<'_>, tag: &str) -> (r: Result<
    u64,
    XmlFailure,
>)
    ensures
        match r {
            Ok(n) => flat_number(pending(*old(reader)), tag@) == Some((n, pending(*final(reader)))),
            Err(_) => flat_number(pending(*old(reader)), tag@) is None,
        },
        r is Ok ==> pending(*final(reader)).len() <= pending(*old(reader)).len(),
        r is Ok && pending(*old(reader)).len() > 0 ==> pending(*final(reader)).len() < pending(
            *old(reader),
        ).len(),
{
    let text = read_flat_text(reader, tag)?;
    match parse_u64(text.as_str()) {
        Some(n) => Ok(n),
        None => Err(XmlFailure::InvalidNumber(text)),
    }
}

impl Codepoint {
    /// Reads a `codepoint` element: a list of `cp_value` elements.
    pub open spec fn parse(p: Seq<XmlEvent>) -> Option<(CodepointView, Seq<XmlEvent>)> {
        match element_list::<CpValue>(p, "codepoint"@) {
            Some((cp_value, rest)) => Some((CodepointView { cp_value }, rest)),
            None => None,
        }
    }

    /// Reads the element from `reader`, strictly. It succeeds exactly where
    /// `parse` does on the pending events, with that result and those events
    /// left.
    pub fn from_reader(reader: &mut hard_xml::XmlReader<'_>) -> (r: Result<Self, XmlFailure>)
        ensures
            match r {
                Ok(v) => Self::parse(pending(*old(reader))) == Some((v@, pending(*final(reader)))),
                Err(_) => Self::parse(pending(*old(reader))) is None,
            },
            r is Ok ==> pending(*final(reader)).len() <= pending(*old(reader)).len(),
            r is Ok && starts(pending(*old(reader)), "codepoint"@) ==> pending(
                *final(reader),
            ).len() < pending(*old(reader)).len(),
    {
        let cp_value = read_list::<CpValue>(reader, "codepoint", "Codepoint", "CpValue")?;
        Ok(Codepoint { cp_value })
    }
}

impl Radical {
    /// Reads a `radical` element: a list of `rad_value` elements.
    pub open spec fn parse(p: Seq<XmlEvent>) -> Option<(RadicalView, Seq<XmlEvent>)> {
        match element_list::<RadValue>(p, "radical"@) {
            Some((rad_value, rest)) => Some((RadicalView { rad_value }, rest)),
            None => None,
        }
    }

    /// Reads the element from `reader`, strictly. It succeeds exactly where
    /// `parse` does on the pending events, with that result and those events
    /// left.
    pub fn from_reader(reader: &mut hard_xml::XmlReader<'_>) -> (r: Result<Self, XmlFailure>)
        ensures
            match r {
                Ok(v) => Self::parse(pending(*old(reader))) == Some((v@, pending(*final(reader)))),
                Err(_) => Self::parse(pending(*old(reader))) is None,
            },
            r is Ok ==> pending(*final(reader)).len() <= pending(*old(reader)).len(),
            r is Ok && starts(pending(*old(reader)), "radical"@) ==> pending(*final(reader)).len()
                < pending(*old(reader)).len(),
    {
        let rad_value = read_list::<RadValue>(reader, "radical", "Radical", "RadValue")?;
        Ok(Radical { rad_value })
    }
}

impl DicNumber {
    /// Reads a `dic_number` element: a list of `dic_ref` elements.
    pub open spec fn parse(p: Seq<XmlEvent>) -> Option<(DicNumberView, Seq<XmlEvent>)> {
        match element_list::<DicRef>(p, "dic_number"@) {
            Some((dic_ref, rest)) => Some((DicNumberView { dic_ref }, rest)),
            None => None,
        }
    }

    /// Reads the element from `reader`, strictly. It succeeds exactly where
    /// `parse` does on the pending events, with that result and those events
    /// left.
    pub fn from_reader(reader: &mut hard_xml::XmlReader<'_>) -> (r: Result<Self, XmlFailure>)
        ensures
            match r {
                Ok(v) => Self::parse(pending(*old(reader))) == Some((v@, pending(*final(reader)))),
                Err(_) => Self::parse(pending(*old(reader))) is None,
            },
            r is Ok ==> pending(*final(reader)).len() <= pending(*old(reader)).len(),
            r is Ok && starts(pending(*old(reader)), "dic_number"@) ==> pending(
                *final(reader),
            ).len() < pending(*old(reader)).len(),
    {
        let dic_ref = read_list::<DicRef>(reader, "dic_number", "DicNumber", "DicRef")?;
        Ok(DicNumber { dic_ref })
    }
}

impl QueryCode {
    /// Reads a `query_code` element: a list of `q_code` elements.
    pub open spec fn parse(p: Seq<XmlEvent>) -> Option<(QueryCodeView, Seq<XmlEvent>)> {
        match element_list::<QCode>(p, "query_code"@) {
            Some((q_code, rest)) => Some((QueryCodeView { q_code }, rest)),
            None => None,
        }
    }

    /// Reads the element from `reader`, strictly. It succeeds exactly where
    /// `parse` does on the pending events, with that result and those events
    /// left.
    pub fn from_reader(reader: &mut hard_xml::XmlReader<'_>) -> (r: Result<Self, XmlFailure>)
        ensures
            match r {
                Ok(v) => Self::parse(pending(*old(reader))) == Some((v@, pending(*final(reader)))),
                Err(_) => Self::parse(pending(*old(reader))) is None,
            },
            r is Ok ==> pending(*final(reader)).len() <= pending(*old(reader)).len(),
            r is Ok && starts(pending(*old(reader)), "query_code"@) ==> pending(
                *final(reader),
            ).len() < pending(*old(reader)).len(),
    {
        let q_code = read_list::<QCode>(reader, "query_code", "QueryCode", "QCode")?;
        Ok(QueryCode { q_code })
    }
}

/// A `misc` element that holds nothing.
pub open spec fn empty_misc() -> MiscView {
    MiscView {
        grade: None,
        stroke_count: Seq::empty(),
        variant: None,
        freq: None,
        jlpt: None,
        rad_name: None,
    }
}

/// Reads the children of a `misc` element into `acc`, up to its closing tag.
pub open spec fn misc_children(p: Seq<XmlEvent>, acc: MiscView) -> Option<(MiscView, Seq<XmlEvent>)>
    decreases p.len(),
{
    match child_step(p, "misc"@) {
        Some((Some(name), q)) => if name == "variant"@ {
            match shorter(text_element::<MiscVariant>(q), p) {
                Some((v, rest)) if acc.variant is None => misc_children(
                    rest,
                    MiscView { variant: Some(v), ..acc },
                ),
                _ => None,
            }
        } else if name == "grade"@ {
            match shorter(flat_number(q, "grade"@), p) {
                Some((n, rest)) if acc.grade is None => misc_children(
                    rest,
                    MiscView { grade: Some(n), ..acc },
                ),
                _ => None,
            }
        } else if name == "stroke_count"@ {
            match shorter(flat_number(q, "stroke_count"@), p) {
                Some((n, rest)) => misc_children(
                    rest,
                    MiscView { stroke_count: acc.stroke_count.push(n), ..acc },
                ),
                _ => None,
            }
        } else if name == "freq"@ {
            match shorter(flat_number(q, "freq"@), p) {
                Some((n, rest)) if acc.freq is None => misc_children(
                    rest,
                    MiscView { freq: Some(n), ..acc },
                ),
                _ => None,
            }
        } else if name == "jlpt"@ {
            match shorter(flat_number(q, "jlpt"@), p) {
                Some((n, rest)) if acc.jlpt is None => misc_children(
                    rest,
                    MiscView { jlpt: Some(n), ..acc },
                ),
                _ => None,
            }
        } else if name == "rad_name"@ {
            match shorter(flat_text(q, "rad_name"@), p) {
                Some((t, rest)) if acc.rad_name is None => misc_children(
                    rest,
                    MiscView { rad_name: Some(t), ..acc },
                ),
                _ => None,
            }
        } else {
            None
        },
        Some((None, rest)) => Some((acc, rest)),
        None => None,
    }
}

impl Misc {
    /// Reads a `misc` element. Each of `grade`, `variant`, `freq`, `jlpt`
    /// and `rad_name` may occur once; `stroke_count` may repeat.
    pub open spec fn parse(p: Seq<XmlEvent>) -> Option<(MiscView, Seq<XmlEvent>)> {
        match container_entered(p, "misc"@) {
            Some((empty, inside)) => if empty {
                Some((empty_misc(), inside))
            } else {
                misc_children(inside, empty_misc())
            },
            None => None,
        }
    }

    /// Reads the element from `reader`, strictly. It succeeds exactly where
    /// `parse` does on the pending events, with that result and those events
    /// left.
    pub fn from_reader(reader: &mut hard_xml::XmlReader<'_>) -> (r: Result<Self, XmlFailure>)
        ensures
            match r {
                Ok(v) => Self::parse(pending(*old(reader))) == Some((v@, pending(*final(reader)))),
                Err(_) => Self::parse(pending(*old(reader))) is None,
            },
            r is Ok ==> pending(*final(reader)).len() <= pending(*old(reader)).len(),
            r is Ok && starts(pending(*old(reader)), "misc"@) ==> pending(*final(reader)).len()
                < pending(*old(reader)).len(),
    {
        let mut misc = Misc {
            grade: None,
            stroke_count: Vec::new(),
            variant: None,
            freq: None,
            jlpt: None,
            rad_name: None,
        };
        let empty = enter_container(reader, "misc", "Misc")?;
        assert(misc@ =~~= empty_misc());
        if empty {
            return Ok(misc);
        }
        let ghost entered = pending(*reader);
        loop
            invariant
                pending(*reader).len() <= entered.len(),
                entered.len() <= pending(*old(reader)).len(),
                starts(pending(*old(reader)), "misc"@) ==> entered.len() < pending(
                    *old(reader),
                ).len(),
                Self::parse(pending(*old(reader))) == misc_children(entered, empty_misc()),
                misc_children(entered, empty_misc()) == misc_children(pending(*reader), misc@),
            decreases pending(*reader).len(),
        {
            let name = match next_child(reader, "misc")? {
                None => {
                    return Ok(misc);
                },
                Some(name) => name,
            };
            let ghost before = misc@;
            if same_text(name.as_str(), "variant") {
                if misc.variant.is_some() {
                    return Err(XmlFailure::DuplicateElement(name));
                }
                let v = read_text_element::<MiscVariant>(reader, "MiscVariant")?;
                misc.variant = Some(v);
                assert(misc@ =~~= MiscView { variant: Some(v@), ..before });
            } else if same_text(name.as_str(), "grade") {
                if misc.grade.is_some() {
                    return Err(XmlFailure::DuplicateElement(name));
                }
                let n = read_flat_number(reader, "grade")?;
                misc.grade = Some(n);
                assert(misc@ =~~= MiscView { grade: Some(n), ..before });
            } else if same_text(name.as_str(), "stroke_count") {
                let n = read_flat_number(reader, "stroke_count")?;
                misc.stroke_count.push(n);
                assert(misc@ =~~= MiscView { stroke_count: before.stroke_count.push(n), ..before });
            } else if same_text(name.as_str(), "freq") {
                if misc.freq.is_some() {
                    return Err(XmlFailure::DuplicateElement(name));
                }
                let n = read_flat_number(reader, "freq")?;
                misc.freq = Some(n);
                assert(misc@ =~~= MiscView { freq: Some(n), ..before });
            } else if same_text(name.as_str(), "jlpt") {
                if misc.jlpt.is_some() {
                    return Err(XmlFailure::DuplicateElement(name));
                }
                let n = read_flat_number(reader, "jlpt")?;
                misc.jlpt = Some(n);
                assert(misc@ =~~= MiscView { jlpt: Some(n), ..before });
            } else if same_text(name.as_str(), "rad_name") {
                if misc.rad_name.is_some() {
                    return Err(XmlFailure::DuplicateElement(name));
                }
                let t = read_flat_text(reader, "rad_name")?;
                misc.rad_name = Some(t);
                assert(misc@ =~~= MiscView { rad_name: Some(t@), ..before });
            } else {
                return Err(XmlFailure::UnknownField { name: "Misc".to_owned(), field: name });
            }
        }
    }
}

/// A group of readings and meanings that holds nothing.
pub open spec fn empty_rmgroup() -> RMGroupView {
    RMGroupView { reading: Seq::empty(), meaning: Seq::empty() }
}

/// Reads the children of an `rmgroup` element into `acc`, up to its closing
/// tag.
pub open spec fn rmgroup_children(p: Seq<XmlEvent>, acc: RMGroupView) -> Option<
    (RMGroupView, Seq<XmlEvent>),
>
    decreases p.len(),
{
    match child_step(p, "rmgroup"@) {
        Some((Some(name), q)) => if name == "reading"@ {
            match shorter(text_element::<Reading>(q), p) {
                Some((v, rest)) => rmgroup_children(
                    rest,
                    RMGroupView { reading: acc.reading.push(v), ..acc },
                ),
                None => None,
            }
        } else if name == "meaning"@ {
            match shorter(text_element::<Meaning>(q), p) {
                Some((v, rest)) => rmgroup_children(
                    rest,
                    RMGroupView { meaning: acc.meaning.push(v), ..acc },
                ),
                None => None,
            }
        } else {
            None
        },
        Some((None, rest)) => Some((acc, rest)),
        None => None,
    }
}

impl RMGroup {
    /// Reads an `rmgroup` element: `reading` and `meaning` elements in any
    /// order and number.
    pub open spec fn parse(p: Seq<XmlEvent>) -> Option<(RMGroupView, Seq<XmlEvent>)> {
        match container_entered(p, "rmgroup"@) {
            Some((empty, inside)) => if empty {
                Some((empty_rmgroup(), inside))
            } else {
                rmgroup_children(inside, empty_rmgroup())
            },
            None => None,
        }
    }

    /// Reads the element from `reader`, strictly. It succeeds exactly where
    /// `parse` does on the pending events, with that result and those events
    /// left.
    pub fn from_reader(reader: &mut hard_xml::XmlReader<'_>) -> (r: Result<Self, XmlFailure>)
        ensures
            match r {
                Ok(v) => Self::parse(pending(*old(reader))) == Some((v@, pending(*final(reader)))),
                Err(_) => Self::parse(pending(*old(reader))) is None,
            },
            r is Ok ==> pending(*final(reader)).len() <= pending(*old(reader)).len(),
            r is Ok && starts(pending(*old(reader)), "rmgroup"@) ==> pending(*final(reader)).len()
                < pending(*old(reader)).len(),
    {
        let mut group = RMGroup { reading: Vec::new(), meaning: Vec::new() };
        let empty = enter_container(reader, "rmgroup", "RMGroup")?;
        assert(group@ =~~= empty_rmgroup());
        if empty {
            return Ok(group);
        }
        let ghost entered = pending(*reader);
        loop
            invariant
                pending(*reader).len() <= entered.len(),
                entered.len() <= pending(*old(reader)).len(),
                starts(pending(*old(reader)), "rmgroup"@) ==> entered.len() < pending(
                    *old(reader),
                ).len(),
                Self::parse(pending(*old(reader))) == rmgroup_children(entered, empty_rmgroup()),
                rmgroup_children(entered, empty_rmgroup()) == rmgroup_children(
                    pending(*reader),
                    group@,
                ),
            decreases pending(*reader).len(),
        {
            let name = match next_child(reader, "rmgroup")? {
                None => {
                    return Ok(group);
                },
                Some(name) => name,
            };
            let ghost before = group@;
            if same_text(name.as_str(), "reading") {
                let v = read_text_element::<Reading>(reader, "Reading")?;
                group.reading.push(v);
                assert(group@ =~~= RMGroupView { reading: before.reading.push(v@), ..before });
            } else if same_text(name.as_str(), "meaning") {
                let v = read_text_element::<Meaning>(reader, "Meaning")?;
                group.meaning.push(v);
                assert(group@ =~~= RMGroupView { meaning: before.meaning.push(v@), ..before });
            } else {
                return Err(XmlFailure::UnknownField { name: "RMGroup".to_owned(), field: name });
            }
        }
    }
}

/// Readings and meanings that hold nothing.
pub open spec fn empty_reading_meaning() -> ReadingMeaningView {
    ReadingMeaningView { rmgroup: Seq::empty(), nanori: Seq::empty() }
}

/// Reads the children of a `reading_meaning` element into `acc`, up to its
/// closing tag.
pub open spec fn reading_meaning_children(p: Seq<XmlEvent>, acc: ReadingMeaningView) -> Option<
    (ReadingMeaningView, Seq<XmlEvent>),
>
    decreases p.len(),
{
    match child_step(p, "reading_meaning"@) {
        Some((Some(name), q)) => if name == "rmgroup"@ {
            match shorter(RMGroup::parse(q), p) {
                Some((v, rest)) => reading_meaning_children(
                    rest,
                    ReadingMeaningView { rmgroup: acc.rmgroup.push(v), ..acc },
                ),
                None => None,
            }
        } else if name == "nanori"@ {
            match shorter(flat_text(q, "nanori"@), p) {
                Some((t, rest)) => reading_meaning_children(
                    rest,
                    ReadingMeaningView { nanori: acc.nanori.push(t), ..acc },
                ),
                None => None,
            }
        } else {
            None
        },
        Some((None, rest)) => Some((acc, rest)),
        None => None,
    }
}

impl ReadingMeaning {
    /// Reads a `reading_meaning` element: `rmgroup` and `nanori` elements in
    /// any order and number.
    pub open spec fn parse(p: Seq<XmlEvent>) -> Option<(ReadingMeaningView, Seq<XmlEvent>)> {
        match container_entered(p, "reading_meaning"@) {
            Some((empty, inside)) => if empty {
                Some((empty_reading_meaning(), inside))
            } else {
                reading_meaning_children(inside, empty_reading_meaning())
            },
            None => None,
        }
    }

    /// Reads the element from `reader`, strictly. It succeeds exactly where
    /// `parse` does on the pending events, with that result and those events
    /// left.
    pub fn from_reader(reader: &mut hard_xml::XmlReader<'_>) -> (r: Result<Self, XmlFailure>)
        ensures
            match r {
                Ok(v) => Self::parse(pending(*old(reader))) == Some((v@, pending(*final(reader)))),
                Err(_) => Self::parse(pending(*old(reader))) is None,
            },
            r is Ok ==> pending(*final(reader)).len() <= pending(*old(reader)).len(),
            r is Ok && starts(pending(*old(reader)), "reading_meaning"@) ==> pending(
                *final(reader),
            ).len() < pending(*old(reader)).len(),
    {
        let mut rm = ReadingMeaning { rmgroup: Vec::new(), nanori: Vec::new() };
        let empty = enter_container(reader, "reading_meaning", "ReadingMeaning")?;
        assert(rm@ =~~= empty_reading_meaning());
        if empty {
            return Ok(rm);
        }
        let ghost entered = pending(*reader);
        loop
            invariant
                pending(*reader).len() <= entered.len(),
                entered.len() <= pending(*old(reader)).len(),
                starts(pending(*old(reader)), "reading_meaning"@) ==> entered.len() < pending(
                    *old(reader),
                ).len(),
                Self::parse(pending(*old(reader))) == reading_meaning_children(
                    entered,
                    empty_reading_meaning(),
                ),
                reading_meaning_children(entered, empty_reading_meaning())
                    == reading_meaning_children(pending(*reader), rm@),
            decreases pending(*reader).len(),
        {
            let name = match next_child(reader, "reading_meaning")? {
                None => {
                    return Ok(rm);
                },
                Some(name) => name,
            };
            let ghost before = rm@;
            if same_text(name.as_str(), "rmgroup") {
                let v = RMGroup::from_reader(reader)?;
                rm.rmgroup.push(v);
                assert(rm@ =~~= ReadingMeaningView { rmgroup: before.rmgroup.push(v@), ..before });
            } else if same_text(name.as_str(), "nanori") {
                let t = read_flat_text(reader, "nanori")?;
                rm.nanori.push(t);
                assert(rm@ =~~= ReadingMeaningView { nanori: before.nanori.push(t@), ..before });
            } else {
                return Err(
                    XmlFailure::UnknownField { name: "ReadingMeaning".to_owned(), field: name },
                );
            }
        }
    }
}

/// The children of a `header` element read so far.
#[verifier::ext_equal]
pub struct HeaderParts {
    pub file_version: Option<u64>,
    pub database_version: Option<Seq<char>>,
    pub date_of_creation: Option<Seq<char>>,
}

/// A `header` element of which nothing has been read.
pub open spec fn empty_header() -> HeaderParts {
    HeaderParts { file_version: None, database_version: None, date_of_creation: None }
}

/// The header that `parts` make up, or `None` where a child is missing.
pub open spec fn header_of(parts: HeaderParts) -> Option<Dict2HeaderView> {
    match (parts.file_version, parts.database_version, parts.date_of_creation) {
        (Some(file_version), Some(database_version), Some(date_of_creation)) => Some(
            Dict2HeaderView { file_version, database_version, date_of_creation },
        ),
        _ => None,
    }
}

/// Reads the children of a `header` element into `acc`, up to its closing
/// tag.
pub open spec fn header_children(p: Seq<XmlEvent>, acc: HeaderParts) -> Option<
    (HeaderParts, Seq<XmlEvent>),
>
    decreases p.len(),
{
    match child_step(p, "header"@) {
        Some((Some(name), q)) => if name == "file_version"@ {
            match shorter(flat_number(q, "file_version"@), p) {
                Some((n, rest)) if acc.file_version is None => header_children(
                    rest,
                    HeaderParts { file_version: Some(n), ..acc },
                ),
                _ => None,
            }
        } else if name == "database_version"@ {
            match shorter(flat_text(q, "database_version"@), p) {
                Some((t, rest)) if acc.database_version is None => header_children(
                    rest,
                    HeaderParts { database_version: Some(t), ..acc },
                ),
                _ => None,
            }
        } else if name == "date_of_creation"@ {
            match shorter(flat_text(q, "date_of_creation"@), p) {
                Some((t, rest)) if acc.date_of_creation is None => header_children(
                    rest,
                    HeaderParts { date_of_creation: Some(t), ..acc },
                ),
                _ => None,
            }
        } else {
            None
        },
        Some((None, rest)) => Some((acc, rest)),
        None => None,
    }
}

/// Takes a required child, or reports it missing.
pub fn required_child<T>(o: Option<T>, element: &str, field: &str) -> (r: Result<T, XmlFailure>)
    ensures
        match r {
            Ok(v) => o == Some(v),
            Err(_) => o is None,
        },
{
    match o {
        Some(v) => Ok(v),
        None => Err(XmlFailure::MissingField { name: element.to_owned(), field: field.to_owned() }),
    }
}

impl Dict2Header {
    /// Reads a `header` element: `file_version`, `database_version` and
    /// `date_of_creation`, each exactly once, in any order.
    pub open spec fn parse(p: Seq<XmlEvent>) -> Option<(Dict2HeaderView, Seq<XmlEvent>)> {
        match container_entered(p, "header"@) {
            Some((empty, inside)) => if empty {
                None
            } else {
                match header_children(inside, empty_header()) {
                    Some((parts, rest)) => match header_of(parts) {
                        Some(h) => Some((h, rest)),
                        None => None,
                    },
                    None => None,
                }
            },
            None => None,
        }
    }

    /// Reads the element from `reader`, strictly. It succeeds exactly where
    /// `parse` does on the pending events, with that result and those events
    /// left.
    pub fn from_reader(reader: &mut hard_xml::XmlReader<'_>) -> (r: Result<Self, XmlFailure>)
        ensures
            match r {
                Ok(v) => Self::parse(pending(*old(reader))) == Some((v@, pending(*final(reader)))),
                Err(_) => Self::parse(pending(*old(reader))) is None,
            },
            r is Ok ==> pending(*final(reader)).len() <= pending(*old(reader)).len(),
            r is Ok && starts(pending(*old(reader)), "header"@) ==> pending(*final(reader)).len()
                < pending(*old(reader)).len(),
    {
        let mut file_version: Option<u64> = None;
        let mut database_version: Option<String> = None;
        let mut date_of_creation: Option<String> = None;
        let empty = enter_container(reader, "header", "Dict2Header")?;
        if empty {
            return Err(
                XmlFailure::MissingField {
                    name: "Dict2Header".to_owned(),
                    field: "file_version".to_owned(),
                },
            );
        }
        let ghost entered = pending(*reader);
        loop
            invariant
                pending(*reader).len() <= entered.len(),
                entered.len() <= pending(*old(reader)).len(),
                starts(pending(*old(reader)), "header"@) ==> entered.len() < pending(
                    *old(reader),
                ).len(),
                container_entered(pending(*old(reader)), "header"@) == Some((false, entered)),
                header_children(entered, empty_header()) == header_children(
                    pending(*reader),
                    HeaderParts {
                        file_version,
                        database_version: opt_text(database_version),
                        date_of_creation: opt_text(date_of_creation),
                    },
                ),
            decreases pending(*reader).len(),
        {
            let name = match next_child(reader, "header")? {
                None => {
                    let file_version = required_child(file_version, "Dict2Header", "file_version")?;
                    let database_version = required_child(
                        database_version,
                        "Dict2Header",
                        "database_version",
                    )?;
                    let date_of_creation = required_child(
                        date_of_creation,
                        "Dict2Header",
                        "date_of_creation",
                    )?;
                    return Ok(Dict2Header { file_version, database_version, date_of_creation });
                },
                Some(name) => name,
            };
            if same_text(name.as_str(), "file_version") {
                if file_version.is_some() {
                    return Err(XmlFailure::DuplicateElement(name));
                }
                let n = read_flat_number(reader, "file_version")?;
                file_version = Some(n);
            } else if same_text(name.as_str(), "database_version") {
                if database_version.is_some() {
                    return Err(XmlFailure::DuplicateElement(name));
                }
                let t = read_flat_text(reader, "database_version")?;
                database_version = Some(t);
            } else if same_text(name.as_str(), "date_of_creation") {
                if date_of_creation.is_some() {
                    return Err(XmlFailure::DuplicateElement(name));
                }
                let t = read_flat_text(reader, "date_of_creation")?;
                date_of_creation = Some(t);
            } else {
                return Err(
                    XmlFailure::UnknownField { name: "Dict2Header".to_owned(), field: name },
                );
            }
        }
    }
}

/// The children of a `character` element read so far.
#[verifier::ext_equal]
pub struct CharacterParts {
    pub literal: Option<Seq<char>>,
    pub codepoint: Option<CodepointView>,
    pub radical: Option<RadicalView>,
    pub misc: Option<MiscView>,
    pub dic_number: Option<DicNumberView>,
    pub query_code: Option<QueryCodeView>,
    pub reading_meaning: Option<ReadingMeaningView>,
}

/// A `character` element of which nothing has been read.
pub open spec fn empty_character() -> CharacterParts {
    CharacterParts {
        literal: None,
        codepoint: None,
        radical: None,
        misc: None,
        dic_number: None,
        query_code: None,
        reading_meaning: None,
    }
}

/// The character that `parts` make up, or `None` where a required child is
/// missing. `dic_number` and `reading_meaning` may be absent.
pub open spec fn character_of(parts: CharacterParts) -> Option<CharacterView> {
    match (parts.literal, parts.codepoint, parts.radical, parts.misc, parts.query_code) {
        (Some(literal), Some(codepoint), Some(radical), Some(misc), Some(query_code)) => Some(
            CharacterView {
                literal,
                codepoint,
                radical,
                misc,
                dic_number: parts.dic_number,
                query_code,
                reading_meaning: parts.reading_meaning,
            },
        ),
        _ => None,
    }
}

/// Reads the children of a `character` element into `acc`, up to its closing
/// tag. Each child may occur once.
pub open spec fn character_children(p: Seq<XmlEvent>, acc: CharacterParts) -> Option<
    (CharacterParts, Seq<XmlEvent>),
>
    decreases p.len(),
{
    match child_step(p, "character"@) {
        Some((Some(name), q)) => if name == "codepoint"@ {
            match shorter(Codepoint::parse(q), p) {
                Some((v, rest)) if acc.codepoint is None => character_children(
                    rest,
                    CharacterParts { codepoint: Some(v), ..acc },
                ),
                _ => None,
            }
        } else if name == "radical"@ {
            match shorter(Radical::parse(q), p) {
                Some((v, rest)) if acc.radical is None => character_children(
                    rest,
                    CharacterParts { radical: Some(v), ..acc },
                ),
                _ => None,
            }
        } else if name == "misc"@ {
            match shorter(Misc::parse(q), p) {
                Some((v, rest)) if acc.misc is None => character_children(
                    rest,
                    CharacterParts { misc: Some(v), ..acc },
                ),
                _ => None,
            }
        } else if name == "dic_number"@ {
            match shorter(DicNumber::parse(q), p) {
                Some((v, rest)) if acc.dic_number is None => character_children(
                    rest,
                    CharacterParts { dic_number: Some(v), ..acc },
                ),
                _ => None,
            }
        } else if name == "query_code"@ {
            match shorter(QueryCode::parse(q), p) {
                Some((v, rest)) if acc.query_code is None => character_children(
                    rest,
                    CharacterParts { query_code: Some(v), ..acc },
                ),
                _ => None,
            }
        } else if name == "reading_meaning"@ {
            match shorter(ReadingMeaning::parse(q), p) {
                Some((v, rest)) if acc.reading_meaning is None => character_children(
                    rest,
                    CharacterParts { reading_meaning: Some(v), ..acc },
                ),
                _ => None,
            }
        } else if name == "literal"@ {
            match shorter(flat_text(q, "literal"@), p) {
                Some((t, rest)) if acc.literal is None => character_children(
                    rest,
                    CharacterParts { literal: Some(t), ..acc },
                ),
                _ => None,
            }
        } else {
            None
        },
        Some((None, rest)) => Some((acc, rest)),
        None => None,
    }
}

/// The view of an optional element.
pub open spec fn opt_view<T: View>(o: Option<T>) -> Option<T::V> {
    match o {
        Some(v) => Some(v@),
        None => None,
    }
}

impl Character {
    /// Reads a `character` element: `literal`, `codepoint`, `radical`, `misc`
    /// and `query_code` exactly once, `dic_number` and `reading_meaning` at
    /// most once, in any order.
    pub open spec fn parse(p: Seq<XmlEvent>) -> Option<(CharacterView, Seq<XmlEvent>)> {
        match container_entered(p, "character"@) {
            Some((empty, inside)) => if empty {
                None
            } else {
                match character_children(inside, empty_character()) {
                    Some((parts, rest)) => match character_of(parts) {
                        Some(c) => Some((c, rest)),
                        None => None,
                    },
                    None => None,
                }
            },
            None => None,
        }
    }

    /// Reads the element from `reader`, strictly. It succeeds exactly where
    /// `parse` does on the pending events, with that result and those events
    /// left.
    pub fn from_reader(reader: &mut hard_xml::XmlReader<'_>) -> (r: Result<Self, XmlFailure>)
        ensures
            match r {
                Ok(v) => Self::parse(pending(*old(reader))) == Some((v@, pending(*final(reader)))),
                Err(_) => Self::parse(pending(*old(reader))) is None,
            },
            r is Ok ==> pending(*final(reader)).len() <= pending(*old(reader)).len(),
            r is Ok && starts(pending(*old(reader)), "character"@) ==> pending(
                *final(reader),
            ).len() < pending(*old(reader)).len(),
    {
        let mut literal: Option<String> = None;
        let mut codepoint: Option<Codepoint> = None;
        let mut radical: Option<Radical> = None;
        let mut misc: Option<Misc> = None;
        let mut dic_number: Option<DicNumber> = None;
        let mut query_code: Option<QueryCode> = None;
        let mut reading_meaning: Option<ReadingMeaning> = None;
        let empty = enter_container(reader, "character", "Character")?;
        if empty {
            return Err(
                XmlFailure::MissingField {
                    name: "Character".to_owned(),
                    field: "literal".to_owned(),
                },
            );
        }
        let ghost entered = pending(*reader);
        loop
            invariant
                pending(*reader).len() <= entered.len(),
                entered.len() <= pending(*old(reader)).len(),
                starts(pending(*old(reader)), "character"@) ==> entered.len() < pending(
                    *old(reader),
                ).len(),
                container_entered(pending(*old(reader)), "character"@) == Some((false, entered)),
                character_children(entered, empty_character()) == character_children(
                    pending(*reader),
                    CharacterParts {
                        literal: opt_text(literal),
                        codepoint: opt_view(codepoint),
                        radical: opt_view(radical),
                        misc: opt_view(misc),
                        dic_number: opt_view(dic_number),
                        query_code: opt_view(query_code),
                        reading_meaning: opt_view(reading_meaning),
                    },
                ),
            decreases pending(*reader).len(),
        {
            let name = match next_child(reader, "character")? {
                None => {
                    let literal = required_child(literal, "Character", "literal")?;
                    let codepoint = required_child(codepoint, "Character", "codepoint")?;
                    let radical = required_child(radical, "Character", "radical")?;
                    let misc = required_child(misc, "Character", "misc")?;
                    let query_code = required_child(query_code, "Character", "query_code")?;
                    return Ok(
                        Character {
                            literal,
                            codepoint,
                            radical,
                            misc,
                            dic_number,
                            query_code,
                            reading_meaning,
                        },
                    );
                },
                Some(name) => name,
            };
            if same_text(name.as_str(), "codepoint") {
                if codepoint.is_some() {
                    return Err(XmlFailure::DuplicateElement(name));
                }
                codepoint = Some(Codepoint::from_reader(reader)?);
            } else if same_text(name.as_str(), "radical") {
                if radical.is_some() {
                    return Err(XmlFailure::DuplicateElement(name));
                }
                radical = Some(Radical::from_reader(reader)?);
            } else if same_text(name.as_str(), "misc") {
                if misc.is_some() {
                    return Err(XmlFailure::DuplicateElement(name));
                }
                misc = Some(Misc::from_reader(reader)?);
            } else if same_text(name.as_str(), "dic_number") {
                if dic_number.is_some() {
                    return Err(XmlFailure::DuplicateElement(name));
                }
                dic_number = Some(DicNumber::from_reader(reader)?);
            } else if same_text(name.as_str(), "query_code") {
                if query_code.is_some() {
                    return Err(XmlFailure::DuplicateElement(name));
                }
                query_code = Some(QueryCode::from_reader(reader)?);
            } else if same_text(name.as_str(), "reading_meaning") {
                if reading_meaning.is_some() {
                    return Err(XmlFailure::DuplicateElement(name));
                }
                reading_meaning = Some(ReadingMeaning::from_reader(reader)?);
            } else if same_text(name.as_str(), "literal") {
                if literal.is_some() {
                    return Err(XmlFailure::DuplicateElement(name));
                }
                literal = Some(read_flat_text(reader, "literal")?);
            } else {
                return Err(XmlFailure::UnknownField { name: "Character".to_owned(), field: name });
            }
        }
    }
}

/// The children of the root element read so far.
#[verifier::ext_equal]
pub struct DictParts {
    pub header: Option<Dict2HeaderView>,
    pub character: Seq<CharacterView>,
}

/// A root element of which nothing has been read.
pub open spec fn empty_dict() -> DictParts {
    DictParts { header: None, character: Seq::empty() }
}

/// The dictionary that `parts` make up, or `None` where the header is
/// missing.
pub open spec fn dict_of(parts: DictParts) -> Option<Dict2View> {
    match parts.header {
        Some(header) => Some(Dict2View { header, character: parts.character }),
        None => None,
    }
}

/// Reads the children of the root element into `acc`, up to its closing tag.
pub open spec fn dict_children(p: Seq<XmlEvent>, acc: DictParts) -> Option<
    (DictParts, Seq<XmlEvent>),
>
    decreases p.len(),
{
    match child_step(p, "kanjidic2"@) {
        Some((Some(name), q)) => if name == "header"@ {
            match shorter(Dict2Header::parse(q), p) {
                Some((v, rest)) if acc.header is None => dict_children(
                    rest,
                    DictParts { header: Some(v), ..acc },
                ),
                _ => None,
            }
        } else if name == "character"@ {
            match shorter(Character::parse(q), p) {
                Some((v, rest)) => dict_children(
                    rest,
                    DictParts { character: acc.character.push(v), ..acc },
                ),
                None => None,
            }
        } else {
            None
        },
        Some((None, rest)) => Some((acc, rest)),
        None => None,
    }
}

/// The dictionary that the document `text` holds, or `None` where the
/// document is malformed or departs from the schema. What follows the root
/// element is not read.
pub open spec fn parse_document(text: Seq<char>) -> Option<Dict2View> {
    match Dict2::parse(xml_events(text)) {
        Some((d, _)) => Some(d),
        None => None,
    }
}

impl Dict2 {
    /// Reads the root element `kanjidic2`: one `header` and any number of
    /// `character` elements, in any order.
    pub open spec fn parse(p: Seq<XmlEvent>) -> Option<(Dict2View, Seq<XmlEvent>)> {
        match container_entered(p, "kanjidic2"@) {
            Some((empty, inside)) => if empty {
                None
            } else {
                match dict_children(inside, empty_dict()) {
                    Some((parts, rest)) => match dict_of(parts) {
                        Some(d) => Some((d, rest)),
                        None => None,
                    },
                    None => None,
                }
            },
            None => None,
        }
    }

    /// Reads the element from `reader`, strictly. It succeeds exactly where
    /// `parse` does on the pending events, with that result and those events
    /// left.
    pub fn from_reader(reader: &mut hard_xml::XmlReader<'_>) -> (r: Result<Self, XmlFailure>)
        ensures
            match r {
                Ok(v) => Self::parse(pending(*old(reader))) == Some((v@, pending(*final(reader)))),
                Err(_) => Self::parse(pending(*old(reader))) is None,
            },
    {
        let mut header: Option<Dict2Header> = None;
        let mut character: Vec<Character> = Vec::new();
        let empty = enter_container(reader, "kanjidic2", "Dict2")?;
        if empty {
            return Err(
                XmlFailure::MissingField { name: "Dict2".to_owned(), field: "header".to_owned() },
            );
        }
        let ghost entered = pending(*reader);
        assert(views(character@) =~= Seq::<CharacterView>::empty());
        loop
            invariant
                container_entered(pending(*old(reader)), "kanjidic2"@) == Some((false, entered)),
                dict_children(entered, empty_dict()) == dict_children(
                    pending(*reader),
                    DictParts { header: opt_view(header), character: views(character@) },
                ),
            decreases pending(*reader).len(),
        {
            let name = match next_child(reader, "kanjidic2")? {
                None => {
                    let header = required_child(header, "Dict2", "header")?;
                    return Ok(Dict2 { header, character });
                },
                Some(name) => name,
            };
            if same_text(name.as_str(), "header") {
                if header.is_some() {
                    return Err(XmlFailure::DuplicateElement(name));
                }
                header = Some(Dict2Header::from_reader(reader)?);
            } else if same_text(name.as_str(), "character") {
                let c = Character::from_reader(reader)?;
                let ghost before = views(character@);
                character.push(c);
                assert(views(character@) =~= before.push(c@));
            } else {
                return Err(XmlFailure::UnknownField { name: "Dict2".to_owned(), field: name });
            }
        }
    }

    /// Parses the document `text` strictly against the dictionary's schema.
    ///
    /// Succeeds exactly on the documents that hold a dictionary; any
    /// attribute or element that the schema does not declare fails the parse,
    /// and nothing of the document is returned then.
    pub fn from_str(text: &str) -> (r: Result<Self, XmlFailure>)
        ensures
            match r {
                Ok(d) => parse_document(text@) == Some(d@),
                Err(_) => parse_document(text@) is None,
            },
    {
        let mut reader = open_reader(text);
        Dict2::from_reader(&mut reader)
    }
}

/// Whether the next child of the element `tag` is none of `declared`.
pub open spec fn next_child_undeclared(p: Seq<XmlEvent>, tag: Seq<char>, declared: Set<Seq<char>>)
    -> bool {
    child_step(p, tag) matches Some((Some(name), _)) && !declared.contains(name)
}

/// The root element fails to parse where it holds a child other than
/// `header` and `character`: the child is never passed over.
pub proof fn lemma_dict_is_strict(p: Seq<XmlEvent>, acc: DictParts)
    requires
        next_child_undeclared(p, "kanjidic2"@, set!["header"@, "character"@]),
    ensures
        dict_children(p, acc) is None,
{
}

/// A `header` element fails to parse where it holds a child that it does not
/// declare.
pub proof fn lemma_header_is_strict(p: Seq<XmlEvent>, acc: HeaderParts)
    requires
        next_child_undeclared(
            p,
            "header"@,
            set!["file_version"@, "database_version"@, "date_of_creation"@],
        ),
    ensures
        header_children(p, acc) is None,
{
}

/// A `character` element fails to parse where it holds a child that it does
/// not declare.
pub proof fn lemma_character_is_strict(p: Seq<XmlEvent>, acc: CharacterParts)
    requires
        next_child_undeclared(
            p,
            "character"@,
            set![
                "literal"@,
                "codepoint"@,
                "radical"@,
                "misc"@,
                "dic_number"@,
                "query_code"@,
                "reading_meaning"@,
            ],
        ),
    ensures
        character_children(p, acc) is None,
{
}

/// A `misc` element fails to parse where it holds a child that it does not
/// declare.
pub proof fn lemma_misc_is_strict(p: Seq<XmlEvent>, acc: MiscView)
    requires
        next_child_undeclared(
            p,
            "misc"@,
            set!["grade"@, "stroke_count"@, "variant"@, "freq"@, "jlpt"@, "rad_name"@],
        ),
    ensures
        misc_children(p, acc) is None,
{
}

/// A `reading_meaning` element fails to parse where it holds a child other
/// than `rmgroup` and `nanori`.
pub proof fn lemma_reading_meaning_is_strict(p: Seq<XmlEvent>, acc: ReadingMeaningView)
    requires
        next_child_undeclared(p, "reading_meaning"@, set!["rmgroup"@, "nanori"@]),
    ensures
        reading_meaning_children(p, acc) is None,
{
}

/// An `rmgroup` element fails to parse where it holds a child other than
/// `reading` and `meaning`.
pub proof fn lemma_rmgroup_is_strict(p: Seq<XmlEvent>, acc: RMGroupView)
    requires
        next_child_undeclared(p, "rmgroup"@, set!["reading"@, "meaning"@]),
    ensures
        rmgroup_children(p, acc) is None,
{
}

/// Whether the next child of the element `tag` is named `name` and starts at
/// the front of `q`.
pub open spec fn next_child_is(p: Seq<XmlEvent>, tag: Seq<char>, name: Seq<char>, q: Seq<XmlEvent>)
    -> bool {
    child_step(p, tag) == Some((Some(name), q))
}

/// The root element fails to parse where one of its children does: a child
/// that is refused is never left out of the result.
pub proof fn lemma_dict_child_failure(p: Seq<XmlEvent>, q: Seq<XmlEvent>, acc: DictParts)
    requires
        (next_child_is(p, "kanjidic2"@, "header"@, q) && Dict2Header::parse(q) is None) || (
        next_child_is(p, "kanjidic2"@, "character"@, q) && Character::parse(q) is None),
    ensures
        dict_children(p, acc) is None,
{
    reveal_strlit("header");
    reveal_strlit("character");
    assert("header"@.len() != "character"@.len());
}

/// A `header` element fails to parse where one of its children does.
pub proof fn lemma_header_child_failure(p: Seq<XmlEvent>, q: Seq<XmlEvent>, acc: HeaderParts)
    requires
        (next_child_is(p, "header"@, "file_version"@, q) && flat_number(q, "file_version"@)
            is None) || (next_child_is(p, "header"@, "database_version"@, q) && flat_text(
            q,
            "database_version"@,
        ) is None) || (next_child_is(p, "header"@, "date_of_creation"@, q) && flat_text(
            q,
            "date_of_creation"@,
        ) is None),
    ensures
        header_children(p, acc) is None,
{
    reveal_strlit("file_version");
    reveal_strlit("database_version");
    reveal_strlit("date_of_creation");
}

/// A `character` element fails to parse where one of its children does.
pub proof fn lemma_character_child_failure(
    p: Seq<XmlEvent>,
    q: Seq<XmlEvent>,
    acc: CharacterParts,
)
    requires
        (next_child_is(p, "character"@, "literal"@, q) && flat_text(q, "literal"@) is None) || (
        next_child_is(p, "character"@, "codepoint"@, q) && Codepoint::parse(q) is None) || (
        next_child_is(p, "character"@, "radical"@, q) && Radical::parse(q) is None) || (
        next_child_is(p, "character"@, "misc"@, q) && Misc::parse(q) is None) || (next_child_is(
            p,
            "character"@,
            "dic_number"@,
            q,
        ) && DicNumber::parse(q) is None) || (next_child_is(p, "character"@, "query_code"@, q)
            && QueryCode::parse(q) is None) || (next_child_is(
            p,
            "character"@,
            "reading_meaning"@,
            q,
        ) && ReadingMeaning::parse(q) is None),
    ensures
        character_children(p, acc) is None,
{
    reveal_strlit("literal");
    reveal_strlit("codepoint");
    reveal_strlit("radical");
    reveal_strlit("misc");
    reveal_strlit("dic_number");
    reveal_strlit("query_code");
    reveal_strlit("reading_meaning");
    assert("literal"@[0] == 'l' && "codepoint"@[0] == 'c' && "radical"@[0] == 'r' && "misc"@[0]
        == 'm' && "dic_number"@[0] == 'd' && "query_code"@[0] == 'q');
    assert("reading_meaning"@.len() == 15 && "radical"@.len() == 7);
}

/// A `misc` element fails to parse where one of its children does.
pub proof fn lemma_misc_child_failure(p: Seq<XmlEvent>, q: Seq<XmlEvent>, acc: MiscView)
    requires
        (next_child_is(p, "misc"@, "variant"@, q) && text_element::<MiscVariant>(q) is None) || (
        next_child_is(p, "misc"@, "grade"@, q) && flat_number(q, "grade"@) is None) || (
        next_child_is(p, "misc"@, "stroke_count"@, q) && flat_number(q, "stroke_count"@) is None)
            || (next_child_is(p, "misc"@, "freq"@, q) && flat_number(q, "freq"@) is None) || (
        next_child_is(p, "misc"@, "jlpt"@, q) && flat_number(q, "jlpt"@) is None) || (
        next_child_is(p, "misc"@, "rad_name"@, q) && flat_text(q, "rad_name"@) is None),
    ensures
        misc_children(p, acc) is None,
{
    reveal_strlit("variant");
    reveal_strlit("grade");
    reveal_strlit("stroke_count");
    reveal_strlit("freq");
    reveal_strlit("jlpt");
    reveal_strlit("rad_name");
    assert("variant"@[0] == 'v' && "grade"@[0] == 'g' && "stroke_count"@[0] == 's' && "freq"@[0]
        == 'f' && "jlpt"@[0] == 'j' && "rad_name"@[0] == 'r');
}

/// A `reading_meaning` element fails to parse where one of its children
/// does.
pub proof fn lemma_reading_meaning_child_failure(
    p: Seq<XmlEvent>,
    q: Seq<XmlEvent>,
    acc: ReadingMeaningView,
)
    requires
        (next_child_is(p, "reading_meaning"@, "rmgroup"@, q) && RMGroup::parse(q) is None) || (
        next_child_is(p, "reading_meaning"@, "nanori"@, q) && flat_text(q, "nanori"@) is None),
    ensures
        reading_meaning_children(p, acc) is None,
{
    reveal_strlit("rmgroup");
    reveal_strlit("nanori");
    assert("rmgroup"@[0] == 'r' && "nanori"@[0] == 'n');
}

/// An `rmgroup` element fails to parse where one of its children does.
pub proof fn lemma_rmgroup_child_failure(p: Seq<XmlEvent>, q: Seq<XmlEvent>, acc: RMGroupView)
    requires
        (next_child_is(p, "rmgroup"@, "reading"@, q) && text_element::<Reading>(q) is None) || (
        next_child_is(p, "rmgroup"@, "meaning"@, q) && text_element::<Meaning>(q) is None),
    ensures
        rmgroup_children(p, acc) is None,
{
    reveal_strlit("reading");
    reveal_strlit("meaning");
    assert("reading"@[0] == 'r' && "meaning"@[0] == 'm');
}

/// A document is refused where the opening tag of its root element holds
/// any attribute.
pub proof fn lemma_root_is_strict(text: Seq<char>)
    requires
        entered(xml_events(text), "kanjidic2"@) matches Some(inside) && inside.len() > 0
            && inside[0] is Attribute,
    ensures
        parse_document(text) is None,
{
    crate::schema::lemma_container_is_strict(xml_events(text), "kanjidic2"@);
}

} // verus!
