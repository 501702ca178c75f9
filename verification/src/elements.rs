//! The elements of the dictionary that hold text, and lists of them.

use crate::document::{
    opt_text, CpValue, CpValueView, DicRef, DicRefView, Meaning, MeaningView, MiscVariant,
    MiscVariantView, QCode, QCodeView, RadValue, RadValueView, Reading, ReadingView,
};
use crate::schema::{
    container_entered, enter_container, keys_of, next_child, raw_element, read_raw_element,
    same_text, starts, RawElement, RawElementView, XmlFailure,
};
use crate::xml::{child_step, decimal_u64, parse_u64, pending, XmlEvent};
use vstd::prelude::*;

verus! {

/// An element that holds text and declares a fixed set of attributes.
pub trait TextElement: View + Sized {
    /// The element's tag.
    spec fn tag_name() -> Seq<char>;

    /// The attribute keys that the element declares.
    spec fn keys() -> Seq<Seq<char>>;

    /// The element that `raw` stands for, or `None` where a required
    /// attribute is missing or a number is not one.
    spec fn of_raw(raw: RawElementView) -> Option<Self::V>;

    /// The element's tag.
    fn tag() -> (t: &'static str)
        ensures
            t@ == Self::tag_name(),
    ;

    /// The attribute keys that the element declares.
    fn declared() -> (d: Vec<&'static str>)
        ensures
            keys_of(d@) == Self::keys(),
    ;

    /// Gives the attributes and the text of an element their types.
    fn from_raw(raw: RawElement) -> (r: Result<Self, XmlFailure>)
        requires
            raw.attrs@.len() == Self::keys().len(),
        ensures
            match r {
                Ok(v) => Self::of_raw(raw@) == Some(v@),
                Err(_) => Self::of_raw(raw@) is None,
            },
    ;
}

/// The number that an optional attribute value stands for: no value is no
/// number, and a value that is not a decimal number is an error.
pub open spec fn opt_number(o: Option<Seq<char>>) -> Option<Option<u64>> {
    match o {
        None => Some(None),
        Some(t) => match decimal_u64(t) {
            Some(n) => Some(Some(n)),
            None => None,
        },
    }
}

/// Reads an optional attribute value as a decimal number.
pub fn number_of(o: Option<String>) -> (r: Result<Option<u64>, XmlFailure>)
    ensures
        match r {
            Ok(n) => opt_number(opt_text(o)) == Some(n),
            Err(_) => opt_number(opt_text(o)) is None,
        },
{
    match o {
        None => Ok(None),
        Some(t) => match parse_u64(t.as_str()) {
            Some(n) => Ok(Some(n)),
            None => Err(XmlFailure::InvalidNumber(t)),
        },
    }
}

/// Reads a text as a decimal number.
pub fn number(text: String) -> (r: Result<u64, XmlFailure>)
    ensures
        match r {
            Ok(n) => decimal_u64(text@) == Some(n),
            Err(_) => decimal_u64(text@) is None,
        },
{
    match parse_u64(text.as_str()) {
        Some(n) => Ok(n),
        None => Err(XmlFailure::InvalidNumber(text)),
    }
}

/// Takes the value of a required attribute, or reports it missing.
pub fn required(o: Option<String>, element: &str, field: &str) -> (r: Result<String, XmlFailure>)
    ensures
        match r {
            Ok(s) => opt_text(o) == Some(s@),
            Err(_) => o is None,
        },
{
    match o {
        Some(s) => Ok(s),
        None => Err(XmlFailure::MissingField { name: element.to_owned(), field: field.to_owned() }),
    }
}

/// Takes the last attribute value out of `attrs`.
pub fn take_last(attrs: &mut Vec<Option<String>>) -> (r: Option<String>)
    requires
        old(attrs)@.len() > 0,
    ensures
        r == old(attrs)@.last(),
        final(attrs)@ == old(attrs)@.drop_last(),
{
    match attrs.pop() {
        Some(o) => o,
        None => None,
    }
}

impl TextElement for CpValue {
    open spec fn tag_name() -> Seq<char> {
        "cp_value"@
    }

    open spec fn keys() -> Seq<Seq<char>> {
        seq!["cp_type"@]
    }

    open spec fn of_raw(raw: RawElementView) -> Option<CpValueView> {
        match raw.attrs[0] {
            Some(cp_type) => Some(CpValueView { cp_type, value: raw.text }),
            None => None,
        }
    }

    fn tag() -> (t: &'static str) {
        "cp_value"
    }

    fn declared() -> (d: Vec<&'static str>) {
        let d = vec!["cp_type"];
        assert(keys_of(d@) =~= Self::keys());
        d
    }

    fn from_raw(raw: RawElement) -> (r: Result<Self, XmlFailure>) {
        let RawElement { mut attrs, text } = raw;
        let cp_type = required(take_last(&mut attrs), "CpValue", "cp_type")?;
        Ok(CpValue { cp_type, value: text })
    }
}

/// Reads one element of the kind `T`.
pub open spec fn text_element<T: TextElement>(p: Seq<XmlEvent>) -> Option<(T::V, Seq<XmlEvent>)> {
    match raw_element(p, T::tag_name(), T::keys()) {
        Some((raw, rest)) => match T::of_raw(raw) {
            Some(v) => Some((v, rest)),
            None => None,
        },
        None => None,
    }
}

/// Reads one element of the kind `T`, strictly.
pub fn read_text_element<T: TextElement>(reader: &mut hard_xml::XmlReader<'_>, element: &str) -> (r:
    Result<T, XmlFailure>)
    ensures
        match r {
            Ok(v) => text_element::<T>(pending(*old(reader))) == Some(
                (v@, pending(*final(reader))),
            ),
            Err(_) => text_element::<T>(pending(*old(reader))) is None,
        },
        r is Ok ==> pending(*final(reader)).len() <= pending(*old(reader)).len(),
        r is Ok && starts(pending(*old(reader)), T::tag_name()) ==> pending(*final(reader)).len()
            < pending(*old(reader)).len(),
{
    let declared = T::declared();
    let raw = read_raw_element(reader, T::tag(), element, &declared)?;
    T::from_raw(raw)
}

impl TextElement for RadValue {
    open spec fn tag_name() -> Seq<char> {
        "rad_value"@
    }

    open spec fn keys() -> Seq<Seq<char>> {
        seq!["rad_type"@]
    }

    open spec fn of_raw(raw: RawElementView) -> Option<RadValueView> {
        match (raw.attrs[0], decimal_u64(raw.text)) {
            (Some(rad_type), Some(rad_value)) => Some(RadValueView { rad_type, rad_value }),
            _ => None,
        }
    }

    fn tag() -> (t: &'static str) {
        "rad_value"
    }

    fn declared() -> (d: Vec<&'static str>) {
        let d = vec!["rad_type"];
        assert(keys_of(d@) =~= Self::keys());
        d
    }

    fn from_raw(raw: RawElement) -> (r: Result<Self, XmlFailure>) {
        let RawElement { mut attrs, text } = raw;
        let rad_value = number(text)?;
        let rad_type = required(take_last(&mut attrs), "RadValue", "rad_type")?;
        Ok(RadValue { rad_type, rad_value })
    }
}

impl TextElement for MiscVariant {
    open spec fn tag_name() -> Seq<char> {
        "variant"@
    }

    open spec fn keys() -> Seq<Seq<char>> {
        seq!["var_type"@]
    }

    open spec fn of_raw(raw: RawElementView) -> Option<MiscVariantView> {
        match raw.attrs[0] {
            Some(var_type) => Some(MiscVariantView { var_type, var_value: raw.text }),
            None => None,
        }
    }

    fn tag() -> (t: &'static str) {
        "variant"
    }

    fn declared() -> (d: Vec<&'static str>) {
        let d = vec!["var_type"];
        assert(keys_of(d@) =~= Self::keys());
        d
    }

    fn from_raw(raw: RawElement) -> (r: Result<Self, XmlFailure>) {
        let RawElement { mut attrs, text } = raw;
        let var_type = required(take_last(&mut attrs), "MiscVariant", "var_type")?;
        Ok(MiscVariant { var_type, var_value: text })
    }
}

impl TextElement for DicRef {
    open spec fn tag_name() -> Seq<char> {
        "dic_ref"@
    }

    open spec fn keys() -> Seq<Seq<char>> {
        seq!["dr_type"@, "m_vol"@, "m_page"@]
    }

    open spec fn of_raw(raw: RawElementView) -> Option<DicRefView> {
        match (raw.attrs[0], opt_number(raw.attrs[1]), opt_number(raw.attrs[2])) {
            (Some(dr_type), Some(m_vol), Some(m_page)) => Some(
                DicRefView { dr_type, dr_value: raw.text, m_vol, m_page },
            ),
            _ => None,
        }
    }

    fn tag() -> (t: &'static str) {
        "dic_ref"
    }

    fn declared() -> (d: Vec<&'static str>) {
        let d = vec!["dr_type", "m_vol", "m_page"];
        assert(keys_of(d@) =~= Self::keys());
        d
    }

    fn from_raw(raw: RawElement) -> (r: Result<Self, XmlFailure>) {
        let RawElement { mut attrs, text } = raw;
        let m_page = number_of(take_last(&mut attrs))?;
        let m_vol = number_of(take_last(&mut attrs))?;
        let dr_type = required(take_last(&mut attrs), "DicRef", "dr_type")?;
        Ok(DicRef { dr_type, dr_value: text, m_vol, m_page })
    }
}

impl TextElement for QCode {
    open spec fn tag_name() -> Seq<char> {
        "q_code"@
    }

    open spec fn keys() -> Seq<Seq<char>> {
        seq!["qc_type"@, "skip_misclass"@]
    }

    open spec fn of_raw(raw: RawElementView) -> Option<QCodeView> {
        match raw.attrs[0] {
            Some(qc_type) => Some(
                QCodeView { qc_type, qc_value: raw.text, skip_misclass: raw.attrs[1] },
            ),
            None => None,
        }
    }

    fn tag() -> (t: &'static str) {
        "q_code"
    }

    fn declared() -> (d: Vec<&'static str>) {
        let d = vec!["qc_type", "skip_misclass"];
        assert(keys_of(d@) =~= Self::keys());
        d
    }

    fn from_raw(raw: RawElement) -> (r: Result<Self, XmlFailure>) {
        let RawElement { mut attrs, text } = raw;
        let skip_misclass = take_last(&mut attrs);
        let qc_type = required(take_last(&mut attrs), "QCode", "qc_type")?;
        Ok(QCode { qc_type, qc_value: text, skip_misclass })
    }
}

impl TextElement for Meaning {
    open spec fn tag_name() -> Seq<char> {
        "meaning"@
    }

    open spec fn keys() -> Seq<Seq<char>> {
        seq!["m_lang"@]
    }

    open spec fn of_raw(raw: RawElementView) -> Option<MeaningView> {
        Some(MeaningView { m_lang: raw.attrs[0], meaning: raw.text })
    }

    fn tag() -> (t: &'static str) {
        "meaning"
    }

    fn declared() -> (d: Vec<&'static str>) {
        let d = vec!["m_lang"];
        assert(keys_of(d@) =~= Self::keys());
        d
    }

    fn from_raw(raw: RawElement) -> (r: Result<Self, XmlFailure>) {
        let RawElement { mut attrs, text } = raw;
        let m_lang = take_last(&mut attrs);
        Ok(Meaning { m_lang, meaning: text })
    }
}

impl TextElement for Reading {
    open spec fn tag_name() -> Seq<char> {
        "reading"@
    }

    open spec fn keys() -> Seq<Seq<char>> {
        seq!["r_type"@]
    }

    open spec fn of_raw(raw: RawElementView) -> Option<ReadingView> {
        match raw.attrs[0] {
            Some(r_type) => Some(ReadingView { r_type, r_value: raw.text }),
            None => None,
        }
    }

    fn tag() -> (t: &'static str) {
        "reading"
    }

    fn declared() -> (d: Vec<&'static str>) {
        let d = vec!["r_type"];
        assert(keys_of(d@) =~= Self::keys());
        d
    }

    fn from_raw(raw: RawElement) -> (r: Result<Self, XmlFailure>) {
        let RawElement { mut attrs, text } = raw;
        let r_type = required(take_last(&mut attrs), "Reading", "r_type")?;
        Ok(Reading { r_type, r_value: text })
    }
}

/// The views of a sequence of elements.
pub open spec fn views<T: View>(v: Seq<T>) -> Seq<T::V> {
    v.map_values(|x: T| x@)
}

/// Reads the children of the element `tag`, each of the kind `T`, after the
/// elements `acc`, up to the closing tag. A child of another kind fails the
/// read.
pub open spec fn list_children<T: TextElement>(p: Seq<XmlEvent>, tag: Seq<char>, acc: Seq<T::V>)
    -> Option<(Seq<T::V>, Seq<XmlEvent>)>
    decreases p.len(),
{
    match child_step(p, tag) {
        Some((Some(name), q)) => if name == T::tag_name() {
            match text_element::<T>(q) {
                Some((v, rest)) => if rest.len() < p.len() {
                    list_children::<T>(rest, tag, acc.push(v))
                } else {
                    None
                },
                None => None,
            }
        } else {
            None
        },
        Some((None, rest)) => Some((acc, rest)),
        None => None,
    }
}

/// Reads the element `tag` whose children are all of the kind `T`.
pub open spec fn element_list<T: TextElement>(p: Seq<XmlEvent>, tag: Seq<char>) -> Option<
    (Seq<T::V>, Seq<XmlEvent>),
> {
    match container_entered(p, tag) {
        Some((empty, inside)) => if empty {
            Some((Seq::empty(), inside))
        } else {
            list_children::<T>(inside, tag, Seq::empty())
        },
        None => None,
    }
}

/// Reads the element `tag` whose children are all of the kind `T`, strictly:
/// it declares no attribute and no other child.
pub fn read_list<T: TextElement>(
    reader: &mut hard_xml::XmlReader<'_>,
    tag: &str,
    element: &str,
    child_element: &str,
) -> (r: Result<Vec<T>, XmlFailure>)
    ensures
        match r {
            Ok(v) => element_list::<T>(pending(*old(reader)), tag@) == Some(
                (views(v@), pending(*final(reader))),
            ),
            Err(_) => element_list::<T>(pending(*old(reader)), tag@) is None,
        },
        r is Ok ==> pending(*final(reader)).len() <= pending(*old(reader)).len(),
        r is Ok && starts(pending(*old(reader)), tag@) ==> pending(*final(reader)).len() < pending(
            *old(reader),
        ).len(),
{
    let mut items: Vec<T> = Vec::new();
    let empty = enter_container(reader, tag, element)?;
    assert(views(items@) =~= Seq::<T::V>::empty());
    if empty {
        return Ok(items);
    }
    let ghost entered = pending(*reader);
    loop
        invariant
            pending(*reader).len() <= entered.len(),
            entered.len() <= pending(*old(reader)).len(),
            starts(pending(*old(reader)), tag@) ==> entered.len() < pending(*old(reader)).len(),
            element_list::<T>(pending(*old(reader)), tag@) == list_children::<T>(
                entered,
                tag@,
                Seq::empty(),
            ),
            list_children::<T>(entered, tag@, Seq::empty()) == list_children::<T>(
                pending(*reader),
                tag@,
                views(items@),
            ),
        decreases pending(*reader).len(),
    {
        let ghost before = pending(*reader);
        match next_child(reader, tag)? {
            None => {
                return Ok(items);
            },
            Some(name) => {
                if same_text(name.as_str(), T::tag()) {
                    let item = read_text_element::<T>(reader, child_element)?;
                    let ghost old_items = views(items@);
                    items.push(item);
                    assert(views(items@) =~= old_items.push(item@));
                } else {
                    return Err(
                        XmlFailure::UnknownField { name: element.to_owned(), field: name },
                    );
                }
            },
        }
    }
}

/// A list fails to parse where it holds a child of another kind than its
/// own: the child is never passed over.
pub proof fn lemma_list_is_strict<T: TextElement>(p: Seq<XmlEvent>, tag: Seq<char>, acc: Seq<T::V>)
    requires
        child_step(p, tag) matches Some((Some(name), _)) && name != T::tag_name(),
    ensures
        list_children::<T>(p, tag, acc) is None,
{
}

/// A list fails to parse where one of its elements does.
pub proof fn lemma_list_child_failure<T: TextElement>(
    p: Seq<XmlEvent>,
    tag: Seq<char>,
    q: Seq<XmlEvent>,
    acc: Seq<T::V>,
)
    requires
        child_step(p, tag) == Some((Some(T::tag_name()), q)),
        text_element::<T>(q) is None,
    ensures
        list_children::<T>(p, tag, acc) is None,
{
}

} // verus!
