//! The token reader that the dictionary parser pulls its input from.
//!
//! Tokenizing is done by `hard_xml::XmlReader`. Its state is modelled as the
//! sequence of events that it has yet to hand out; each operation used by the
//! parser is stated as a step on that sequence.

use vstd::prelude::*;

verus! {

/// `hard_xml::XmlReader`, taken as it is: nothing inside it is looked at.
#[verifier::external_type_specification]
#[verifier::external_body]
pub struct ExXmlReader<'a>(hard_xml::XmlReader<'a>);

/// `hard_xml::XmlError`, taken as it is: nothing inside it is looked at.
#[verifier::external_type_specification]
#[verifier::external_body]
pub struct ExXmlError(hard_xml::XmlError);

/// One token of a document, as the reader hands it out: what the parser
/// reads of a token of `xmlparser`.
pub enum XmlEvent {
    /// The start of an opening tag, `<name`. `name` is all that follows the
    /// `<`: the element's name with its prefix, if it has one.
    ElementStart { name: Seq<char> },
    /// An attribute, `key="value"`. `key` is the attribute's name with its
    /// prefix, if it has one; `value` is as written, its entities still
    /// escaped.
    Attribute { key: Seq<char>, value: Seq<char> },
    /// The end `>` of an opening tag whose element has content.
    ElementOpen,
    /// The end `/>` of an opening tag whose element is empty.
    ElementEmpty,
    /// A closing tag, `</name>`. `name` is all that stands between `</` and
    /// `>`.
    ElementClose { name: Seq<char> },
    /// Character data between tags, its entities still escaped.
    Text { text: Seq<char> },
    /// The content of a CDATA section.
    Cdata { text: Seq<char> },
    /// A declaration, a processing instruction, a comment, or a part of a
    /// document type definition.
    Misc,
    /// Input that the tokenizer rejects.
    Malformed,
}

/// The events that `reader` has yet to hand out.
pub uninterp spec fn pending(reader: hard_xml::XmlReader<'_>) -> Seq<XmlEvent>;

/// The events of the document `text`.
pub uninterp spec fn xml_events(text: Seq<char>) -> Seq<XmlEvent>;

/// Calls `hard_xml::XmlReader::new`: the reader starts with every event of
/// `text` pending.
#[verifier::external_body]
pub(crate) fn open_reader<'a>(text: &'a str) -> (reader: hard_xml::XmlReader<'a>)
    ensures
        pending(reader) == xml_events(text@),
{
    hard_xml::XmlReader::new(text)
}

/// What unescaping the entities of `raw` gives (`hard_xml::utils::xml_unescape`),
/// or `None` where an entity is unterminated or unknown.
pub uninterp spec fn unescaped(raw: Seq<char>) -> Option<Seq<char>>;

/// Reads text up to the end of the element `end_tag`, after the text `acc`.
///
/// The end of an opening tag and attributes are passed over. Character data
/// is unescaped and added to the text, and so is the content of a CDATA
/// section, as it is. The closing tag `end_tag` ends the text and is
/// consumed, and so does the end of an empty element; the end of the input
/// ends it too. Another closing tag, an entity that does not unescape and any
/// other event fail.
pub open spec fn text_read_from(p: Seq<XmlEvent>, end_tag: Seq<char>, acc: Seq<char>) -> Option<
    (Seq<char>, Seq<XmlEvent>),
>
    decreases p.len(),
{
    if p.len() == 0 {
        Some((acc, p))
    } else {
        match p[0] {
            XmlEvent::ElementOpen | XmlEvent::Attribute { .. } => text_read_from(
                p.skip(1),
                end_tag,
                acc,
            ),
            XmlEvent::Text { text } => match unescaped(text) {
                Some(plain) => text_read_from(p.skip(1), end_tag, acc + plain),
                None => None,
            },
            XmlEvent::Cdata { text } => text_read_from(p.skip(1), end_tag, acc + text),
            XmlEvent::ElementClose { name } => if name == end_tag {
                Some((acc, p.skip(1)))
            } else {
                None
            },
            XmlEvent::ElementEmpty => Some((acc, p.skip(1))),
            _ => None,
        }
    }
}

/// What `hard_xml::XmlReader::read_text` returns on the pending events `p`
/// for the closing tag `end_tag`: the text read and the events left, or
/// `None` where it fails.
pub open spec fn text_read(p: Seq<XmlEvent>, end_tag: Seq<char>) -> Option<
    (Seq<char>, Seq<XmlEvent>),
> {
    text_read_from(p, end_tag, Seq::empty())
}

/// What `hard_xml::XmlReader::read_till_element_start` leaves of the pending
/// events `p` when it looks for the element `tag`, or `None` where it fails.
pub uninterp spec fn element_entered(p: Seq<XmlEvent>, tag: Seq<char>) -> Option<Seq<XmlEvent>>;

/// The value of the decimal digit `c`, where it is one of `0` to `9`.
pub open spec fn digit_value(c: char) -> Option<nat> {
    if 0x30 <= c as int <= 0x39 {
        Some((c as int - 0x30) as nat)
    } else {
        None
    }
}

/// The number that the decimal digits `digits` stand for, or `None` where
/// one of them is no digit. No digits stand for zero.
pub open spec fn digits_value(digits: Seq<char>) -> Option<nat>
    decreases digits.len(),
{
    if digits.len() == 0 {
        Some(0)
    } else {
        match (digits_value(digits.drop_last()), digit_value(digits.last())) {
            (Some(n), Some(d)) => Some(10 * n + d),
            _ => None,
        }
    }
}

/// What `str::parse::<u64>` gives on `text`: the number that `text` stands
/// for, where it is an optional `+` followed by one decimal digit or more,
/// nothing else, and the number fits; `None` otherwise.
pub open spec fn decimal_u64(text: Seq<char>) -> Option<u64> {
    let digits = if text.len() > 0 && text[0] == '+' {
        text.skip(1)
    } else {
        text
    };
    if digits.len() == 0 {
        None
    } else {
        match digits_value(digits) {
            Some(n) => if n <= u64::MAX {
                Some(n as u64)
            } else {
                None
            },
            None => None,
        }
    }
}

/// An attribute as the reader returns it: its key and its unescaped value.
pub type AttributeView = (Seq<char>, Seq<char>);

/// The step that looks for the next attribute of an opening tag.
///
/// On an attribute whose value unescapes, the step yields the attribute and
/// consumes it. At the end of the opening tag it yields nothing and consumes
/// nothing. Anything else fails.
pub open spec fn attribute_step(p: Seq<XmlEvent>) -> Option<
    (Option<AttributeView>, Seq<XmlEvent>),
> {
    if p.len() == 0 {
        None
    } else {
        match p[0] {
            XmlEvent::Attribute { key, value } => match unescaped(value) {
                Some(v) => Some((Some((key, v)), p.skip(1))),
                None => None,
            },
            XmlEvent::ElementOpen | XmlEvent::ElementEmpty => Some((None, p)),
            _ => None,
        }
    }
}

/// Whether the reader passes over `e` while it looks for a child element.
pub open spec fn is_filler(e: XmlEvent) -> bool {
    e is Text || e is Cdata || e is Misc
}

/// `p` without the fillers at its front.
pub open spec fn skip_fillers(p: Seq<XmlEvent>) -> Seq<XmlEvent>
    decreases p.len(),
{
    if p.len() > 0 && is_filler(p[0]) {
        skip_fillers(p.skip(1))
    } else {
        p
    }
}

/// The step that looks for the next child of the element `end_tag`.
///
/// Fillers are passed over. At the start of a child the step yields the
/// child's name and leaves that start pending. At the closing tag of
/// `end_tag` it yields nothing and consumes the tag. Anything else fails.
pub open spec fn child_step(p: Seq<XmlEvent>, end_tag: Seq<char>) -> Option<
    (Option<Seq<char>>, Seq<XmlEvent>),
> {
    let q = skip_fillers(p);
    if q.len() == 0 {
        None
    } else {
        match q[0] {
            XmlEvent::ElementStart { name } => Some((Some(name), q)),
            XmlEvent::ElementClose { name } => if name == end_tag {
                Some((None, q.skip(1)))
            } else {
                None
            },
            _ => None,
        }
    }
}

/// The view of what `find_attribute` returns.
pub open spec fn attribute_view(a: Option<(String, String)>) -> Option<AttributeView> {
    match a {
        Some((k, v)) => Some((k@, v@)),
        None => None,
    }
}

/// The view of what `find_element_start` returns.
pub open spec fn name_view(n: Option<String>) -> Option<Seq<char>> {
    match n {
        Some(s) => Some(s@),
        None => None,
    }
}

/// Calls `hard_xml::XmlReader::find_attribute`, which peeks at the next
/// event: it succeeds exactly where `attribute_step` does, with that result
/// and those events left. The value it yields is the attribute's value
/// unescaped.
#[verifier::external_body]
pub(crate) fn find_attribute(reader: &mut hard_xml::XmlReader<'_>) -> (r: Result<
    Option<(String, String)>,
    hard_xml::XmlError,
>)
    ensures
        match r {
            Ok(a) => attribute_step(pending(*old(reader))) == Some(
                (attribute_view(a), pending(*final(reader))),
            ),
            Err(_) => attribute_step(pending(*old(reader))) is None,
        },
        r matches Ok(Some((_, v))) ==> unescaped(pending(*old(reader))[0]->value) == Some(v@),
{
    reader.find_attribute().map(|a| a.map(|(k, v)| (k.to_owned(), v.into_owned())))
}

/// Calls `hard_xml::XmlReader::next`: it hands out the first pending event,
/// if there is one, as an error where the tokenizer rejected the input and
/// else as the answer whether the event ends an empty element.
#[verifier::external_body]
pub(crate) fn advance(reader: &mut hard_xml::XmlReader<'_>) -> (r: Option<
    Result<bool, hard_xml::XmlError>,
>)
    ensures
        pending(*old(reader)).len() == 0 ==> r is None && pending(*final(reader)) == pending(
            *old(reader),
        ),
        pending(*old(reader)).len() > 0 ==> pending(*final(reader)) == pending(*old(reader)).skip(
            1,
        ) && match r {
            Some(Ok(b)) => !(pending(*old(reader))[0] is Malformed) && b == (pending(
                *old(reader),
            )[0] is ElementEmpty),
            Some(Err(_)) => pending(*old(reader))[0] is Malformed,
            None => false,
        },
{
    reader.next().map(
        |t|
            match t {
                Ok(hard_xml::xmlparser::Token::ElementEnd {
                    end: hard_xml::xmlparser::ElementEnd::Empty,
                    ..
                }) => Ok(true),
                Ok(_) => Ok(false),
                Err(e) => Err(hard_xml::XmlError::from(e)),
            },
    )
}

/// Calls `hard_xml::XmlReader::find_element_start` with `end_tag` as the
/// enclosing element: it succeeds exactly where `child_step` does, with that
/// result and those events left.
#[verifier::external_body]
pub(crate) fn find_element_start(reader: &mut hard_xml::XmlReader<'_>, end_tag: &str) -> (r: Result<
    Option<String>,
    hard_xml::XmlError,
>)
    ensures
        match r {
            Ok(n) => child_step(pending(*old(reader)), end_tag@) == Some(
                (name_view(n), pending(*final(reader))),
            ),
            Err(_) => child_step(pending(*old(reader)), end_tag@) is None,
        },
{
    reader.find_element_start(Some(end_tag)).map(|n| n.map(|s| s.to_owned()))
}

/// Calls `hard_xml::XmlReader::read_text`: it succeeds exactly where
/// `text_read` does on the pending events, with that text and those events
/// left.
#[verifier::external_body]
pub(crate) fn read_text(reader: &mut hard_xml::XmlReader<'_>, end_tag: &str) -> (r: Result<
    String,
    hard_xml::XmlError,
>)
    ensures
        match r {
            Ok(s) => text_read(pending(*old(reader)), end_tag@) == Some(
                (s@, pending(*final(reader))),
            ),
            Err(_) => text_read(pending(*old(reader)), end_tag@) is None,
        },
{
    reader.read_text(end_tag).map(|s| s.into_owned())
}

/// Calls `hard_xml::XmlReader::read_till_element_start`: the events left are
/// `element_entered` of the pending events. The call only consumes events,
/// and where the first pending event starts the element `tag` it consumes
/// that event and nothing else.
#[verifier::external_body]
pub(crate) fn read_till_element_start(reader: &mut hard_xml::XmlReader<'_>, tag: &str) -> (r:
    Result<(), hard_xml::XmlError>)
    ensures
        match r {
            Ok(_) => element_entered(pending(*old(reader)), tag@) == Some(pending(*final(reader)))
                && pending(*final(reader)).len() <= pending(*old(reader)).len(),
            Err(_) => element_entered(pending(*old(reader)), tag@) is None,
        },
        pending(*old(reader)).len() > 0 && pending(*old(reader))[0] == (XmlEvent::ElementStart {
            name: tag@,
        }) ==> r is Ok && pending(*final(reader)) == pending(*old(reader)).skip(1),
{
    reader.read_till_element_start(tag)
}

/// Calls `str::parse::<u64>`: the result is `decimal_u64` of the text, the
/// number that an optional `+` and decimal digits stand for.
#[verifier::external_body]
pub(crate) fn parse_u64(text: &str) -> (r: Option<u64>)
    ensures
        r == decimal_u64(text@),
{
    text.parse::<u64>().ok()
}

} // verus!
