//! The building blocks of the strict dictionary schema: attribute sets,
//! elements that hold text, and lists of such elements.
//!
//! Every function reads from the token reader and is stated as a function of
//! the reader's pending events. Anything the schema does not declare makes
//! the read fail.

use crate::xml::{
    advance, attribute_step, child_step, element_entered, find_attribute, find_element_start,
    pending, read_text, read_till_element_start, skip_fillers, text_read, text_read_from,
    XmlEvent,
};
use vstd::prelude::*;

verus! {

/// Why a document was not accepted.
#[derive(Debug)]
pub enum XmlFailure {
    /// The reader could not go on: the input is malformed, ends early, or
    /// holds a token where the schema allows none.
    Reader(hard_xml::XmlError),
    /// The input ended inside an element.
    UnexpectedEof,
    /// The element `name` holds an attribute or a child `field` that the
    /// schema does not declare.
    UnknownField { name: String, field: String },
    /// The element `name` lacks the required attribute, child or text `field`.
    MissingField { name: String, field: String },
    /// An attribute occurs twice in one element.
    DuplicateAttribute(String),
    /// A child that may occur once occurs twice.
    DuplicateElement(String),
    /// A text that must be a decimal number is not.
    InvalidNumber(String),
}

/// Decides whether two strings hold the same characters.
pub fn same_text(a: &str, b: &str) -> (r: bool)
    ensures
        r == (a@ == b@),
{
    let x = a.to_owned();
    let y = b.to_owned();
    x == y
}

/// The views of the declared attribute keys.
pub open spec fn keys_of(declared: Seq<&'static str>) -> Seq<Seq<char>> {
    declared.map_values(|k: &'static str| k@)
}

/// Whether `i` is the first place at which `declared` holds `key`.
pub open spec fn is_slot(declared: Seq<Seq<char>>, key: Seq<char>, i: int) -> bool {
    &&& 0 <= i < declared.len()
    &&& declared[i] == key
    &&& forall|j: int| 0 <= j < i ==> declared[j] != key
}

/// The first place at which `declared` holds `key`, if it holds it at all.
pub open spec fn declared_slot(declared: Seq<Seq<char>>, key: Seq<char>) -> Option<int> {
    if exists|i: int| is_slot(declared, key, i) {
        Some(choose|i: int| is_slot(declared, key, i))
    } else {
        None
    }
}

/// `declared_slot` is `Some(i)` for the one `i` that `is_slot` holds of.
pub proof fn lemma_slot_found(declared: Seq<Seq<char>>, key: Seq<char>, i: int)
    requires
        is_slot(declared, key, i),
    ensures
        declared_slot(declared, key) == Some(i),
{
    let c = choose|c: int| is_slot(declared, key, c);
    assert(is_slot(declared, key, c));
    if c < i {
        assert(declared[c] != key);
    } else if i < c {
        assert(declared[i] != key);
    }
}

/// Finds the first place at which `declared` holds `key`.
pub fn find_slot(declared: &Vec<&'static str>, key: &str) -> (r: Option<usize>)
    ensures
        match r {
            Some(i) => declared_slot(keys_of(declared@), key@) == Some(i as int),
            None => declared_slot(keys_of(declared@), key@) is None,
        },
{
    let mut i: usize = 0;
    while i < declared.len()
        invariant
            i <= declared.len(),
            forall|j: int| 0 <= j < i ==> keys_of(declared@)[j] != key@,
        decreases declared.len() - i,
    {
        if same_text(declared[i], key) {
            proof {
                lemma_slot_found(keys_of(declared@), key@, i as int);
            }
            return Some(i);
        }
        i += 1;
    }
    None
}

/// The values of an element's attributes, one place for each declared key.
pub type Slots = Seq<Option<Seq<char>>>;

/// The views of attribute values.
pub open spec fn slots_of(v: Seq<Option<String>>) -> Slots {
    v.map_values(|o: Option<String>| crate::document::opt_text(o))
}

/// Reads the attributes of an opening tag into `slots`, up to the end of the
/// tag. An attribute whose key is not declared fails the read, and so does one
/// that occurs twice.
pub open spec fn attributes_into(p: Seq<XmlEvent>, declared: Seq<Seq<char>>, slots: Slots)
    -> Option<(Slots, Seq<XmlEvent>)>
    decreases p.len(),
{
    match attribute_step(p) {
        Some((Some((key, value)), rest)) => match declared_slot(declared, key) {
            Some(i) => if slots[i] is Some || rest.len() >= p.len() {
                None
            } else {
                attributes_into(rest, declared, slots.update(i, Some(value)))
            },
            None => None,
        },
        Some((None, rest)) => Some((slots, rest)),
        None => None,
    }
}

/// Reads the attributes of an opening tag: the value of each declared key,
/// `None` where the tag does not hold it.
pub open spec fn attributes(p: Seq<XmlEvent>, declared: Seq<Seq<char>>) -> Option<
    (Slots, Seq<XmlEvent>),
> {
    attributes_into(p, declared, Seq::new(declared.len(), |i: int| None))
}

/// Reads the attributes of the element `element`, whose opening tag has just
/// been entered, against the keys it declares.
pub fn read_attributes(
    reader: &mut hard_xml::XmlReader<'_>,
    element: &str,
    declared: &Vec<&'static str>,
) -> (r: Result<Vec<Option<String>>, XmlFailure>)
    ensures
        match r {
            Ok(slots) => attributes(pending(*old(reader)), keys_of(declared@)) == Some(
                (slots_of(slots@), pending(*final(reader))),
            ) && slots@.len() == declared@.len(),
            Err(_) => attributes(pending(*old(reader)), keys_of(declared@)) is None,
        },
        r is Ok ==> pending(*final(reader)).len() <= pending(*old(reader)).len(),
        r is Ok ==> pending(*final(reader)).len() > 0 && (pending(*final(reader))[0] is ElementOpen
            || pending(*final(reader))[0] is ElementEmpty),
{
    let ghost keys = keys_of(declared@);
    let mut slots: Vec<Option<String>> = Vec::new();
    let mut n: usize = 0;
    while n < declared.len()
        invariant
            n <= declared.len(),
            slots@.len() == n,
            forall|j: int| 0 <= j < n ==> slots@[j] is None,
        decreases declared.len() - n,
    {
        slots.push(None);
        n += 1;
    }
    assert(slots_of(slots@) =~= Seq::new(keys.len(), |i: int| None));
    loop
        invariant
            keys == keys_of(declared@),
            slots@.len() == declared@.len(),
            pending(*reader).len() <= pending(*old(reader)).len(),
            attributes(pending(*old(reader)), keys) == attributes_into(
                pending(*reader),
                keys,
                slots_of(slots@),
            ),
        decreases pending(*reader).len(),
    {
        match find_attribute(reader) {
            Err(e) => {
                return Err(XmlFailure::Reader(e));
            },
            Ok(None) => {
                return Ok(slots);
            },
            Ok(Some((key, value))) => {
                match find_slot(declared, key.as_str()) {
                    None => {
                        return Err(
                            XmlFailure::UnknownField { name: element.to_owned(), field: key },
                        );
                    },
                    Some(i) => {
                        if slots[i].is_some() {
                            return Err(XmlFailure::DuplicateAttribute(key));
                        }
                        let ghost before = slots_of(slots@);
                        slots.set(i, Some(value));
                        assert(slots_of(slots@) =~= before.update(i as int, Some(value@)));
                    },
                }
            },
        }
    }
}

/// Whether the first pending event starts the element `tag`.
pub open spec fn starts(p: Seq<XmlEvent>, tag: Seq<char>) -> bool {
    p.len() > 0 && p[0] == (XmlEvent::ElementStart { name: tag })
}

/// Enters the element `tag`: where the first pending event starts it, that
/// event is consumed and nothing else; otherwise the reader looks for the
/// element further on.
pub open spec fn entered(p: Seq<XmlEvent>, tag: Seq<char>) -> Option<Seq<XmlEvent>> {
    if starts(p, tag) {
        Some(p.skip(1))
    } else {
        element_entered(p, tag)
    }
}

/// Enters the element `tag`.
pub fn enter_element(reader: &mut hard_xml::XmlReader<'_>, tag: &str) -> (r: Result<
    (),
    XmlFailure,
>)
    ensures
        match r {
            Ok(_) => entered(pending(*old(reader)), tag@) == Some(pending(*final(reader))),
            Err(_) => entered(pending(*old(reader)), tag@) is None,
        },
        r is Ok ==> pending(*final(reader)).len() <= pending(*old(reader)).len(),
        r is Ok && starts(pending(*old(reader)), tag@) ==> pending(*final(reader)).len() < pending(
            *old(reader),
        ).len(),
{
    match read_till_element_start(reader, tag) {
        Err(e) => Err(XmlFailure::Reader(e)),
        Ok(_) => Ok(()),
    }
}

/// Reading text consumes events only.
pub proof fn lemma_text_read_len(p: Seq<XmlEvent>, end_tag: Seq<char>, acc: Seq<char>)
    ensures
        text_read_from(p, end_tag, acc) matches Some((_, rest)) ==> rest.len() <= p.len() && (
        p.len() > 0 ==> rest.len() < p.len()),
    decreases p.len(),
{
    if p.len() > 0 {
        match p[0] {
            XmlEvent::ElementOpen | XmlEvent::Attribute { .. } => {
                lemma_text_read_len(p.skip(1), end_tag, acc);
            },
            XmlEvent::Text { text } => {
                if crate::xml::unescaped(text) is Some {
                    lemma_text_read_len(
                        p.skip(1),
                        end_tag,
                        acc + crate::xml::unescaped(text)->0,
                    );
                }
            },
            XmlEvent::Cdata { text } => {
                lemma_text_read_len(p.skip(1), end_tag, acc + text);
            },
            _ => {},
        }
    }
}

/// Dropping the fillers at the front leaves no more than there was.
pub proof fn lemma_skip_fillers_len(p: Seq<XmlEvent>)
    ensures
        skip_fillers(p).len() <= p.len(),
    decreases p.len(),
{
    if p.len() > 0 && crate::xml::is_filler(p[0]) {
        lemma_skip_fillers_len(p.skip(1));
    }
}

/// Looking for a child consumes events only; where it finds a child, the
/// child's start is the first event left.
pub proof fn lemma_child_step(p: Seq<XmlEvent>, tag: Seq<char>)
    ensures
        match child_step(p, tag) {
            Some((Some(name), rest)) => rest.len() <= p.len() && starts(rest, name),
            Some((None, rest)) => rest.len() < p.len(),
            None => true,
        },
{
    lemma_skip_fillers_len(p);
}

/// An element that holds text, before its fields are given their types: the
/// values of its declared attributes and its text.
#[derive(Debug)]
pub struct RawElement {
    pub attrs: Vec<Option<String>>,
    pub text: String,
}

/// What a `RawElement` holds, as mathematical values.
pub struct RawElementView {
    pub attrs: Slots,
    pub text: Seq<char>,
}

impl View for RawElement {
    type V = RawElementView;

    open spec fn view(&self) -> RawElementView {
        RawElementView { attrs: slots_of(self.attrs@), text: self.text@ }
    }
}

/// Reads the element `tag` that holds text: its opening tag with the
/// declared attributes, then its text up to its closing tag.
pub open spec fn raw_element(p: Seq<XmlEvent>, tag: Seq<char>, declared: Seq<Seq<char>>)
    -> Option<(RawElementView, Seq<XmlEvent>)> {
    match entered(p, tag) {
        Some(inside) => match attributes(inside, declared) {
            Some((slots, after)) => match text_read(after, tag) {
                Some((text, rest)) => Some((RawElementView { attrs: slots, text }, rest)),
                None => None,
            },
            None => None,
        },
        None => None,
    }
}

/// Reads the element `tag` that holds text, strictly against the attribute
/// keys it declares.
pub fn read_raw_element(
    reader: &mut hard_xml::XmlReader<'_>,
    tag: &str,
    element: &str,
    declared: &Vec<&'static str>,
) -> (r: Result<RawElement, XmlFailure>)
    ensures
        match r {
            Ok(raw) => raw_element(pending(*old(reader)), tag@, keys_of(declared@)) == Some(
                (raw@, pending(*final(reader))),
            ) && raw.attrs@.len() == declared@.len(),
            Err(_) => raw_element(pending(*old(reader)), tag@, keys_of(declared@)) is None,
        },
        r is Ok ==> pending(*final(reader)).len() <= pending(*old(reader)).len(),
        r is Ok && starts(pending(*old(reader)), tag@) ==> pending(*final(reader)).len() < pending(
            *old(reader),
        ).len(),
{
    enter_element(reader, tag)?;
    let attrs = read_attributes(reader, element, declared)?;
    proof {
        lemma_text_read_len(pending(*reader), tag@, Seq::empty());
    }
    match read_text(reader, tag) {
        Err(e) => Err(XmlFailure::Reader(e)),
        Ok(text) => Ok(RawElement { attrs, text }),
    }
}

/// Reads the text of the child `tag` whose start is the first pending event:
/// the start is passed over, the opening tag must hold no attribute, then the
/// text is read up to the closing tag.
pub open spec fn flat_text(p: Seq<XmlEvent>, tag: Seq<char>) -> Option<(Seq<char>, Seq<XmlEvent>)> {
    let inside = if p.len() > 0 {
        p.skip(1)
    } else {
        p
    };
    match attributes(inside, Seq::empty()) {
        Some((_, after)) => text_read(after, tag),
        None => None,
    }
}

/// Reads the text of the child `tag` whose start is the first pending event.
/// The child declares no attribute.
pub fn read_flat_text(reader: &mut hard_xml::XmlReader<'_>, tag: &str) -> (r: Result<
    String,
    XmlFailure,
>)
    ensures
        match r {
            Ok(text) => flat_text(pending(*old(reader)), tag@) == Some(
                (text@, pending(*final(reader))),
            ),
            Err(_) => flat_text(pending(*old(reader)), tag@) is None,
        },
        r is Ok ==> pending(*final(reader)).len() <= pending(*old(reader)).len(),
        r is Ok && pending(*old(reader)).len() > 0 ==> pending(*final(reader)).len() < pending(
            *old(reader),
        ).len(),
{
    let _ = advance(reader);
    let declared: Vec<&'static str> = Vec::new();
    assert(keys_of(declared@) =~= Seq::empty());
    let _ = read_attributes(reader, tag, &declared)?;
    proof {
        lemma_text_read_len(pending(*reader), tag@, Seq::empty());
    }
    match read_text(reader, tag) {
        Err(e) => Err(XmlFailure::Reader(e)),
        Ok(text) => Ok(text),
    }
}

/// Enters the element `tag` that holds children and declares no attribute:
/// its opening tag must hold none. Yields whether the element is empty.
pub open spec fn container_entered(p: Seq<XmlEvent>, tag: Seq<char>) -> Option<
    (bool, Seq<XmlEvent>),
> {
    match entered(p, tag) {
        Some(inside) => match attributes(inside, Seq::empty()) {
            Some((_, after)) => Some((after[0] is ElementEmpty, after.skip(1))),
            None => None,
        },
        None => None,
    }
}

/// Enters the element `tag` that holds children and declares no attribute.
pub fn enter_container(reader: &mut hard_xml::XmlReader<'_>, tag: &str, element: &str) -> (r:
    Result<bool, XmlFailure>)
    ensures
        match r {
            Ok(empty) => container_entered(pending(*old(reader)), tag@) == Some(
                (empty, pending(*final(reader))),
            ),
            Err(_) => container_entered(pending(*old(reader)), tag@) is None,
        },
        r is Ok ==> pending(*final(reader)).len() <= pending(*old(reader)).len(),
        r is Ok && starts(pending(*old(reader)), tag@) ==> pending(*final(reader)).len() < pending(
            *old(reader),
        ).len(),
{
    enter_element(reader, tag)?;
    let declared: Vec<&'static str> = Vec::new();
    assert(keys_of(declared@) =~= Seq::empty());
    let _ = read_attributes(reader, element, &declared)?;
    match advance(reader) {
        Some(Ok(empty)) => Ok(empty),
        Some(Err(e)) => Err(XmlFailure::Reader(e)),
        None => Err(XmlFailure::UnexpectedEof),
    }
}

/// Looks for the next child of the element `tag`, for the parsers of this
/// crate: the reader's failure becomes the library's.
pub fn next_child(reader: &mut hard_xml::XmlReader<'_>, tag: &str) -> (r: Result<
    Option<String>,
    XmlFailure,
>)
    ensures
        match r {
            Ok(n) => child_step(pending(*old(reader)), tag@) == Some(
                (crate::xml::name_view(n), pending(*final(reader))),
            ),
            Err(_) => child_step(pending(*old(reader)), tag@) is None,
        },
        r is Ok ==> pending(*final(reader)).len() <= pending(*old(reader)).len(),
        r matches Ok(Some(name)) ==> starts(pending(*final(reader)), name@),
        r matches Ok(None) ==> pending(*final(reader)).len() < pending(*old(reader)).len(),
{
    proof {
        lemma_child_step(pending(*old(reader)), tag@);
    }
    match find_element_start(reader, tag) {
        Err(e) => Err(XmlFailure::Reader(e)),
        Ok(n) => Ok(n),
    }
}

/// Whether the opening tag at the front of `p` holds, after `k` other
/// attributes, an attribute whose key is not among `declared`.
pub open spec fn has_undeclared_attribute(p: Seq<XmlEvent>, declared: Seq<Seq<char>>, k: int)
    -> bool {
    &&& 0 <= k < p.len()
    &&& forall|i: int| 0 <= i < k ==> (#[trigger] p[i]) is Attribute
    &&& p[k] matches XmlEvent::Attribute { key, .. } && declared_slot(declared, key) is None
}

/// An opening tag that holds an attribute which the element does not declare
/// fails the read of its attributes, wherever among them the attribute
/// stands: it is never passed over.
pub proof fn lemma_undeclared_attribute_rejected(
    p: Seq<XmlEvent>,
    declared: Seq<Seq<char>>,
    slots: Slots,
    k: int,
)
    requires
        has_undeclared_attribute(p, declared, k),
    ensures
        attributes_into(p, declared, slots) is None,
    decreases k,
{
    if k > 0 {
        assert(p[0] is Attribute);
        match attribute_step(p) {
            Some((Some((key, value)), rest)) => {
                assert(rest == p.skip(1));
                assert forall|i: int| 0 <= i < k - 1 implies (#[trigger] rest[i]) is Attribute by {
                    assert(rest[i] == p[i + 1]);
                }
                assert(rest[k - 1] == p[k]);
                match declared_slot(declared, key) {
                    Some(i) => {
                        lemma_undeclared_attribute_rejected(
                            rest,
                            declared,
                            slots.update(i, Some(value)),
                            k - 1,
                        );
                    },
                    None => {},
                }
            },
            _ => {},
        }
    }
}

/// An element that holds text fails to parse where its opening tag holds an
/// attribute that it does not declare.
pub proof fn lemma_raw_element_is_strict(
    p: Seq<XmlEvent>,
    tag: Seq<char>,
    declared: Seq<Seq<char>>,
    k: int,
)
    requires
        entered(p, tag) matches Some(inside) && has_undeclared_attribute(
            inside,
            declared,
            k,
        ),
    ensures
        raw_element(p, tag, declared) is None,
{
    lemma_undeclared_attribute_rejected(
        entered(p, tag)->0,
        declared,
        Seq::new(declared.len(), |i: int| None),
        k,
    );
}

/// An element that holds children fails to parse where its opening tag holds
/// any attribute: it declares none.
pub proof fn lemma_container_is_strict(p: Seq<XmlEvent>, tag: Seq<char>)
    requires
        entered(p, tag) matches Some(inside) && inside.len() > 0 && inside[0] is Attribute,
    ensures
        container_entered(p, tag) is None,
{
    let inside = entered(p, tag)->0;
    let declared = Seq::<Seq<char>>::empty();
    assert(declared_slot(declared, inside[0]->key) is None);
    let slots = Seq::new(declared.len(), |i: int| None);
    lemma_undeclared_attribute_rejected(inside, declared, slots, 0);
}

/// A child that holds only text fails to parse where its opening tag holds
/// any attribute: it declares none.
pub proof fn lemma_flat_text_is_strict(p: Seq<XmlEvent>, tag: Seq<char>)
    requires
        p.len() > 1,
        p[1] is Attribute,
    ensures
        flat_text(p, tag) is None,
{
    let inside = p.skip(1);
    let declared = Seq::<Seq<char>>::empty();
    assert(declared_slot(declared, inside[0]->key) is None);
    let slots = Seq::new(declared.len(), |i: int| None);
    lemma_undeclared_attribute_rejected(inside, declared, slots, 0);
}

} // verus!
