//! Strictness of the parser as a whole: in a document that parses, every
//! attribute that stands in the opening tag of an element is one that the
//! element declares, at whatever depth the element stands.

use crate::document::{
    Character, Codepoint, CpValue, DicNumber, DicRef, Dict2, Dict2Header, Meaning, Misc,
    MiscVariant, MiscView, QCode, QueryCode, RMGroup, RMGroupView, RadValue, Radical, Reading,
    ReadingMeaning, ReadingMeaningView,
};
use crate::elements::{element_list, list_children, text_element, TextElement};
use crate::parser::{
    character_children, dict_children, empty_character, empty_dict, empty_header, empty_misc,
    empty_reading_meaning, empty_rmgroup, flat_number, header_children, misc_children,
    parse_document, reading_meaning_children, rmgroup_children, CharacterParts, DictParts,
    HeaderParts,
};
use crate::schema::{
    attributes, attributes_into, container_entered, declared_slot, entered, flat_text, is_slot,
    raw_element, starts, Slots,
};
use crate::xml::{
    attribute_step, child_step, is_filler, skip_fillers, text_read_from, unescaped, xml_events,
    XmlEvent,
};
use vstd::prelude::*;

verus! {

/// The events that a step leaves, or none where the step fails.
pub open spec fn left<A>(step: Option<(A, Seq<XmlEvent>)>) -> Seq<XmlEvent> {
    match step {
        Some((_, rest)) => rest,
        None => Seq::empty(),
    }
}

/// Whether the element named `name` declares the attribute `key`.
pub open spec fn declares(name: Seq<char>, key: Seq<char>) -> bool {
    ||| name == "cp_value"@ && key == "cp_type"@
    ||| name == "rad_value"@ && key == "rad_type"@
    ||| name == "variant"@ && key == "var_type"@
    ||| name == "dic_ref"@ && (key == "dr_type"@ || key == "m_vol"@ || key == "m_page"@)
    ||| name == "q_code"@ && (key == "qc_type"@ || key == "skip_misclass"@)
    ||| name == "meaning"@ && key == "m_lang"@
    ||| name == "reading"@ && key == "r_type"@
}

/// Whether every attribute of `events` that stands in an opening tag is
/// declared by the element of that tag. `tag` names the element in whose
/// opening tag the first event stands, and is `None` where it stands in
/// none. An opening tag reaches from its start over the attributes that
/// follow it.
pub open spec fn attributes_declared(events: Seq<XmlEvent>, tag: Option<Seq<char>>) -> bool
    decreases events.len(),
{
    if events.len() == 0 {
        true
    } else {
        match events[0] {
            XmlEvent::ElementStart { name } => attributes_declared(events.skip(1), Some(name)),
            XmlEvent::Attribute { key, .. } => (tag matches Some(name) ==> declares(name, key))
                && attributes_declared(events.skip(1), tag),
            _ => attributes_declared(events.skip(1), None),
        }
    }
}

/// Whether `events` begin outside the attributes of an opening tag.
pub open spec fn begins_outside(events: Seq<XmlEvent>) -> bool {
    events.len() == 0 || !(events[0] is Attribute)
}

/// Whether `run` holds nothing but attributes that the element `name`
/// declares.
pub open spec fn declared_run(run: Seq<XmlEvent>, name: Seq<char>) -> bool {
    forall|j: int|
        0 <= j < run.len() ==> (#[trigger] run[j]) is Attribute && declares(name, run[j]->key)
}

proof fn lemma_tag_irrelevant(events: Seq<XmlEvent>, a: Option<Seq<char>>, b: Option<Seq<char>>)
    requires
        begins_outside(events),
    ensures
        attributes_declared(events, a) == attributes_declared(events, b),
{
}

proof fn lemma_join(a: Seq<XmlEvent>, b: Seq<XmlEvent>, tag: Option<Seq<char>>)
    requires
        attributes_declared(a, tag),
        attributes_declared(b, None),
        begins_outside(b),
    ensures
        attributes_declared(a + b, tag),
    decreases a.len(),
{
    if a.len() == 0 {
        assert(a + b =~= b);
        lemma_tag_irrelevant(b, tag, None);
    } else {
        assert((a + b).skip(1) =~= a.skip(1) + b);
        assert((a + b)[0] == a[0]);
        match a[0] {
            XmlEvent::ElementStart { name } => lemma_join(a.skip(1), b, Some(name)),
            XmlEvent::Attribute { .. } => lemma_join(a.skip(1), b, tag),
            _ => lemma_join(a.skip(1), b, None),
        }
    }
}

proof fn lemma_join_run(run: Seq<XmlEvent>, b: Seq<XmlEvent>, name: Seq<char>)
    requires
        declared_run(run, name),
        attributes_declared(b, None),
        begins_outside(b),
    ensures
        attributes_declared(run + b, Some(name)),
    decreases run.len(),
{
    if run.len() == 0 {
        assert(run + b =~= b);
        lemma_tag_irrelevant(b, Some(name), None);
    } else {
        assert((run + b).skip(1) =~= run.skip(1) + b);
        assert((run + b)[0] == run[0]);
        assert forall|j: int| 0 <= j < run.skip(1).len() implies (#[trigger] run.skip(1)[j])
            is Attribute && declares(name, run.skip(1)[j]->key) by {
            assert(run.skip(1)[j] == run[j + 1]);
        }
        lemma_join_run(run.skip(1), b, name);
    }
}

/// The attributes that were read of an opening tag are all declared, and
/// what follows them is the end of the tag.
proof fn lemma_attributes_read(
    p: Seq<XmlEvent>,
    declared: Seq<Seq<char>>,
    slots: Slots,
    name: Seq<char>,
) -> (run: Seq<XmlEvent>)
    requires
        attributes_into(p, declared, slots) is Some,
        forall|i: int| 0 <= i < declared.len() ==> declares(name, #[trigger] declared[i]),
    ensures
        p == run + left(attributes_into(p, declared, slots)),
        declared_run(run, name),
        left(attributes_into(p, declared, slots)).len() > 0,
        !(left(attributes_into(p, declared, slots))[0] is Attribute),
    decreases p.len(),
{
    match attribute_step(p) {
        Some((Some((key, value)), rest)) => {
            let i = declared_slot(declared, key)->0;
            assert(is_slot(declared, key, i));
            assert(declares(name, declared[i]));
            assert(rest == p.skip(1));
            let next = slots.update(i, Some(value));
            assert(attributes_into(p, declared, slots) == attributes_into(rest, declared, next));
            let tail = lemma_attributes_read(rest, declared, next, name);
            let after = left(attributes_into(rest, declared, next));
            let run = seq![p[0]] + tail;
            assert(rest == tail + after);
            assert(p =~= seq![p[0]] + rest);
            assert(p =~= run + after);
            assert forall|j: int| 0 <= j < run.len() implies (#[trigger] run[j]) is Attribute
                && declares(name, run[j]->key) by {
                if j > 0 {
                    assert(run[j] == tail[j - 1]);
                }
            }
            run
        },
        _ => {
            assert(p =~= Seq::<XmlEvent>::empty() + p);
            Seq::empty()
        },
    }
}

/// What was read as text holds no opening tag.
proof fn lemma_text_read(p: Seq<XmlEvent>, end_tag: Seq<char>, acc: Seq<char>) -> (read: Seq<
    XmlEvent,
>)
    requires
        text_read_from(p, end_tag, acc) is Some,
    ensures
        p == read + left(text_read_from(p, end_tag, acc)),
        attributes_declared(read, None),
        p.len() > 0 ==> read.len() > 0,
    decreases p.len(),
{
    if p.len() == 0 {
        assert(p =~= Seq::<XmlEvent>::empty() + p);
        Seq::empty()
    } else {
        let rest = left(text_read_from(p, end_tag, acc));
        let next = match p[0] {
            XmlEvent::Text { text } => acc + unescaped(text)->0,
            XmlEvent::Cdata { text } => acc + text,
            _ => acc,
        };
        let goes_on = p[0] is ElementOpen || p[0] is Attribute || p[0] is Text || p[0] is Cdata;
        let tail = if goes_on {
            assert(text_read_from(p, end_tag, acc) == text_read_from(p.skip(1), end_tag, next));
            lemma_text_read(p.skip(1), end_tag, next)
        } else {
            assert(rest == p.skip(1));
            Seq::empty()
        };
        let read = seq![p[0]] + tail;
        assert(p.skip(1) =~= tail + rest);
        assert(p =~= seq![p[0]] + p.skip(1));
        assert(p =~= read + rest);
        assert(read.skip(1) =~= tail);
        assert(read[0] == p[0]);
        assert(!(p[0] is ElementStart));
        assert(attributes_declared(tail, None));
        assert(attributes_declared(read.skip(1), None));
        assert(read.len() > 0);
        assert(attributes_declared(read, None));
        read
    }
}

/// The slots before any attribute is read: none is filled.
pub open spec fn no_slots(declared: Seq<Seq<char>>) -> Slots {
    Seq::new(declared.len(), |i: int| None)
}

/// Whether the element `name` declares every key of `keys`.
pub open spec fn all_declared(name: Seq<char>, keys: Seq<Seq<char>>) -> bool {
    forall|i: int| 0 <= i < keys.len() ==> declares(name, #[trigger] keys[i])
}

/// What was read on entering an element with children: the attributes of
/// its opening tag, all declared, and the end of the tag.
proof fn lemma_container_read(p: Seq<XmlEvent>, tag: Seq<char>) -> (read: Seq<XmlEvent>)
    requires
        container_entered(p, tag) is Some,
    ensures
        entered(p, tag)->0 == read + left(container_entered(p, tag)),
        attributes_declared(read, Some(tag)),
        read.len() > 0,
{
    let inside = entered(p, tag)->0;
    let declared = Seq::<Seq<char>>::empty();
    assert(attributes(inside, declared) == attributes_into(inside, declared, no_slots(declared)));
    let run = lemma_attributes_read(inside, declared, no_slots(declared), tag);
    let after = left(attributes(inside, declared));
    let end = seq![after[0]];
    assert(end.skip(1) =~= Seq::<XmlEvent>::empty());
    assert(attributes_declared(end.skip(1), None));
    assert(attributes_declared(end, None));
    lemma_join_run(run, end, tag);
    assert(after =~= end + after.skip(1));
    assert(inside =~= (run + end) + after.skip(1));
    run + end
}

/// What was read of an element that holds text: the attributes of its
/// opening tag, all declared, and its text.
proof fn lemma_raw_element_read(p: Seq<XmlEvent>, tag: Seq<char>, declared: Seq<Seq<char>>) -> (read:
    Seq<XmlEvent>)
    requires
        raw_element(p, tag, declared) is Some,
        all_declared(tag, declared),
    ensures
        entered(p, tag)->0 == read + left(raw_element(p, tag, declared)),
        attributes_declared(read, Some(tag)),
        read.len() > 0,
{
    let inside = entered(p, tag)->0;
    assert(attributes(inside, declared) == attributes_into(inside, declared, no_slots(declared)));
    let run = lemma_attributes_read(inside, declared, no_slots(declared), tag);
    let after = left(attributes(inside, declared));
    let text = lemma_text_read(after, tag, Seq::empty());
    let rest = left(raw_element(p, tag, declared));
    assert(after == text + rest);
    assert(text[0] == after[0]);
    lemma_join_run(run, text, tag);
    assert(inside =~= (run + text) + rest);
    run + text
}

/// What was read of a child that holds only text: its start, with no
/// attribute, and its text.
proof fn lemma_flat_text_read(p: Seq<XmlEvent>, tag: Seq<char>) -> (read: Seq<XmlEvent>)
    requires
        flat_text(p, tag) is Some,
        p.len() > 0,
        p[0] is ElementStart,
    ensures
        p == read + left(flat_text(p, tag)),
        attributes_declared(read, None),
        read.len() > 0,
        read[0] == p[0],
{
    let inside = p.skip(1);
    let declared = Seq::<Seq<char>>::empty();
    let name = p[0]->ElementStart_name;
    assert(attributes(inside, declared) == attributes_into(inside, declared, no_slots(declared)));
    let run = lemma_attributes_read(inside, declared, no_slots(declared), name);
    let after = left(attributes(inside, declared));
    let text = lemma_text_read(after, tag, Seq::empty());
    let rest = left(flat_text(p, tag));
    assert(after == text + rest);
    assert(text[0] == after[0]);
    lemma_join_run(run, text, name);
    let read = seq![p[0]] + (run + text);
    assert(read.skip(1) =~= run + text);
    assert(attributes_declared(read.skip(1), Some(name)));
    assert(attributes_declared(read, None));
    assert(p =~= seq![p[0]] + inside);
    assert(p =~= read + rest);
    read
}

/// An element that was entered at its start: its start and what was read
/// after it.
proof fn lemma_started(p: Seq<XmlEvent>, tag: Seq<char>, read: Seq<XmlEvent>, rest: Seq<XmlEvent>)
    requires
        starts(p, tag),
        entered(p, tag)->0 == read + rest,
        attributes_declared(read, Some(tag)),
    ensures
        p == (seq![p[0]] + read) + rest,
        attributes_declared(seq![p[0]] + read, None),
        (seq![p[0]] + read).len() > 0,
        (seq![p[0]] + read)[0] == p[0],
{
    let whole = seq![p[0]] + read;
    assert(whole.skip(1) =~= read);
    assert(attributes_declared(whole.skip(1), Some(tag)));
    assert(p =~= seq![p[0]] + p.skip(1));
    assert(p =~= whole + rest);
}

/// The fillers that were passed over hold no opening tag.
proof fn lemma_fillers(p: Seq<XmlEvent>) -> (fillers: Seq<XmlEvent>)
    ensures
        p == fillers + skip_fillers(p),
        attributes_declared(fillers, None),
        begins_outside(fillers),
    decreases p.len(),
{
    if p.len() > 0 && is_filler(p[0]) {
        let tail = lemma_fillers(p.skip(1));
        let fillers = seq![p[0]] + tail;
        assert(fillers.skip(1) =~= tail);
        assert(attributes_declared(fillers.skip(1), None));
        assert(p =~= seq![p[0]] + p.skip(1));
        assert(p =~= fillers + skip_fillers(p));
        fillers
    } else {
        assert(p =~= Seq::<XmlEvent>::empty() + p);
        Seq::empty()
    }
}

/// Fillers, a child and what was read after it, put together.
proof fn lemma_join_child(
    p: Seq<XmlEvent>,
    fillers: Seq<XmlEvent>,
    child: Seq<XmlEvent>,
    after: Seq<XmlEvent>,
    rest: Seq<XmlEvent>,
)
    requires
        p == fillers + (child + (after + rest)),
        attributes_declared(fillers, None),
        begins_outside(fillers),
        attributes_declared(child, None),
        child.len() > 0,
        !(child[0] is Attribute),
        attributes_declared(after, None),
        begins_outside(after),
    ensures
        p == (fillers + child + after) + rest,
        attributes_declared(fillers + child + after, None),
        (fillers + child + after).len() > 0,
        begins_outside(fillers + child + after),
{
    lemma_join(child, after, None);
    assert((child + after)[0] == child[0]);
    lemma_join(fillers, child + after, None);
    assert(fillers + child + after =~= fillers + (child + after));
    assert(p =~= (fillers + child + after) + rest);
    if fillers.len() > 0 {
        assert((fillers + child + after)[0] == fillers[0]);
    } else {
        assert((fillers + child + after)[0] == child[0]);
    }
}

/// Fillers and the closing tag that ends an element, put together.
proof fn lemma_join_close(p: Seq<XmlEvent>, fillers: Seq<XmlEvent>, rest: Seq<XmlEvent>) -> (read:
    Seq<XmlEvent>)
    requires
        p == fillers + skip_fillers(p),
        skip_fillers(p).len() > 0,
        skip_fillers(p)[0] is ElementClose,
        rest == skip_fillers(p).skip(1),
        attributes_declared(fillers, None),
        begins_outside(fillers),
    ensures
        p == read + rest,
        attributes_declared(read, None),
        read.len() > 0,
        begins_outside(read),
{
    let q = skip_fillers(p);
    let end = seq![q[0]];
    assert(end.skip(1) =~= Seq::<XmlEvent>::empty());
    assert(attributes_declared(end.skip(1), None));
    assert(attributes_declared(end, None));
    lemma_join(fillers, end, None);
    assert(q =~= end + rest);
    assert(p =~= (fillers + end) + rest);
    if fillers.len() > 0 {
        assert((fillers + end)[0] == fillers[0]);
    } else {
        assert((fillers + end)[0] == end[0]);
    }
    fillers + end
}

/// What was read of an element of the kind `T`, from its start on.
proof fn lemma_text_element_read<T: TextElement>(p: Seq<XmlEvent>) -> (read: Seq<XmlEvent>)
    requires
        starts(p, T::tag_name()),
        text_element::<T>(p) is Some,
        all_declared(T::tag_name(), T::keys()),
    ensures
        p == read + left(text_element::<T>(p)),
        attributes_declared(read, None),
        read.len() > 0,
        read[0] == p[0],
{
    let inner = lemma_raw_element_read(p, T::tag_name(), T::keys());
    let rest = left(text_element::<T>(p));
    assert(rest == left(raw_element(p, T::tag_name(), T::keys())));
    lemma_started(p, T::tag_name(), inner, rest);
    seq![p[0]] + inner
}

/// What was read of the children of a list.
proof fn lemma_list_children_read<T: TextElement>(p: Seq<XmlEvent>, tag: Seq<char>, acc: Seq<T::V>)
    -> (read: Seq<XmlEvent>)
    requires
        list_children::<T>(p, tag, acc) is Some,
        all_declared(T::tag_name(), T::keys()),
    ensures
        p == read + left(list_children::<T>(p, tag, acc)),
        attributes_declared(read, None),
        read.len() > 0,
        begins_outside(read),
    decreases p.len(),
{
    let fillers = lemma_fillers(p);
    let q = skip_fillers(p);
    let rest = left(list_children::<T>(p, tag, acc));
    match child_step(p, tag) {
        Some((Some(name), _)) => {
            let child = lemma_text_element_read::<T>(q);
            let (item, next) = text_element::<T>(q)->0;
            let after = lemma_list_children_read::<T>(next, tag, acc.push(item));
            lemma_join_child(p, fillers, child, after, rest);
            fillers + child + after
        },
        _ => lemma_join_close(p, fillers, rest),
    }
}

/// What was read of a list, from its start on.
proof fn lemma_list_read<T: TextElement>(p: Seq<XmlEvent>, tag: Seq<char>) -> (read: Seq<XmlEvent>)
    requires
        starts(p, tag),
        element_list::<T>(p, tag) is Some,
        all_declared(T::tag_name(), T::keys()),
    ensures
        p == read + left(element_list::<T>(p, tag)),
        attributes_declared(read, None),
        read.len() > 0,
        read[0] == p[0],
{
    let opened = lemma_container_read(p, tag);
    let (empty, inside) = container_entered(p, tag)->0;
    let rest = left(element_list::<T>(p, tag));
    if empty {
        lemma_started(p, tag, opened, rest);
        seq![p[0]] + opened
    } else {
        let children = lemma_list_children_read::<T>(inside, tag, Seq::empty());
        lemma_join(opened, children, Some(tag));
        assert(entered(p, tag)->0 =~= (opened + children) + rest);
        lemma_started(p, tag, opened + children, rest);
        seq![p[0]] + (opened + children)
    }
}

/// What was read of a `codepoint` element, from its start on.
#[verifier::rlimit(50)]
proof fn lemma_codepoint_read(p: Seq<XmlEvent>) -> (read: Seq<XmlEvent>)
    requires
        starts(p, "codepoint"@),
        Codepoint::parse(p) is Some,
    ensures
        p == read + left(Codepoint::parse(p)),
        attributes_declared(read, None),
        read.len() > 0,
        read[0] == p[0],
{
    lemma_list_read::<CpValue>(p, "codepoint"@)
}

/// What was read of a `radical` element, from its start on.
#[verifier::rlimit(50)]
proof fn lemma_radical_read(p: Seq<XmlEvent>) -> (read: Seq<XmlEvent>)
    requires
        starts(p, "radical"@),
        Radical::parse(p) is Some,
    ensures
        p == read + left(Radical::parse(p)),
        attributes_declared(read, None),
        read.len() > 0,
        read[0] == p[0],
{
    lemma_list_read::<RadValue>(p, "radical"@)
}

/// What was read of a `dic_number` element, from its start on.
#[verifier::rlimit(50)]
proof fn lemma_dic_number_read(p: Seq<XmlEvent>) -> (read: Seq<XmlEvent>)
    requires
        starts(p, "dic_number"@),
        DicNumber::parse(p) is Some,
    ensures
        p == read + left(DicNumber::parse(p)),
        attributes_declared(read, None),
        read.len() > 0,
        read[0] == p[0],
{
    lemma_list_read::<DicRef>(p, "dic_number"@)
}

/// What was read of a `query_code` element, from its start on.
#[verifier::rlimit(50)]
proof fn lemma_query_code_read(p: Seq<XmlEvent>) -> (read: Seq<XmlEvent>)
    requires
        starts(p, "query_code"@),
        QueryCode::parse(p) is Some,
    ensures
        p == read + left(QueryCode::parse(p)),
        attributes_declared(read, None),
        read.len() > 0,
        read[0] == p[0],
{
    lemma_list_read::<QCode>(p, "query_code"@)
}

/// What was read of the children of a `misc` element.
#[verifier::rlimit(50)]
proof fn lemma_misc_children_read(p: Seq<XmlEvent>, acc: MiscView) -> (read: Seq<XmlEvent>)
    requires
        misc_children(p, acc) is Some,
    ensures
        p == read + left(misc_children(p, acc)),
        attributes_declared(read, None),
        read.len() > 0,
        begins_outside(read),
    decreases p.len(),
{
    let fillers = lemma_fillers(p);
    let q = skip_fillers(p);
    let rest = left(misc_children(p, acc));
    match child_step(p, "misc"@) {
        Some((Some(name), _)) => {
            if name == "variant"@ {
                let child = lemma_text_element_read::<MiscVariant>(q);
                let (v, next) = text_element::<MiscVariant>(q)->0;
                let after = lemma_misc_children_read(next, MiscView { variant: Some(v), ..acc });
                lemma_join_child(p, fillers, child, after, rest);
                fillers + child + after
            } else if name == "grade"@ {
                let child = lemma_flat_text_read(q, "grade"@);
                let (v, next) = flat_number(q, "grade"@)->0;
                let after = lemma_misc_children_read(next, MiscView { grade: Some(v), ..acc });
                lemma_join_child(p, fillers, child, after, rest);
                fillers + child + after
            } else if name == "stroke_count"@ {
                let child = lemma_flat_text_read(q, "stroke_count"@);
                let (v, next) = flat_number(q, "stroke_count"@)->0;
                let after = lemma_misc_children_read(next, MiscView { stroke_count: acc.stroke_count.push(v), ..acc });
                lemma_join_child(p, fillers, child, after, rest);
                fillers + child + after
            } else if name == "freq"@ {
                let child = lemma_flat_text_read(q, "freq"@);
                let (v, next) = flat_number(q, "freq"@)->0;
                let after = lemma_misc_children_read(next, MiscView { freq: Some(v), ..acc });
                lemma_join_child(p, fillers, child, after, rest);
                fillers + child + after
            } else if name == "jlpt"@ {
                let child = lemma_flat_text_read(q, "jlpt"@);
                let (v, next) = flat_number(q, "jlpt"@)->0;
                let after = lemma_misc_children_read(next, MiscView { jlpt: Some(v), ..acc });
                lemma_join_child(p, fillers, child, after, rest);
                fillers + child + after
            } else if name == "rad_name"@ {
                let child = lemma_flat_text_read(q, "rad_name"@);
                let (v, next) = flat_text(q, "rad_name"@)->0;
                let after = lemma_misc_children_read(next, MiscView { rad_name: Some(v), ..acc });
                lemma_join_child(p, fillers, child, after, rest);
                fillers + child + after
            } else {
                Seq::empty()
            }
        },
        _ => lemma_join_close(p, fillers, rest),
    }
}

/// What was read of a `misc` element, from its start on.
#[verifier::rlimit(50)]
proof fn lemma_misc_read(p: Seq<XmlEvent>) -> (read: Seq<XmlEvent>)
    requires
        starts(p, "misc"@),
        Misc::parse(p) is Some,
    ensures
        p == read + left(Misc::parse(p)),
        attributes_declared(read, None),
        read.len() > 0,
        read[0] == p[0],
{
    let opened = lemma_container_read(p, "misc"@);
    let (empty, inside) = container_entered(p, "misc"@)->0;
    let rest = left(Misc::parse(p));
    if empty {
        lemma_started(p, "misc"@, opened, rest);
        seq![p[0]] + opened
    } else {
        let children = lemma_misc_children_read(inside, empty_misc());
        lemma_join(opened, children, Some("misc"@));
        assert(entered(p, "misc"@)->0 =~= (opened + children) + rest);
        lemma_started(p, "misc"@, opened + children, rest);
        seq![p[0]] + (opened + children)
    }
}

/// What was read of the children of a `rmgroup` element.
#[verifier::rlimit(50)]
proof fn lemma_rmgroup_children_read(p: Seq<XmlEvent>, acc: RMGroupView) -> (read: Seq<XmlEvent>)
    requires
        rmgroup_children(p, acc) is Some,
    ensures
        p == read + left(rmgroup_children(p, acc)),
        attributes_declared(read, None),
        read.len() > 0,
        begins_outside(read),
    decreases p.len(),
{
    let fillers = lemma_fillers(p);
    let q = skip_fillers(p);
    let rest = left(rmgroup_children(p, acc));
    match child_step(p, "rmgroup"@) {
        Some((Some(name), _)) => {
            if name == "reading"@ {
                let child = lemma_text_element_read::<Reading>(q);
                let (v, next) = text_element::<Reading>(q)->0;
                let after = lemma_rmgroup_children_read(next, RMGroupView { reading: acc.reading.push(v), ..acc });
                lemma_join_child(p, fillers, child, after, rest);
                fillers + child + after
            } else if name == "meaning"@ {
                let child = lemma_text_element_read::<Meaning>(q);
                let (v, next) = text_element::<Meaning>(q)->0;
                let after = lemma_rmgroup_children_read(next, RMGroupView { meaning: acc.meaning.push(v), ..acc });
                lemma_join_child(p, fillers, child, after, rest);
                fillers + child + after
            } else {
                Seq::empty()
            }
        },
        _ => lemma_join_close(p, fillers, rest),
    }
}

/// What was read of a `rmgroup` element, from its start on.
#[verifier::rlimit(50)]
proof fn lemma_rmgroup_read(p: Seq<XmlEvent>) -> (read: Seq<XmlEvent>)
    requires
        starts(p, "rmgroup"@),
        RMGroup::parse(p) is Some,
    ensures
        p == read + left(RMGroup::parse(p)),
        attributes_declared(read, None),
        read.len() > 0,
        read[0] == p[0],
{
    let opened = lemma_container_read(p, "rmgroup"@);
    let (empty, inside) = container_entered(p, "rmgroup"@)->0;
    let rest = left(RMGroup::parse(p));
    if empty {
        lemma_started(p, "rmgroup"@, opened, rest);
        seq![p[0]] + opened
    } else {
        let children = lemma_rmgroup_children_read(inside, empty_rmgroup());
        lemma_join(opened, children, Some("rmgroup"@));
        assert(entered(p, "rmgroup"@)->0 =~= (opened + children) + rest);
        lemma_started(p, "rmgroup"@, opened + children, rest);
        seq![p[0]] + (opened + children)
    }
}

/// What was read of the children of a `reading_meaning` element.
#[verifier::rlimit(50)]
proof fn lemma_reading_meaning_children_read(p: Seq<XmlEvent>, acc: ReadingMeaningView) -> (read: Seq<XmlEvent>)
    requires
        reading_meaning_children(p, acc) is Some,
    ensures
        p == read + left(reading_meaning_children(p, acc)),
        attributes_declared(read, None),
        read.len() > 0,
        begins_outside(read),
    decreases p.len(),
{
    let fillers = lemma_fillers(p);
    let q = skip_fillers(p);
    let rest = left(reading_meaning_children(p, acc));
    match child_step(p, "reading_meaning"@) {
        Some((Some(name), _)) => {
            if name == "rmgroup"@ {
                let child = lemma_rmgroup_read(q);
                let (v, next) = RMGroup::parse(q)->0;
                let after = lemma_reading_meaning_children_read(next, ReadingMeaningView { rmgroup: acc.rmgroup.push(v), ..acc });
                lemma_join_child(p, fillers, child, after, rest);
                fillers + child + after
            } else if name == "nanori"@ {
                let child = lemma_flat_text_read(q, "nanori"@);
                let (v, next) = flat_text(q, "nanori"@)->0;
                let after = lemma_reading_meaning_children_read(next, ReadingMeaningView { nanori: acc.nanori.push(v), ..acc });
                lemma_join_child(p, fillers, child, after, rest);
                fillers + child + after
            } else {
                Seq::empty()
            }
        },
        _ => lemma_join_close(p, fillers, rest),
    }
}

/// What was read of a `reading_meaning` element, from its start on.
#[verifier::rlimit(50)]
proof fn lemma_reading_meaning_read(p: Seq<XmlEvent>) -> (read: Seq<XmlEvent>)
    requires
        starts(p, "reading_meaning"@),
        ReadingMeaning::parse(p) is Some,
    ensures
        p == read + left(ReadingMeaning::parse(p)),
        attributes_declared(read, None),
        read.len() > 0,
        read[0] == p[0],
{
    let opened = lemma_container_read(p, "reading_meaning"@);
    let (empty, inside) = container_entered(p, "reading_meaning"@)->0;
    let rest = left(ReadingMeaning::parse(p));
    if empty {
        lemma_started(p, "reading_meaning"@, opened, rest);
        seq![p[0]] + opened
    } else {
        let children = lemma_reading_meaning_children_read(inside, empty_reading_meaning());
        lemma_join(opened, children, Some("reading_meaning"@));
        assert(entered(p, "reading_meaning"@)->0 =~= (opened + children) + rest);
        lemma_started(p, "reading_meaning"@, opened + children, rest);
        seq![p[0]] + (opened + children)
    }
}

/// What was read of the children of a `header` element.
#[verifier::rlimit(50)]
proof fn lemma_header_children_read(p: Seq<XmlEvent>, acc: HeaderParts) -> (read: Seq<XmlEvent>)
    requires
        header_children(p, acc) is Some,
    ensures
        p == read + left(header_children(p, acc)),
        attributes_declared(read, None),
        read.len() > 0,
        begins_outside(read),
    decreases p.len(),
{
    let fillers = lemma_fillers(p);
    let q = skip_fillers(p);
    let rest = left(header_children(p, acc));
    match child_step(p, "header"@) {
        Some((Some(name), _)) => {
            if name == "file_version"@ {
                let child = lemma_flat_text_read(q, "file_version"@);
                let (v, next) = flat_number(q, "file_version"@)->0;
                let after = lemma_header_children_read(next, HeaderParts { file_version: Some(v), ..acc });
                lemma_join_child(p, fillers, child, after, rest);
                fillers + child + after
            } else if name == "database_version"@ {
                let child = lemma_flat_text_read(q, "database_version"@);
                let (v, next) = flat_text(q, "database_version"@)->0;
                let after = lemma_header_children_read(next, HeaderParts { database_version: Some(v), ..acc });
                lemma_join_child(p, fillers, child, after, rest);
                fillers + child + after
            } else if name == "date_of_creation"@ {
                let child = lemma_flat_text_read(q, "date_of_creation"@);
                let (v, next) = flat_text(q, "date_of_creation"@)->0;
                let after = lemma_header_children_read(next, HeaderParts { date_of_creation: Some(v), ..acc });
                lemma_join_child(p, fillers, child, after, rest);
                fillers + child + after
            } else {
                Seq::empty()
            }
        },
        _ => lemma_join_close(p, fillers, rest),
    }
}

/// What was read of a `header` element, from its start on.
#[verifier::rlimit(50)]
proof fn lemma_header_read(p: Seq<XmlEvent>) -> (read: Seq<XmlEvent>)
    requires
        starts(p, "header"@),
        Dict2Header::parse(p) is Some,
    ensures
        p == read + left(Dict2Header::parse(p)),
        attributes_declared(read, None),
        read.len() > 0,
        read[0] == p[0],
{
    let opened = lemma_container_read(p, "header"@);
    let (empty, inside) = container_entered(p, "header"@)->0;
    let rest = left(Dict2Header::parse(p));
    let children = lemma_header_children_read(inside, empty_header());
    lemma_join(opened, children, Some("header"@));
    assert(entered(p, "header"@)->0 =~= (opened + children) + rest);
    lemma_started(p, "header"@, opened + children, rest);
    seq![p[0]] + (opened + children)
}

/// What was read of the children of a `character` element.
#[verifier::rlimit(50)]
proof fn lemma_character_children_read(p: Seq<XmlEvent>, acc: CharacterParts) -> (read: Seq<XmlEvent>)
    requires
        character_children(p, acc) is Some,
    ensures
        p == read + left(character_children(p, acc)),
        attributes_declared(read, None),
        read.len() > 0,
        begins_outside(read),
    decreases p.len(),
{
    let fillers = lemma_fillers(p);
    let q = skip_fillers(p);
    let rest = left(character_children(p, acc));
    match child_step(p, "character"@) {
        Some((Some(name), _)) => {
            if name == "codepoint"@ {
                let child = lemma_codepoint_read(q);
                let (v, next) = Codepoint::parse(q)->0;
                let after = lemma_character_children_read(next, CharacterParts { codepoint: Some(v), ..acc });
                lemma_join_child(p, fillers, child, after, rest);
                fillers + child + after
            } else if name == "radical"@ {
                let child = lemma_radical_read(q);
                let (v, next) = Radical::parse(q)->0;
                let after = lemma_character_children_read(next, CharacterParts { radical: Some(v), ..acc });
                lemma_join_child(p, fillers, child, after, rest);
                fillers + child + after
            } else if name == "misc"@ {
                let child = lemma_misc_read(q);
                let (v, next) = Misc::parse(q)->0;
                let after = lemma_character_children_read(next, CharacterParts { misc: Some(v), ..acc });
                lemma_join_child(p, fillers, child, after, rest);
                fillers + child + after
            } else if name == "dic_number"@ {
                let child = lemma_dic_number_read(q);
                let (v, next) = DicNumber::parse(q)->0;
                let after = lemma_character_children_read(next, CharacterParts { dic_number: Some(v), ..acc });
                lemma_join_child(p, fillers, child, after, rest);
                fillers + child + after
            } else if name == "query_code"@ {
                let child = lemma_query_code_read(q);
                let (v, next) = QueryCode::parse(q)->0;
                let after = lemma_character_children_read(next, CharacterParts { query_code: Some(v), ..acc });
                lemma_join_child(p, fillers, child, after, rest);
                fillers + child + after
            } else if name == "reading_meaning"@ {
                let child = lemma_reading_meaning_read(q);
                let (v, next) = ReadingMeaning::parse(q)->0;
                let after = lemma_character_children_read(next, CharacterParts { reading_meaning: Some(v), ..acc });
                lemma_join_child(p, fillers, child, after, rest);
                fillers + child + after
            } else if name == "literal"@ {
                let child = lemma_flat_text_read(q, "literal"@);
                let (v, next) = flat_text(q, "literal"@)->0;
                let after = lemma_character_children_read(next, CharacterParts { literal: Some(v), ..acc });
                lemma_join_child(p, fillers, child, after, rest);
                fillers + child + after
            } else {
                Seq::empty()
            }
        },
        _ => lemma_join_close(p, fillers, rest),
    }
}

/// What was read of a `character` element, from its start on.
#[verifier::rlimit(50)]
proof fn lemma_character_read(p: Seq<XmlEvent>) -> (read: Seq<XmlEvent>)
    requires
        starts(p, "character"@),
        Character::parse(p) is Some,
    ensures
        p == read + left(Character::parse(p)),
        attributes_declared(read, None),
        read.len() > 0,
        read[0] == p[0],
{
    let opened = lemma_container_read(p, "character"@);
    let (empty, inside) = container_entered(p, "character"@)->0;
    let rest = left(Character::parse(p));
    let children = lemma_character_children_read(inside, empty_character());
    lemma_join(opened, children, Some("character"@));
    assert(entered(p, "character"@)->0 =~= (opened + children) + rest);
    lemma_started(p, "character"@, opened + children, rest);
    seq![p[0]] + (opened + children)
}

/// What was read of the children of a `kanjidic2` element.
#[verifier::rlimit(50)]
proof fn lemma_dict_children_read(p: Seq<XmlEvent>, acc: DictParts) -> (read: Seq<XmlEvent>)
    requires
        dict_children(p, acc) is Some,
    ensures
        p == read + left(dict_children(p, acc)),
        attributes_declared(read, None),
        read.len() > 0,
        begins_outside(read),
    decreases p.len(),
{
    let fillers = lemma_fillers(p);
    let q = skip_fillers(p);
    let rest = left(dict_children(p, acc));
    match child_step(p, "kanjidic2"@) {
        Some((Some(name), _)) => {
            if name == "header"@ {
                let child = lemma_header_read(q);
                let (v, next) = Dict2Header::parse(q)->0;
                let after = lemma_dict_children_read(next, DictParts { header: Some(v), ..acc });
                lemma_join_child(p, fillers, child, after, rest);
                fillers + child + after
            } else if name == "character"@ {
                let child = lemma_character_read(q);
                let (v, next) = Character::parse(q)->0;
                let after = lemma_dict_children_read(next, DictParts { character: acc.character.push(v), ..acc });
                lemma_join_child(p, fillers, child, after, rest);
                fillers + child + after
            } else {
                Seq::empty()
            }
        },
        _ => lemma_join_close(p, fillers, rest),
    }
}

/// In a document that parses, every attribute that stands in the opening tag
/// of an element is one that the element declares, whichever the element and
/// at whatever depth it stands. So a document that holds one attribute more
/// on any element does not parse: the attribute is never passed over.
///
/// `read` is what was read of the document after the start of its root
/// element: the rest of the root's opening tag and all that the root holds.
#[verifier::rlimit(50)]
pub proof fn lemma_every_attribute_is_declared(text: Seq<char>) -> (read: Seq<XmlEvent>)
    requires
        parse_document(text) is Some,
    ensures
        entered(xml_events(text), "kanjidic2"@)->0 == read + left(Dict2::parse(xml_events(text))),
        attributes_declared(read, Some("kanjidic2"@)),
{
    let p = xml_events(text);
    let opened = lemma_container_read(p, "kanjidic2"@);
    let (empty, inside) = container_entered(p, "kanjidic2"@)->0;
    let rest = left(Dict2::parse(p));
    let children = lemma_dict_children_read(inside, empty_dict());
    lemma_join(opened, children, Some("kanjidic2"@));
    assert(entered(p, "kanjidic2"@)->0 =~= (opened + children) + rest);
    opened + children
}

} // verus!
