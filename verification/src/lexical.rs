//! The order in which literals are listed: lexicographic by code point.

use crate::document::texts;
use vstd::prelude::*;
use vstd::relations::{sorted_by, total_ordering};

verus! {

/// Whether `a` comes no later than `b` in lexicographic order, characters
/// ordered by code point.
pub open spec fn lex_le(a: Seq<char>, b: Seq<char>) -> bool
    decreases a.len(),
{
    if a.len() == 0 {
        true
    } else if b.len() == 0 {
        false
    } else if a[0] != b[0] {
        (a[0] as int) < (b[0] as int)
    } else {
        lex_le(a.skip(1), b.skip(1))
    }
}

/// The lexicographic order as a relation.
pub open spec fn lex_order() -> spec_fn(Seq<char>, Seq<char>) -> bool {
    |a: Seq<char>, b: Seq<char>| lex_le(a, b)
}

/// The order of characters by code point, as a relation.
pub open spec fn char_order() -> spec_fn(char, char) -> bool {
    |a: char, b: char| (a as int) <= (b as int)
}

proof fn lemma_lex_reflexive(a: Seq<char>)
    ensures
        lex_le(a, a),
    decreases a.len(),
{
    if a.len() > 0 {
        lemma_lex_reflexive(a.skip(1));
    }
}

proof fn lemma_lex_antisymmetric(a: Seq<char>, b: Seq<char>)
    requires
        lex_le(a, b),
        lex_le(b, a),
    ensures
        a == b,
    decreases a.len(),
{
    if a.len() == 0 {
        assert(a =~= b);
    } else {
        lemma_lex_antisymmetric(a.skip(1), b.skip(1));
        assert(a =~= seq![a[0]] + a.skip(1));
        assert(b =~= seq![b[0]] + b.skip(1));
    }
}

proof fn lemma_lex_transitive(a: Seq<char>, b: Seq<char>, c: Seq<char>)
    requires
        lex_le(a, b),
        lex_le(b, c),
    ensures
        lex_le(a, c),
    decreases a.len(),
{
    if a.len() > 0 && a[0] == b[0] && b[0] == c[0] {
        lemma_lex_transitive(a.skip(1), b.skip(1), c.skip(1));
    }
}

proof fn lemma_lex_connected(a: Seq<char>, b: Seq<char>)
    ensures
        lex_le(a, b) || lex_le(b, a),
    decreases a.len(),
{
    if a.len() > 0 && b.len() > 0 && a[0] == b[0] {
        lemma_lex_connected(a.skip(1), b.skip(1));
    }
}

/// The lexicographic order is a total order.
pub proof fn lemma_lex_total()
    ensures
        total_ordering(lex_order()),
{
    let r = lex_order();
    assert forall|x: Seq<char>| #[trigger] r(x, x) by {
        lemma_lex_reflexive(x);
    }
    assert forall|x: Seq<char>, y: Seq<char>| #[trigger] r(x, y) && #[trigger] r(y, x) implies x
        == y by {
        lemma_lex_antisymmetric(x, y);
    }
    assert forall|x: Seq<char>, y: Seq<char>, z: Seq<char>| #[trigger]
        r(x, y) && #[trigger] r(y, z) implies r(x, z) by {
        lemma_lex_transitive(x, y, z);
    }
    assert forall|x: Seq<char>, y: Seq<char>| #[trigger] r(x, y) || #[trigger] r(y, x) by {
        lemma_lex_connected(x, y);
    }
}

/// `strings` in lexicographic order.
pub open spec fn sorted_texts(strings: Seq<Seq<char>>) -> Seq<Seq<char>> {
    strings.sort_by(lex_order())
}

/// Calls `sort` of std on a vector of strings: afterwards it holds the same
/// strings, in ascending order. Strings order lexicographically by code point.
#[verifier::external_body]
fn sort_strings(v: &mut Vec<String>)
    ensures
        texts(final(v)@).to_multiset() == texts(old(v)@).to_multiset(),
        sorted_by(texts(final(v)@), lex_order()),
{
    v.sort()
}

/// Calls `sort_unstable` of std on a slice of characters: afterwards it holds
/// the same characters, in ascending order of code point.
#[verifier::external_body]
fn sort_chars(chars: &mut [char])
    ensures
        final(chars)@.to_multiset() == old(chars)@.to_multiset(),
        sorted_by(final(chars)@, char_order()),
{
    chars.sort_unstable()
}

/// Sorts strings into lexicographic order.
pub fn sort_texts(v: &mut Vec<String>)
    ensures
        texts(final(v)@) == sorted_texts(texts(old(v)@)),
{
    let ghost before = texts(v@);
    sort_strings(v);
    proof {
        lemma_lex_total();
        before.lemma_sort_by_ensures(lex_order());
        vstd::seq_lib::lemma_sorted_unique(texts(v@), sorted_texts(before), lex_order());
    }
}

/// Sorts characters into ascending order of code point. The slice holds the
/// same characters afterwards, each as often as before.
pub fn sort_kanji(chars: &mut [char])
    ensures
        final(chars)@.to_multiset() == old(chars)@.to_multiset(),
        sorted_by(final(chars)@, char_order()),
        final(chars)@.len() == old(chars)@.len(),
{
    let ghost before = chars@;
    sort_chars(chars);
    proof {
        before.to_multiset_ensures();
        chars@.to_multiset_ensures();
    }
}

} // verus!
