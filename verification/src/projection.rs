//! The character sets derived from a dictionary: the characters of one
//! category, as a sorted list.

use crate::document::{texts, Character, CharacterView, Dict2, Dict2View, MiscView};
use crate::lexical::{char_order, lemma_lex_total, lex_le, lex_order, sort_texts, sorted_texts};
use crate::literal::{
    all_single_char, chars_of, first_offender, vec_string_to_vec_char, views_of, StringToCharError,
};
use vstd::prelude::*;
use vstd::relations::sorted_by;

verus! {

/// A category of characters that a dictionary can be asked for.
#[derive(Clone, Copy, Debug, PartialEq, Eq, Structural)]
pub enum Category {
    /// The characters that a level of the proficiency test asks for.
    Jlpt,
    /// The characters in standard use.
    Joyo,
    /// The characters taught in compulsory education.
    Kyoiku,
}

/// Whether a character with the facts `misc` belongs to `category`.
///
/// A character is in the proficiency-test set where it has a test level, in
/// the standard-use set where its grade is 1 to 5 or 8, and in the
/// compulsory-education set where its grade is 1 to 5.
pub open spec fn in_category(category: Category, misc: MiscView) -> bool {
    match category {
        Category::Jlpt => misc.jlpt is Some,
        Category::Joyo => misc.grade matches Some(g) && (1 <= g <= 5 || g == 8),
        Category::Kyoiku => misc.grade matches Some(g) && 1 <= g <= 5,
    }
}

/// The literals of those among the first `n` characters that belong to
/// `category`, in document order.
pub open spec fn selected(characters: Seq<CharacterView>, category: Category, n: int) -> Seq<
    Seq<char>,
>
    decreases n,
{
    if n <= 0 {
        Seq::empty()
    } else if in_category(category, characters[n - 1].misc) {
        selected(characters, category, n - 1).push(characters[n - 1].literal)
    } else {
        selected(characters, category, n - 1)
    }
}

/// The literals of the characters of `dict` that belong to `category`.
pub open spec fn literals(dict: Dict2View, category: Category) -> Seq<Seq<char>> {
    selected(dict.character, category, dict.character.len() as int)
}

/// The characters of `dict` in `category`: their literals, sorted
/// lexicographically, each turned into the one character it holds. Where a
/// literal does not hold exactly one character, the first such literal in
/// sorted order is the error.
pub open spec fn projection(dict: Dict2View, category: Category) -> Result<Seq<char>, Seq<char>> {
    chars_of(sorted_texts(literals(dict, category)))
}

impl Dict2 {
    /// Decides whether a character belongs to `category`.
    fn belongs(c: &Character, category: Category) -> (r: bool)
        ensures
            r == in_category(category, c@.misc),
    {
        match category {
            Category::Jlpt => c.misc.jlpt.is_some(),
            Category::Joyo => match c.misc.grade {
                Some(g) => (1 <= g && g <= 5) || g == 8,
                None => false,
            },
            Category::Kyoiku => match c.misc.grade {
                Some(g) => 1 <= g && g <= 5,
                None => false,
            },
        }
    }

    /// Lists the characters of `category`, sorted by code point.
    ///
    /// Every character of the category is listed, as often as the dictionary
    /// holds it. The query fails as a whole where one of their literals does
    /// not hold exactly one character.
    pub fn get_all(&self, category: Category) -> (r: Result<Vec<char>, StringToCharError>)
        ensures
            match r {
                Ok(chars) => projection(self@, category) == Ok::<Seq<char>, Seq<char>>(chars@),
                Err(e) => projection(self@, category) == Err::<Seq<char>, Seq<char>>(e@),
            },
    {
        let mut chosen: Vec<String> = Vec::new();
        let mut i: usize = 0;
        assert(texts(chosen@) =~= selected(self@.character, category, 0));
        while i < self.character.len()
            invariant
                i <= self.character.len(),
                texts(chosen@) == selected(self@.character, category, i as int),
            decreases self.character.len() - i,
        {
            let c = &self.character[i];
            assert(self@.character[i as int] == c@);
            if Self::belongs(c, category) {
                let ghost before = texts(chosen@);
                chosen.push(c.literal.clone());
                assert(texts(chosen@) =~= before.push(c.literal@));
            }
            i += 1;
        }
        sort_texts(&mut chosen);
        assert(views_of(chosen@) =~= texts(chosen@));
        vec_string_to_vec_char(chosen)
    }

    /// Lists the characters that have a proficiency-test level.
    pub fn get_all_jlpt(&self) -> (r: Result<Vec<char>, StringToCharError>)
        ensures
            match r {
                Ok(chars) => projection(self@, Category::Jlpt) == Ok::<Seq<char>, Seq<char>>(
                    chars@,
                ),
                Err(e) => projection(self@, Category::Jlpt) == Err::<Seq<char>, Seq<char>>(e@),
            },
    {
        self.get_all(Category::Jlpt)
    }

    /// Lists the characters in standard use: those of grade 1 to 5 or 8.
    pub fn get_all_joyo(&self) -> (r: Result<Vec<char>, StringToCharError>)
        ensures
            match r {
                Ok(chars) => projection(self@, Category::Joyo) == Ok::<Seq<char>, Seq<char>>(
                    chars@,
                ),
                Err(e) => projection(self@, Category::Joyo) == Err::<Seq<char>, Seq<char>>(e@),
            },
    {
        self.get_all(Category::Joyo)
    }

    /// Lists the characters of compulsory education: those of grade 1 to 5.
    pub fn get_all_kyoiku(&self) -> (r: Result<Vec<char>, StringToCharError>)
        ensures
            match r {
                Ok(chars) => projection(self@, Category::Kyoiku) == Ok::<Seq<char>, Seq<char>>(
                    chars@,
                ),
                Err(e) => projection(self@, Category::Kyoiku) == Err::<Seq<char>, Seq<char>>(e@),
            },
    {
        self.get_all(Category::Kyoiku)
    }
}

/// The standard-use set holds exactly the grades 1 to 5 and 8, the
/// compulsory-education set exactly the grades 1 to 5. So the second lies in
/// the first, grade 8 is what the first holds beyond it, and the grades 6
/// and 7 are in neither.
pub proof fn lemma_category_grades(misc: MiscView)
    ensures
        in_category(Category::Joyo, misc) <==> (misc.grade == Some(1u64) || misc.grade == Some(2u64)
            || misc.grade == Some(3u64) || misc.grade == Some(4u64) || misc.grade == Some(5u64)
            || misc.grade == Some(8u64)),
        in_category(Category::Kyoiku, misc) <==> (misc.grade == Some(1u64) || misc.grade == Some(
            2u64,
        ) || misc.grade == Some(3u64) || misc.grade == Some(4u64) || misc.grade == Some(5u64)),
        in_category(Category::Kyoiku, misc) ==> in_category(Category::Joyo, misc),
        in_category(Category::Joyo, misc) && !in_category(Category::Kyoiku, misc) <==> misc.grade
            == Some(8u64),
        misc.grade == Some(6u64) || misc.grade == Some(7u64) ==> !in_category(
            Category::Joyo,
            misc,
        ) && !in_category(Category::Kyoiku, misc),
{
}

/// Whether a character belongs to a category depends on nothing but its
/// grade and its test level.
pub proof fn lemma_category_reads_misc_only(category: Category, a: MiscView, b: MiscView)
    requires
        a.grade == b.grade,
        a.jlpt == b.jlpt,
    ensures
        in_category(category, a) == in_category(category, b),
{
}

/// A query succeeds exactly where every literal of the category holds one
/// character: a literal that holds none or several fails the query, it is
/// not passed over. Where the query succeeds it lists one character for each
/// character of the category, in ascending order of code point, and each
/// listed character is the literal of a character of the category.
pub proof fn lemma_projection_literals(dict: Dict2View, category: Category)
    ensures
        projection(dict, category) is Ok <==> all_single_char(
            literals(dict, category),
            literals(dict, category).len() as int,
        ),
        projection(dict, category) matches Ok(chars) ==> {
            &&& chars.len() == literals(dict, category).len()
            &&& sorted_by(chars, char_order())
            &&& forall|i: int|
                0 <= i < chars.len() ==> literals(dict, category).contains(
                    seq![#[trigger] chars[i]],
                )
            &&& forall|j: int|
                0 <= j < literals(dict, category).len() ==> chars.contains(
                    (#[trigger] literals(dict, category)[j])[0],
                )
        },
        projection(dict, category) matches Err(bad) ==> bad.len() != 1 && literals(
            dict,
            category,
        ).contains(bad),
{
    let lits = literals(dict, category);
    let s = sorted_texts(lits);
    lemma_lex_total();
    lits.lemma_sort_by_ensures(lex_order());
    lits.to_multiset_ensures();
    s.to_multiset_ensures();
    assert(s.len() == lits.len());
    if all_single_char(lits, lits.len() as int) {
        assert forall|i: int| 0 <= i < s.len() implies (#[trigger] s[i]).len() == 1 by {
            assert(s.contains(s[i]));
            assert(lits.contains(s[i]));
        }
    }
    if all_single_char(s, s.len() as int) {
        assert forall|j: int| 0 <= j < lits.len() implies (#[trigger] lits[j]).len() == 1 by {
            assert(lits.contains(lits[j]));
            assert(lits.to_multiset().count(lits[j]) > 0);
            assert(s.to_multiset().count(lits[j]) > 0);
            assert(s.contains(lits[j]));
        }
        let chars = Seq::new(s.len(), |i: int| s[i][0]);
        assert(projection(dict, category) == Ok::<Seq<char>, Seq<char>>(chars));
        assert forall|i: int, j: int| 0 <= i < j < chars.len() implies (#[trigger] chars[i] as int)
            <= (#[trigger] chars[j] as int) by {
            assert(lex_order()(s[i], s[j]));
            assert(lex_le(s[i], s[j]));
            assert(s[i].len() == 1 && s[j].len() == 1);
        }
        assert(sorted_by(chars, char_order()));
        assert forall|i: int| 0 <= i < chars.len() implies lits.contains(seq![#[trigger] chars[i]])
        by {
            assert(s[i] =~= seq![chars[i]]);
            assert(s.contains(s[i]));
        }
        assert forall|j: int| 0 <= j < lits.len() implies chars.contains(
            (#[trigger] lits[j])[0],
        ) by {
            assert(lits.contains(lits[j]));
            assert(lits.to_multiset().count(lits[j]) > 0);
            assert(s.to_multiset().count(lits[j]) > 0);
            assert(s.contains(lits[j]));
            let k = choose|k: int| 0 <= k < s.len() && s[k] == lits[j];
            assert(chars[k] == lits[j][0]);
        }
    } else {
        crate::literal::lemma_offender_exists(s);
        let k = first_offender(s);
        assert(s.contains(s[k]));
    }
}

} // verus!
