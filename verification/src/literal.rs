//! Conversion of one-character strings to characters.

use vstd::prelude::*;
use vstd::string::*;

verus! {

/// The error of a string that does not hold exactly one character. It
/// carries the offending string.
#[derive(Debug)]
pub struct StringToCharError(pub String);

impl View for StringToCharError {
    type V = Seq<char>;

    open spec fn view(&self) -> Seq<char> {
        self.0@
    }
}

impl StringToCharError {
    /// The text that describes the error to a person.
    pub open spec fn spec_message(&self) -> Seq<char> {
        "String '"@ + self.0@ + "' does not contain exactly one character"@
    }

    /// Renders the error, naming the offending string.
    pub fn message(&self) -> (r: String)
        ensures
            r@ == self.spec_message(),
    {
        let head = String::from_str("String '");
        head.concat(self.0.as_str()).concat("' does not contain exactly one character")
    }
}

/// Whether every string among the first `n` of `strings` holds exactly one
/// character.
pub open spec fn all_single_char(strings: Seq<Seq<char>>, n: int) -> bool {
    forall|i: int| 0 <= i < n ==> (#[trigger] strings[i]).len() == 1
}

/// The strings of `v`, each as its sequence of characters.
pub open spec fn views_of(v: Seq<String>) -> Seq<Seq<char>> {
    Seq::new(v.len(), |i: int| v[i]@)
}

/// What converting `strings` yields: the character of each string, in order,
/// where every string holds exactly one; otherwise the first string that does
/// not.
pub open spec fn chars_of(strings: Seq<Seq<char>>) -> Result<Seq<char>, Seq<char>> {
    if all_single_char(strings, strings.len() as int) {
        Ok(Seq::new(strings.len(), |i: int| strings[i][0]))
    } else {
        let k = first_offender(strings);
        Err(strings[k])
    }
}

/// The least index of a string that does not hold exactly one character.
pub open spec fn first_offender(strings: Seq<Seq<char>>) -> int {
    choose|k: int|
        0 <= k < strings.len() && strings[k].len() != 1 && all_single_char(strings, k)
}

/// Converts each string to the one character it holds.
///
/// Fails on the first string, in order, that is empty or holds more than one
/// character, and hands that string back in the error.
pub fn vec_string_to_vec_char(one_char_strings: Vec<String>) -> (r: Result<
    Vec<char>,
    StringToCharError,
>)
    ensures
        match r {
            Ok(chars) => chars_of(views_of(one_char_strings@)) == Ok::<Seq<char>, Seq<char>>(
                chars@,
            ),
            Err(e) => chars_of(views_of(one_char_strings@)) == Err::<Seq<char>, Seq<char>>(e@),
        },
{
    let ghost strings = views_of(one_char_strings@);
    let mut chars: Vec<char> = Vec::new();
    let mut i: usize = 0;
    while i < one_char_strings.len()
        invariant
            i <= one_char_strings.len(),
            strings == views_of(one_char_strings@),
            all_single_char(strings, i as int),
            chars@.len() == i,
            forall|j: int| 0 <= j < i ==> chars@[j] == strings[j][0],
        decreases one_char_strings.len() - i,
    {
        let s = one_char_strings[i].as_str();
        assert(s@ == strings[i as int]);
        if s.unicode_len() == 1 {
            chars.push(s.get_char(0));
        } else {
            proof {
                lemma_first_offender(strings, i as int);
            }
            return Err(StringToCharError(one_char_strings[i].clone()));
        }
        i += 1;
    }
    assert(chars@ =~= Seq::new(strings.len(), |i: int| strings[i][0]));
    Ok(chars)
}

/// The first offender is the index `k` whenever `k` offends and nothing
/// before it does.
pub proof fn lemma_first_offender(strings: Seq<Seq<char>>, k: int)
    requires
        0 <= k < strings.len(),
        strings[k].len() != 1,
        all_single_char(strings, k),
    ensures
        !all_single_char(strings, strings.len() as int),
        first_offender(strings) == k,
{
    let f = first_offender(strings);
    assert(0 <= f < strings.len() && strings[f].len() != 1 && all_single_char(strings, f));
    if f < k {
        assert(strings[f].len() == 1);
    } else if k < f {
        assert(strings[k].len() == 1);
    }
}

/// Among the first `n` strings, one of which offends, there is a first that
/// does.
proof fn lemma_least_offender(strings: Seq<Seq<char>>, n: int)
    requires
        0 <= n <= strings.len(),
        !all_single_char(strings, n),
    ensures
        exists|k: int|
            0 <= k < strings.len() && strings[k].len() != 1 && all_single_char(strings, k),
    decreases n,
{
    if n > 0 {
        if all_single_char(strings, n - 1) {
            assert(strings[n - 1].len() != 1);
            assert(0 <= n - 1 < strings.len() && strings[n - 1].len() != 1 && all_single_char(
                strings,
                n - 1,
            ));
        } else {
            lemma_least_offender(strings, n - 1);
        }
    }
}

/// Where not every string holds exactly one character, the first offender is
/// one that does not, and every string before it does.
pub proof fn lemma_offender_exists(strings: Seq<Seq<char>>)
    requires
        !all_single_char(strings, strings.len() as int),
    ensures
        0 <= first_offender(strings) < strings.len(),
        strings[first_offender(strings)].len() != 1,
        all_single_char(strings, first_offender(strings)),
{
    lemma_least_offender(strings, strings.len() as int);
}

} // verus!
