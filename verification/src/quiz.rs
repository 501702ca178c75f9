//! The quiz: which characters of a text are drilled, and how answering moves
//! through them.

use crate::han::{is_chinese_character, is_han_code_point};
use vstd::prelude::*;
use vstd::std_specs::iter::IteratorSpec;

verus! {

/// The Han characters of `text`, in order.
pub open spec fn han_of(text: Seq<char>) -> Seq<char>
    decreases text.len(),
{
    if text.len() == 0 {
        Seq::empty()
    } else if is_han_code_point(text[0] as int) {
        seq![text[0]] + han_of(text.drop_first())
    } else {
        han_of(text.drop_first())
    }
}

/// Picks the Han characters out of `text`, in order.
pub fn get_all_chinese_characters(text: &str) -> (chars: Vec<char>)
    ensures
        chars@ == han_of(text@),
{
    broadcast use vstd::string::group_string_axioms;

    let mut it = text.chars();
    let mut chars: Vec<char> = Vec::new();
    assert(chars@ + han_of(it.remaining()) =~= han_of(text@));
    loop
        invariant
            it.obeys_prophetic_iter_laws(),
            it.decrease() is Some,
            han_of(text@) == chars@ + han_of(it.remaining()),
        decreases it.decrease()->0,
    {
        let ghost rest = it.remaining();
        let ghost before = chars@;
        match it.next() {
            Some(c) => {
                if is_chinese_character(&c) {
                    chars.push(c);
                }
                assert(chars@ + han_of(it.remaining()) =~= before + han_of(rest));
            },
            None => {
                assert(chars@ + han_of(rest) =~= chars@);
                return chars;
            },
        }
    }
}

/// Decides whether `text` holds a Han character.
pub fn chinese_character_exists(text: &str) -> (r: bool)
    ensures
        r == (han_of(text@).len() > 0),
{
    get_all_chinese_characters(text).len() > 0
}

/// `chars` without the repeats that directly follow a character: of each run
/// of equal characters the first is kept.
pub open spec fn deduped(chars: Seq<char>) -> Seq<char>
    decreases chars.len(),
{
    if chars.len() <= 1 {
        chars
    } else if chars[chars.len() - 2] == chars.last() {
        deduped(chars.drop_last())
    } else {
        deduped(chars.drop_last()).push(chars.last())
    }
}

/// What is left of a sequence that is not empty ends as the sequence does.
proof fn lemma_deduped_last(chars: Seq<char>)
    requires
        chars.len() > 0,
    ensures
        deduped(chars).len() > 0,
        deduped(chars).last() == chars.last(),
    decreases chars.len(),
{
    if chars.len() > 1 && chars[chars.len() - 2] == chars.last() {
        lemma_deduped_last(chars.drop_last());
    }
}

/// Removes the repeats that directly follow a character.
pub fn dedup(chars: &Vec<char>) -> (kept: Vec<char>)
    ensures
        kept@ == deduped(chars@),
{
    let mut kept: Vec<char> = Vec::new();
    let mut i: usize = 0;
    assert(chars@.take(0) =~= Seq::empty());
    while i < chars.len()
        invariant
            i <= chars.len(),
            kept@ == deduped(chars@.take(i as int)),
        decreases chars.len() - i,
    {
        let ghost before = chars@.take(i as int);
        let ghost now = chars@.take(i + 1);
        assert(now.drop_last() =~= before);
        proof {
            if i > 0 {
                lemma_deduped_last(before);
            }
        }
        let c = chars[i];
        if kept.len() == 0 || kept[kept.len() - 1] != c {
            kept.push(c);
        }
        i += 1;
    }
    assert(chars@.take(i as int) =~= chars@);
    kept
}

/// Calls `rand::seq::SliceRandom::shuffle` with the generator of the current
/// thread: afterwards the vector holds the same characters in some order.
#[verifier::external_body]
fn shuffle(chars: &mut Vec<char>)
    ensures
        final(chars)@.to_multiset() == old(chars)@.to_multiset(),
{
    rand::seq::SliceRandom::shuffle(chars.as_mut_slice(), &mut rand::rng())
}

/// Whether a character was recalled when it was shown.
#[derive(Debug, Clone, Copy, PartialEq, Eq, Structural)]
pub enum Recalled {
    Unknown,
    Known,
}

/// One character of a quiz with the answer given for it.
#[derive(Debug, Clone, Copy, PartialEq, Eq, Structural)]
pub struct Test {
    pub character: char,
    pub recalled: Recalled,
}

/// The characters of `tests`, in order.
pub open spec fn chars_of_tests(tests: Seq<Test>) -> Seq<char> {
    tests.map_values(|t: Test| t.character)
}

/// Reads the character at the place `i`.
fn char_at(chars: &Vec<char>, i: usize) -> (c: char)
    requires
        i < chars@.len(),
    ensures
        c == chars@[i as int],
{
    chars[i]
}

/// Makes a new quiz from the text that the user entered: its Han characters,
/// freed of directly repeated ones, in a random order, none of them answered.
pub fn create_test_from_raw_text(text: &str) -> (tests: Vec<Test>)
    ensures
        chars_of_tests(tests@).to_multiset() == deduped(han_of(text@)).to_multiset(),
        forall|i: int|
            0 <= i < tests@.len() ==> (#[trigger] tests@[i]).recalled == Recalled::Unknown,
{
    let all = get_all_chinese_characters(text);
    let mut chars = dedup(&all);
    shuffle(&mut chars);
    let mut quiz: Vec<Test> = Vec::new();
    let mut i: usize = 0;
    while i < chars.len()
        invariant
            i <= chars.len(),
            quiz@.len() == i,
            chars_of_tests(quiz@) == chars@.take(i as int),
            forall|j: int| 0 <= j < quiz@.len() ==> (#[trigger] quiz@[j]).recalled
                == Recalled::Unknown,
        decreases chars.len() - i,
    {
        let ghost before = chars_of_tests(quiz@);
        let c = char_at(&chars, i);
        quiz.push(Test { character: c, recalled: Recalled::Unknown });
        assert(chars_of_tests(quiz@) =~= before.push(c));
        assert(chars@.take(i + 1) =~= chars@.take(i as int).push(c));
        i += 1;
    }
    assert(chars@.take(i as int) =~= chars@);
    quiz
}

/// The characters of `tests` that were recalled, in order.
pub open spec fn known_of(tests: Seq<Test>) -> Seq<char>
    decreases tests.len(),
{
    if tests.len() == 0 {
        Seq::empty()
    } else if tests.last().recalled == Recalled::Known {
        known_of(tests.drop_last()).push(tests.last().character)
    } else {
        known_of(tests.drop_last())
    }
}

/// Lists the characters of `tests` that were recalled.
pub fn known_chars(tests: &Vec<Test>) -> (known: Vec<char>)
    ensures
        known@ == known_of(tests@),
{
    let mut known: Vec<char> = Vec::new();
    let mut i: usize = 0;
    assert(tests@.take(0) =~= Seq::empty());
    while i < tests.len()
        invariant
            i <= tests.len(),
            known@ == known_of(tests@.take(i as int)),
        decreases tests.len() - i,
    {
        assert(tests@.take(i + 1).drop_last() =~= tests@.take(i as int));
        let t = tests[i];
        match t.recalled {
            Recalled::Known => known.push(t.character),
            Recalled::Unknown => {},
        }
        i += 1;
    }
    assert(tests@.take(i as int) =~= tests@);
    known
}

/// What the quiz is told.
#[derive(Debug)]
pub enum QuizMessage {
    /// A quiz begins with these characters.
    StartTest(Vec<Test>),
    /// The quiz is over; these characters were recalled.
    Finish(Vec<char>),
    /// The character shown was recalled, or not.
    Answer(Recalled),
    /// The character before the one shown is shown again.
    GoBack,
}

/// What is to be done once the quiz has taken a message in.
#[derive(Debug, PartialEq, Eq)]
pub enum QuizAction {
    /// Nothing.
    Nothing,
    /// The place in the quiz is stored.
    Store(usize),
    /// The place in the quiz is stored, then the quiz is told that it is
    /// over, with these characters recalled.
    StoreAndFinish(usize, Vec<char>),
    /// The quiz is told that it is over, with these characters recalled.
    Finish(Vec<char>),
    /// The recalled characters are handed on as the result of the quiz.
    Output(Vec<char>),
}

/// The state of a quiz: its characters and the place of the one shown.
#[derive(Debug)]
pub struct Quiz {
    pub tests: Vec<Test>,
    pub current_test: usize,
}

/// `tests` with the answer `recalled` given at the place `at`.
pub open spec fn answered(tests: Seq<Test>, at: int, recalled: Recalled) -> Seq<Test> {
    tests.update(at, Test { character: tests[at].character, recalled })
}

impl Quiz {
    /// A quiz without characters that resumes at the stored place.
    pub fn new(progress: usize) -> (quiz: Quiz)
        ensures
            quiz.tests@ == Seq::<Test>::empty(),
            quiz.current_test == progress,
    {
        Quiz { tests: Vec::new(), current_test: progress }
    }

    /// Takes a message in and says what is to be done.
    ///
    /// A start replaces the characters and keeps the place. An answer is
    /// recorded for the character shown and moves on to the next; after the
    /// last character, and whenever no character is shown, the quiz is told
    /// that it is over. Going back moves to the character before. The end
    /// of the quiz resets the place and hands the recalled characters on.
    pub fn update(&mut self, message: QuizMessage) -> (action: QuizAction)
        requires
            message is GoBack ==> old(self).current_test > 0,
        ensures
            match message {
                QuizMessage::StartTest(tests) => {
                    &&& final(self).tests@ == tests@
                    &&& final(self).current_test == old(self).current_test
                    &&& action == QuizAction::Nothing
                },
                QuizMessage::Finish(known) => {
                    &&& final(self).tests@ == old(self).tests@
                    &&& final(self).current_test == 0
                    &&& action matches QuizAction::Output(out) && out@ == known@
                },
                QuizMessage::GoBack => {
                    &&& final(self).tests@ == old(self).tests@
                    &&& final(self).current_test == old(self).current_test - 1
                    &&& action == QuizAction::Store(final(self).current_test)
                },
                QuizMessage::Answer(recalled) => if old(self).current_test < old(self).tests@.len() {
                    &&& final(self).tests@ == answered(
                        old(self).tests@,
                        old(self).current_test as int,
                        recalled,
                    )
                    &&& final(self).current_test == old(self).current_test + 1
                    &&& if final(self).current_test == final(self).tests@.len() {
                        action matches QuizAction::StoreAndFinish(at, known) && at
                            == final(self).current_test && known@ == known_of(final(self).tests@)
                    } else {
                        action == QuizAction::Store(final(self).current_test)
                    }
                } else {
                    &&& final(self).tests@ == old(self).tests@
                    &&& final(self).current_test == old(self).current_test
                    &&& action matches QuizAction::Finish(known) && known@ == known_of(
                        final(self).tests@,
                    )
                },
            },
    {
        match message {
            QuizMessage::StartTest(tests) => {
                self.tests = tests;
                QuizAction::Nothing
            },
            QuizMessage::Finish(known_chars) => {
                self.current_test = 0;
                QuizAction::Output(known_chars)
            },
            QuizMessage::GoBack => {
                self.current_test = self.current_test - 1;
                QuizAction::Store(self.current_test)
            },
            QuizMessage::Answer(recalled) => {
                if self.current_test < self.tests.len() {
                    let shown = self.tests[self.current_test];
                    let answered = Test { character: shown.character, recalled };
                    self.tests.set(self.current_test, answered);
                    self.current_test = self.current_test + 1;
                    if self.current_test == self.tests.len() {
                        QuizAction::StoreAndFinish(self.current_test, known_chars(&self.tests))
                    } else {
                        QuizAction::Store(self.current_test)
                    }
                } else {
                    QuizAction::Finish(known_chars(&self.tests))
                }
            },
        }
    }
}

} // verus!
