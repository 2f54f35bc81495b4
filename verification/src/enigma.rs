use rand::seq::SliceRandom;
use rand::Rng;
use vstd::prelude::*;

use crate::story::{UserSelection, UserSelectionView};
use crate::text::{
    decimal, lemma_parse_decimal, string_of, usize_to_string, chars_of, concat_all, contains_chars, contains_seq, join_chars, parse_usize,
    parse_usize_spec, str_eq, trim, trim_chars,
};

verus! {

/// What the player has to answer to open the way after a story.
#[derive(Debug, PartialEq, Eq)]
pub enum EnigmaKind {
    /// A multiple choice question: the question, a wrong answer and the
    /// right answer.
    Mcq(Vec<String>),
    /// A calculation on named numbers (name, decimal value).
    Numbers(Vec<(String, String)>),
}

/// An enigma and the story message it belongs to.
#[derive(Debug, PartialEq, Eq)]
pub struct Enigma {
    pub associated_story: String,
    pub kind: EnigmaKind,
}

/// The enigmas of the current game.
#[derive(Debug, Default)]
pub struct Enigmas {
    pub enigmas: Vec<Enigma>,
}

/// The answer of an enigma, as the event that tells the game of it.
#[derive(Debug, PartialEq, Eq)]
pub enum EnigmaResult {
    Correct(String),
    Incorrect(String),
}

/// What an enigma kind is, as mathematical values.
pub enum EnigmaKindView {
    Mcq(Seq<Seq<char>>),
    Numbers(Seq<(Seq<char>, Seq<char>)>),
}

/// What an enigma is, as mathematical values.
pub struct EnigmaView {
    pub story: Seq<char>,
    pub kind: EnigmaKindView,
}

/// The named numbers as pairs of character sequences.
pub open spec fn pairs_view(v: Seq<(String, String)>) -> Seq<(Seq<char>, Seq<char>)> {
    Seq::new(v.len(), |i: int| (v[i].0@, v[i].1@))
}

/// The enigma kind as mathematical values.
pub open spec fn kind_view(k: EnigmaKind) -> EnigmaKindView {
    match k {
        EnigmaKind::Mcq(v) => EnigmaKindView::Mcq(v.deep_view()),
        EnigmaKind::Numbers(v) => EnigmaKindView::Numbers(pairs_view(v@)),
    }
}

/// The enigma as mathematical values.
pub open spec fn enigma_view(e: Enigma) -> EnigmaView {
    EnigmaView { story: e.associated_story@, kind: kind_view(e.kind) }
}

/// The enigmas as mathematical values.
pub open spec fn enigmas_view(es: Seq<Enigma>) -> Seq<EnigmaView> {
    Seq::new(es.len(), |i: int| enigma_view(es[i]))
}

/// The last enigma of the list that belongs to `story`.
pub open spec fn last_with_story(es: Seq<EnigmaView>, story: Seq<char>) -> Option<EnigmaView>
    decreases es.len(),
{
    if es.len() == 0 {
        None
    } else if es.last().story == story {
        Some(es.last())
    } else {
        last_with_story(es.drop_last(), story)
    }
}

/// The value of the first number named `key`.
pub open spec fn lookup(nums: Seq<(Seq<char>, Seq<char>)>, key: Seq<char>) -> Option<Seq<char>>
    decreases nums.len(),
{
    if nums.len() == 0 {
        None
    } else if nums[0].0 == key {
        Some(nums[0].1)
    } else {
        lookup(nums.drop_first(), key)
    }
}

/// The named numbers of the last enigma of `story`, when it is a
/// calculation.
pub open spec fn numbers_for(es: Seq<EnigmaView>, story: Seq<char>) -> Option<Seq<(Seq<char>, Seq<char>)>> {
    match last_with_story(es, story) {
        Some(e) => match e.kind {
            EnigmaKindView::Numbers(n) => Some(n),
            _ => None,
        },
        None => None,
    }
}

/// The choices of the last enigma of `story`, when it is a multiple choice
/// question.
pub open spec fn mcq_for(es: Seq<EnigmaView>, story: Seq<char>) -> Option<Seq<Seq<char>>> {
    match last_with_story(es, story) {
        Some(e) => match e.kind {
            EnigmaKindView::Mcq(v) => Some(v),
            _ => None,
        },
        None => None,
    }
}

/// The value of the number named `key` (as a decimal), in the last
/// enigma of `story`.
pub open spec fn number_for(es: Seq<EnigmaView>, story: Seq<char>, key: Seq<char>) -> Option<nat> {
    match numbers_for(es, story) {
        Some(nums) => match lookup(nums, key) {
            Some(v) => parse_usize_spec(v),
            None => None,
        },
        None => None,
    }
}

/// The player's answer to a calculation: all the items of the selection
/// written one after the other, read as a decimal number.
pub open spec fn numeric_answer(sel: Option<UserSelectionView>) -> Option<nat> {
    match sel {
        Some(s) => parse_usize_spec(concat_all(s.items)),
        None => None,
    }
}

/// The player's answer to a multiple choice question: the selected item
/// without surrounding whitespace.
pub open spec fn choice_answer(sel: UserSelectionView) -> Seq<char> {
    trim(sel.items[sel.selected])
}

/// What comes into play when an enigma is answered right, besides the
/// answer itself.
#[derive(Debug, Clone, Copy, PartialEq, Eq, Structural)]
pub enum EnigmaFollowUp {
    Nothing,
    /// A new story sensor appears (story 100).
    SpawnStory100,
    /// A key appears.
    SpawnKey,
    /// A new story sensor appears (story 101).
    SpawnStory101,
}

/// How an enigma was answered.
#[derive(Debug, Clone, Copy, PartialEq, Eq, Structural)]
pub enum Verdict {
    Correct,
    Incorrect,
}

/// The verdict for a condition.
pub open spec fn verdict_of(ok: bool) -> Verdict {
    if ok {
        Verdict::Correct
    } else {
        Verdict::Incorrect
    }
}

/// The name of a number of a calculation.
pub open spec fn n1() -> Seq<char> {
    "n1"@
}

/// The name of the second number of a calculation.
pub open spec fn n2() -> Seq<char> {
    "n2"@
}

/// The stories whose last message holds an enigma.
pub open spec fn story_03() -> Seq<char> {
    "story03-03"@
}

/// The message of story 04 that holds its enigma.
pub open spec fn story_04() -> Seq<char> {
    "story04-03"@
}

/// The message of story 05 that holds its enigma.
pub open spec fn story_05() -> Seq<char> {
    "story05-04"@
}

/// The message of story 06 that holds its enigma.
pub open spec fn story_06() -> Seq<char> {
    "story06-03"@
}

/// The message of story 07 that holds its enigma.
pub open spec fn story_07() -> Seq<char> {
    "story07-04"@
}

/// The message of story 08 that holds its enigma.
pub open spec fn story_08() -> Seq<char> {
    "story08-03"@
}

/// The message of story 100 that holds its enigma.
pub open spec fn story_100() -> Seq<char> {
    "story100-03"@
}

/// The message of story 101 that holds its enigma.
pub open spec fn story_101() -> Seq<char> {
    "story101-03"@
}

/// The answer to the multiple choice question of `story` is right when the
/// right answer (the third entry) contains the player's answer.
pub open spec fn mcq_verdict(es: Seq<EnigmaView>, story: Seq<char>, sel: Option<UserSelectionView>) -> Verdict {
    verdict_of(contains_seq(mcq_for(es, story)->0[2], choice_answer(sel->0)))
}

/// What answering the enigma of the story message `latest` gives: the
/// verdict and what comes next; `None` when the message holds no enigma.
///
/// - story03-03: n1 + n2
/// - story04-03: n1 * 2
/// - story05-04, story06-03, story07-04: multiple choice questions
/// - story08-03: n1 - n2, with exactly one key collected
/// - story100-03: eleven nuts collected
/// - story101-03: n1 / 2
pub open spec fn check_enigma_spec(
    latest: Seq<char>,
    es: Seq<EnigmaView>,
    sel: Option<UserSelectionView>,
    nuts: int,
    keys: int,
) -> Option<(Verdict, EnigmaFollowUp)> {
    let a = numeric_answer(sel)->0;
    if latest == story_03() {
        let x = number_for(es, latest, n1())->0;
        let y = number_for(es, latest, n2())->0;
        Some((verdict_of(x + y == a), EnigmaFollowUp::Nothing))
    } else if latest == story_04() {
        let x = number_for(es, latest, n1())->0;
        Some((verdict_of(x * 2 == a), EnigmaFollowUp::Nothing))
    } else if latest == story_05() {
        let v = mcq_verdict(es, latest, sel);
        Some((v, if v == Verdict::Correct { EnigmaFollowUp::SpawnStory100 } else { EnigmaFollowUp::Nothing }))
    } else if latest == story_06() {
        Some((mcq_verdict(es, latest, sel), EnigmaFollowUp::Nothing))
    } else if latest == story_07() {
        let v = mcq_verdict(es, latest, sel);
        Some((v, if v == Verdict::Correct { EnigmaFollowUp::SpawnKey } else { EnigmaFollowUp::Nothing }))
    } else if latest == story_08() {
        let x = number_for(es, latest, n1())->0;
        let y = number_for(es, latest, n2())->0;
        let v = verdict_of(x - y == a && keys == 1);
        Some((v, if v == Verdict::Correct { EnigmaFollowUp::SpawnStory101 } else { EnigmaFollowUp::Nothing }))
    } else if latest == story_100() {
        Some((verdict_of(nuts == 11), EnigmaFollowUp::Nothing))
    } else if latest == story_101() {
        let x = number_for(es, latest, n1())->0;
        Some((verdict_of(x / 2 == a), EnigmaFollowUp::Nothing))
    } else {
        None
    }
}

/// `true` when the enigma of `latest` can be checked: its enigma exists and
/// has the right kind, its numbers and the player's answer are decimal
/// numbers, the selected choice exists, and the calculation stays within a
/// `usize` (and does not go below zero).
pub open spec fn enigma_checkable(latest: Seq<char>, es: Seq<EnigmaView>, sel: Option<UserSelectionView>) -> bool {
    let has_answer = numeric_answer(sel) is Some;
    let x = number_for(es, latest, n1());
    let y = number_for(es, latest, n2());
    let mcq_ok = (mcq_for(es, latest) matches Some(v) && v.len() >= 3) && (sel matches Some(s) && 0
        <= s.selected < s.items.len());
    if latest == story_03() {
        has_answer && x is Some && y is Some && x->0 + y->0 <= usize::MAX
    } else if latest == story_04() {
        has_answer && x is Some && x->0 * 2 <= usize::MAX
    } else if latest == story_05() || latest == story_06() || latest == story_07() {
        mcq_ok
    } else if latest == story_08() {
        has_answer && x is Some && y is Some && x->0 >= y->0
    } else if latest == story_101() {
        has_answer && x is Some
    } else {
        true
    }
}

/// The last enigma of `story`.
pub(crate) fn find_last(es: &Vec<Enigma>, story: &str) -> (r: Option<usize>)
    ensures
        match r {
            Some(i) => i < es@.len() && last_with_story(enigmas_view(es@), story@) == Some(
                enigma_view(es@[i as int]),
            ),
            None => last_with_story(enigmas_view(es@), story@) is None,
        },
{
    let mut found: Option<usize> = None;
    let n = es.len();
    for i in 0..n
        invariant
            n == es@.len(),
            match found {
                Some(k) => k < i && last_with_story(enigmas_view(es@).take(i as int), story@)
                    == Some(enigma_view(es@[k as int])),
                None => last_with_story(enigmas_view(es@).take(i as int), story@) is None,
            },
    {
        assert(enigmas_view(es@).take(i + 1).drop_last() == enigmas_view(es@).take(i as int));
        assert(enigmas_view(es@).take(i + 1).last() == enigma_view(es@[i as int]));
        if str_eq(es[i].associated_story.as_str(), story) {
            found = Some(i);
        }
    }
    assert(enigmas_view(es@).take(n as int) == enigmas_view(es@));
    found
}

/// The value of the number named `key` among `nums`.
fn lookup_exec<'a>(nums: &'a Vec<(String, String)>, key: &str) -> (r: Option<&'a String>)
    ensures
        match r {
            Some(v) => lookup(pairs_view(nums@), key@) == Some(v@),
            None => lookup(pairs_view(nums@), key@) is None,
        },
{
    let n = nums.len();
    assert(pairs_view(nums@).skip(0) == pairs_view(nums@));
    for i in 0..n
        invariant
            n == nums@.len(),
            lookup(pairs_view(nums@), key@) == lookup(pairs_view(nums@).skip(i as int), key@),
    {
        let ghost rest = pairs_view(nums@).skip(i as int);
        assert(rest[0] == (nums@[i as int].0@, nums@[i as int].1@));
        assert(rest.drop_first() == pairs_view(nums@).skip(i + 1));
        if str_eq(nums[i].0.as_str(), key) {
            return Some(&nums[i].1);
        }
    }
    assert(pairs_view(nums@).skip(n as int).len() == 0);
    None
}

/// The value of the number named `key` in the last enigma of `story`.
fn number_exec(es: &Vec<Enigma>, story: &str, key: &str) -> (r: Option<usize>)
    ensures
        match r {
            Some(v) => number_for(enigmas_view(es@), story@, key@) == Some(v as nat),
            None => number_for(enigmas_view(es@), story@, key@) is None,
        },
{
    match find_last(es, story) {
        Some(i) => match &es[i].kind {
            EnigmaKind::Numbers(nums) => match lookup_exec(nums, key) {
                Some(v) => parse_usize(&chars_of(v.as_str())),
                None => None,
            },
            EnigmaKind::Mcq(_) => None,
        },
        None => None,
    }
}

/// The player's answer to a calculation.
fn numeric_answer_exec(sel: Option<&UserSelection>) -> (r: Option<usize>)
    ensures
        match r {
            Some(v) => numeric_answer(opt_sel(sel)) == Some(v as nat),
            None => numeric_answer(opt_sel(sel)) is None,
        },
{
    match sel {
        Some(s) => parse_usize(&join_chars(s.items())),
        None => None,
    }
}

/// The verdict for the multiple choice question of `story`.
fn mcq_exec(es: &Vec<Enigma>, story: &str, sel: &UserSelection) -> (v: Verdict)
    requires
        mcq_for(enigmas_view(es@), story@) matches Some(c) && c.len() >= 3,
        0 <= sel@.selected < sel@.items.len(),
    ensures
        v == mcq_verdict(enigmas_view(es@), story@, Some(sel@)),
{
    let i = find_last(es, story).unwrap();
    let items = sel.items();
    match &es[i].kind {
        EnigmaKind::Mcq(values) => {
            let k = sel.get_selected_item();
            assert(items@[k as int]@ == items.deep_view()[k as int]);
            let answer = trim_chars(&chars_of(items[k].as_str()));
            assert(values@[2]@ == values.deep_view()[2]);
            if contains_chars(&chars_of(values[2].as_str()), &answer) {
                Verdict::Correct
            } else {
                Verdict::Incorrect
            }
        },
        EnigmaKind::Numbers(_) => {
            assert(false);
            Verdict::Incorrect
        },
    }
}

/// `true` when the enigma of the story message `latest` can be checked
/// with `check_enigma`: what its `requires` asks, tested on the values.
pub fn can_check_enigma(latest: &str, enigmas: &Enigmas, selection: Option<&UserSelection>) -> (b: bool)
    ensures
        b == enigma_checkable(latest@, enigmas_view(enigmas.enigmas@), opt_sel(selection)),
{
    let es = &enigmas.enigmas;
    let has_answer = numeric_answer_exec(selection).is_some();
    let x = number_exec(es, latest, "n1");
    let y = number_exec(es, latest, "n2");
    let mcq_found = match find_last(es, latest) {
        Some(i) => match &es[i].kind {
            EnigmaKind::Mcq(values) => {
                assert(values@.len() == values.deep_view().len());
                values.len() >= 3
            },
            EnigmaKind::Numbers(_) => false,
        },
        None => false,
    };
    let sel_ok = match selection {
        Some(s) => {
            let items = s.items();
            assert(items@.len() == items.deep_view().len());
            s.get_selected_item() < items.len()
        },
        None => false,
    };
    let mcq_ok = mcq_found && sel_ok;
    if str_eq(latest, "story03-03") {
        has_answer && match (x, y) {
            (Some(a), Some(c)) => a.checked_add(c).is_some(),
            _ => false,
        }
    } else if str_eq(latest, "story04-03") {
        has_answer && match x {
            Some(a) => a.checked_mul(2).is_some(),
            None => false,
        }
    } else if str_eq(latest, "story05-04") || str_eq(latest, "story06-03") || str_eq(latest, "story07-04") {
        mcq_ok
    } else if str_eq(latest, "story08-03") {
        has_answer && match (x, y) {
            (Some(a), Some(c)) => a >= c,
            _ => false,
        }
    } else if str_eq(latest, "story101-03") {
        has_answer && x.is_some()
    } else {
        true
    }
}

/// The verdict and story that an enigma result announces.
pub open spec fn result_view(r: EnigmaResult) -> (Verdict, Seq<char>) {
    match r {
        EnigmaResult::Correct(s) => (Verdict::Correct, s@),
        EnigmaResult::Incorrect(s) => (Verdict::Incorrect, s@),
    }
}

/// The selection as mathematical values, if there is one.
pub open spec fn opt_sel(sel: Option<&UserSelection>) -> Option<UserSelectionView> {
    match sel {
        Some(s) => Some(s@),
        None => None,
    }
}

fn make_result(story: &str, v: Verdict) -> (r: EnigmaResult)
    ensures
        result_view(r) == (v, story@),
{
    let name = crate::text::string_of(&chars_of(story));
    match v {
        Verdict::Correct => EnigmaResult::Correct(name),
        Verdict::Incorrect => EnigmaResult::Incorrect(name),
    }
}

fn verdict_exec(ok: bool) -> (v: Verdict)
    ensures
        v == verdict_of(ok),
{
    if ok {
        Verdict::Correct
    } else {
        Verdict::Incorrect
    }
}

/// Checks the answer to the enigma of the story message `latest` that was
/// just closed, given the enigmas of the game, the selection of that
/// message (`None` when it has none), and the numbers of nuts and of keys
/// collected. Returns the result to announce and what comes next, or
/// `None` when the message holds no enigma.
pub fn check_enigma(
    latest: &str,
    enigmas: &Enigmas,
    selection: Option<&UserSelection>,
    nuts: usize,
    keys: u8,
) -> (r: Option<(EnigmaResult, EnigmaFollowUp)>)
    requires
        enigma_checkable(latest@, enigmas_view(enigmas.enigmas@), opt_sel(selection)),
    ensures
        match check_enigma_spec(
            latest@,
            enigmas_view(enigmas.enigmas@),
            opt_sel(selection),
            nuts as int,
            keys as int,
        ) {
            Some((v, f)) => r matches Some((res, g)) && g == f && result_view(res) == (v, latest@),
            None => r is None,
        },
{
    let es = &enigmas.enigmas;
    let ghost ev = enigmas_view(es@);
    let ghost sv = opt_sel(selection);
    if str_eq(latest, "story03-03") {
        let x = number_exec(es, latest, "n1").unwrap();
        let y = number_exec(es, latest, "n2").unwrap();
        let a = numeric_answer_exec(selection).unwrap();
        let v = verdict_exec(x + y == a);
        Some((make_result(latest, v), EnigmaFollowUp::Nothing))
    } else if str_eq(latest, "story04-03") {
        let x = number_exec(es, latest, "n1").unwrap();
        let a = numeric_answer_exec(selection).unwrap();
        let v = verdict_exec(x * 2 == a);
        Some((make_result(latest, v), EnigmaFollowUp::Nothing))
    } else if str_eq(latest, "story05-04") {
        let v = mcq_exec(es, latest, selection.unwrap());
        let follow = if v == Verdict::Correct {
            EnigmaFollowUp::SpawnStory100
        } else {
            EnigmaFollowUp::Nothing
        };
        Some((make_result(latest, v), follow))
    } else if str_eq(latest, "story06-03") {
        let v = mcq_exec(es, latest, selection.unwrap());
        Some((make_result(latest, v), EnigmaFollowUp::Nothing))
    } else if str_eq(latest, "story07-04") {
        let v = mcq_exec(es, latest, selection.unwrap());
        let follow = if v == Verdict::Correct {
            EnigmaFollowUp::SpawnKey
        } else {
            EnigmaFollowUp::Nothing
        };
        Some((make_result(latest, v), follow))
    } else if str_eq(latest, "story08-03") {
        let x = number_exec(es, latest, "n1").unwrap();
        let y = number_exec(es, latest, "n2").unwrap();
        let a = numeric_answer_exec(selection).unwrap();
        let v = verdict_exec(x - y == a && keys == 1);
        let follow = if v == Verdict::Correct {
            EnigmaFollowUp::SpawnStory101
        } else {
            EnigmaFollowUp::Nothing
        };
        Some((make_result(latest, v), follow))
    } else if str_eq(latest, "story100-03") {
        let v = verdict_exec(nuts == 11);
        Some((make_result(latest, v), EnigmaFollowUp::Nothing))
    } else if str_eq(latest, "story101-03") {
        let x = number_exec(es, latest, "n1").unwrap();
        let a = numeric_answer_exec(selection).unwrap();
        let v = verdict_exec(x / 2 == a);
        Some((make_result(latest, v), EnigmaFollowUp::Nothing))
    } else {
        None
    }
}

/// A number drawn uniformly in `low..=high` by `rand::Rng::gen_range` on
/// the thread's generator: the contract says only that it lies in the range.
#[verifier::external_body]
fn random_inclusive(low: usize, high: usize) -> (r: usize)
    requires
        low <= high,
    ensures
        low <= r <= high,
{
    rand::thread_rng().gen_range(low..=high)
}

/// A number drawn uniformly in `low..high` by `rand::Rng::gen_range` on the
/// thread's generator: the contract says only that it lies in the range.
#[verifier::external_body]
fn random_below(low: usize, high: usize) -> (r: usize)
    requires
        low < high,
    ensures
        low <= r < high,
{
    rand::thread_rng().gen_range(low..high)
}

/// Shuffles `v` in place with `rand::seq::SliceRandom::shuffle` on the
/// thread's generator: the contract says only that the result is a
/// permutation of `v`.
#[verifier::external_body]
fn shuffle(v: &mut Vec<usize>)
    ensures
        final(v)@.to_multiset() == old(v)@.to_multiset(),
{
    v.shuffle(&mut rand::thread_rng());
}

/// The numbers and questions drawn for the enigmas of a new game.
#[derive(Debug, Clone, Copy, PartialEq, Eq, Structural)]
pub struct EnigmaDraw {
    /// story03-03: the two numbers to add.
    pub sum_n1: usize,
    pub sum_n2: usize,
    /// story04-03: the number to double.
    pub double_n1: usize,
    /// story05-04, story06-03, story07-04: the multiple choice questions,
    /// as indices into `mcq_messages()`.
    pub mcq_05: usize,
    pub mcq_06: usize,
    pub mcq_07: usize,
    /// story08-03: the two numbers to subtract, the larger first.
    pub diff_n1: usize,
    pub diff_n2: usize,
    /// story101-03: the even number to halve.
    pub half_n1: usize,
}

/// The multiple choice questions, as the names of their messages: the
/// question, a wrong answer and the right answer.
pub open spec fn mcq_table() -> Seq<(Seq<char>, Seq<char>, Seq<char>)> {
    seq![
        ("mammals-question"@, "mammals"@, "non-mammals"@),
        ("fastest-land-animal-question"@, "non-fastest-land-animal"@, "fastest-land-animal"@),
        ("closest-planet-to-sun-question"@, "non-closest-planet-to-sun"@, "closest-planet-to-sun"@),
        ("japan-capital-question"@, "non-japan-capital"@, "japan-capital"@),
        ("who-is-napoleon-question"@, "non-napoleon-answer"@, "napoleon-answer"@),
        ("largest-ocean-question"@, "non-largest-ocean"@, "largest-ocean"@),
        ("largest-animal-question"@, "non-largest-animal"@, "largest-animal"@),
    ]
}

/// The names of the messages of the multiple choice questions.
pub fn mcq_messages() -> (r: Vec<(&'static str, &'static str, &'static str)>)
    ensures
        r@.len() == mcq_table().len(),
        forall|i: int| 0 <= i < r@.len() ==> (#[trigger] r@[i].0@, r@[i].1@, r@[i].2@) == mcq_table()[i],
{
    let r = vec![
        ("mammals-question", "mammals", "non-mammals"),
        ("fastest-land-animal-question", "non-fastest-land-animal", "fastest-land-animal"),
        ("closest-planet-to-sun-question", "non-closest-planet-to-sun", "closest-planet-to-sun"),
        ("japan-capital-question", "non-japan-capital", "japan-capital"),
        ("who-is-napoleon-question", "non-napoleon-answer", "napoleon-answer"),
        ("largest-ocean-question", "non-largest-ocean", "largest-ocean"),
        ("largest-animal-question", "non-largest-animal", "largest-animal"),
    ];
    r
}

/// `true` when a draw is one that `draw_enigmas` can give.
pub open spec fn draw_ok(d: EnigmaDraw) -> bool {
    &&& d.sum_n1 <= 50
    &&& d.sum_n2 < 50
    &&& d.double_n1 <= 49
    &&& d.mcq_05 < 7 && d.mcq_06 < 7 && d.mcq_07 < 7
    &&& d.mcq_05 != d.mcq_06 && d.mcq_05 != d.mcq_07 && d.mcq_06 != d.mcq_07
    &&& d.diff_n2 <= d.diff_n1 <= 100
    &&& d.half_n1 <= 98 && d.half_n1 % 2 == 0
}

/// Puts together the enigmas' draw from the raw draws: `order` is a
/// shuffle of the indices of the seven questions, of which the last three
/// are asked; of the two numbers to subtract the larger comes first; the
/// number to halve is twice `half_k`.
pub fn assemble_draw(
    order: Vec<usize>,
    sum_n1: usize,
    sum_n2: usize,
    double_n1: usize,
    diff_a: usize,
    diff_b: usize,
    half_k: usize,
) -> (d: EnigmaDraw)
    requires
        order@.len() == 7,
        order@.to_multiset() == seq![0usize, 1, 2, 3, 4, 5, 6].to_multiset(),
        sum_n1 <= 50,
        sum_n2 < 50,
        double_n1 <= 49,
        diff_a <= 100,
        diff_b <= 100,
        half_k <= 49,
    ensures
        d.sum_n1 == sum_n1,
        d.sum_n2 == sum_n2,
        d.double_n1 == double_n1,
        d.mcq_05 == order@[6],
        d.mcq_06 == order@[5],
        d.mcq_07 == order@[4],
        d.diff_n1 == (if diff_a >= diff_b { diff_a } else { diff_b }),
        d.diff_n2 == (if diff_a >= diff_b { diff_b } else { diff_a }),
        d.half_n1 == 2 * half_k,
        draw_ok(d),
{
    proof {
        lemma_permutation_facts(seq![0usize, 1, 2, 3, 4, 5, 6], order@);
    }
    let (diff_n1, diff_n2) = if diff_a >= diff_b {
        (diff_a, diff_b)
    } else {
        (diff_b, diff_a)
    };
    EnigmaDraw {
        sum_n1,
        sum_n2,
        double_n1,
        mcq_05: order[6],
        mcq_06: order[5],
        mcq_07: order[4],
        diff_n1,
        diff_n2,
        half_n1: 2 * half_k,
    }
}

/// Draws the numbers and questions of the enigmas of a new game: numbers
/// to add up to 50 and below 50, a number to double up to 49, three
/// different questions (the last three of a shuffle of all questions), two
/// numbers up to 100 to subtract, the larger first, and an even number up
/// to 98 to halve.
pub fn draw_enigmas() -> (d: EnigmaDraw)
    ensures
        draw_ok(d),
{
    let mut order: Vec<usize> = vec![0, 1, 2, 3, 4, 5, 6];
    let ghost before = order@;
    shuffle(&mut order);
    proof {
        assert(before == seq![0usize, 1, 2, 3, 4, 5, 6]);
        lemma_permutation_facts(before, order@);
    }
    let sum_n1 = random_inclusive(0, 50);
    let sum_n2 = random_below(0, 50);
    let double_n1 = random_inclusive(0, 49);
    let diff_a = random_inclusive(0, 100);
    let diff_b = random_inclusive(0, 100);
    let half_k = random_inclusive(0, 49);
    assemble_draw(order, sum_n1, sum_n2, double_n1, diff_a, diff_b, half_k)
}

/// A permutation of the indices below seven holds seven different indices
/// below seven.
proof fn lemma_permutation_facts(before: Seq<usize>, after: Seq<usize>)
    requires
        before == seq![0usize, 1, 2, 3, 4, 5, 6],
        after.to_multiset() == before.to_multiset(),
    ensures
        after.len() == 7,
        forall|i: int| 0 <= i < 7 ==> #[trigger] after[i] < 7,
        after.no_duplicates(),
{
    before.to_multiset_ensures();
    after.to_multiset_ensures();
    assert(before.no_duplicates());
    before.lemma_multiset_has_no_duplicates();
    after.lemma_multiset_has_no_duplicates_conv();
    assert forall|i: int| 0 <= i < 7 implies #[trigger] after[i] < 7 by {
        assert(after.to_multiset().count(after[i]) > 0);
        assert(before.contains(after[i]));
    }
}

/// The named numbers of an enigma, as written in decimal.
pub open spec fn named(names: Seq<Seq<char>>, values: Seq<nat>) -> EnigmaKindView {
    EnigmaKindView::Numbers(Seq::new(names.len(), |i: int| (names[i], decimal(values[i]))))
}

/// The texts of a table of questions: the question, a wrong answer and the
/// right answer of each.
pub open spec fn table_view(t: Seq<(String, String, String)>) -> Seq<(Seq<char>, Seq<char>, Seq<char>)> {
    t.map_values(|q: (String, String, String)| (q.0@, q.1@, q.2@))
}

/// The choices of a multiple choice enigma made of a question of the table.
pub open spec fn question_texts(q: (Seq<char>, Seq<char>, Seq<char>)) -> Seq<Seq<char>> {
    seq![q.0, q.1, q.2]
}

/// The enigmas of a game, from what was drawn and from the texts of the
/// table of questions that the draw picks from.
pub open spec fn enigmas_spec(d: EnigmaDraw, table: Seq<(Seq<char>, Seq<char>, Seq<char>)>) -> Seq<EnigmaView> {
    seq![
        EnigmaView { story: story_03(), kind: named(seq![n1(), n2()], seq![d.sum_n1 as nat, d.sum_n2 as nat]) },
        EnigmaView { story: story_04(), kind: named(seq![n1()], seq![d.double_n1 as nat]) },
        EnigmaView { story: story_05(), kind: EnigmaKindView::Mcq(question_texts(table[d.mcq_05 as int])) },
        EnigmaView { story: story_06(), kind: EnigmaKindView::Mcq(question_texts(table[d.mcq_06 as int])) },
        EnigmaView { story: story_07(), kind: EnigmaKindView::Mcq(question_texts(table[d.mcq_07 as int])) },
        EnigmaView { story: story_08(), kind: named(seq![n1(), n2()], seq![d.diff_n1 as nat, d.diff_n2 as nat]) },
        EnigmaView { story: story_100(), kind: EnigmaKindView::Mcq(Seq::empty()) },
        EnigmaView { story: story_101(), kind: named(seq![n1()], seq![d.half_n1 as nat]) },
    ]
}

/// `true` when no two of the named numbers share a name.
pub open spec fn names_distinct(n: Seq<(Seq<char>, Seq<char>)>) -> bool {
    forall|a: int, b: int| 0 <= a < b < n.len() ==> #[trigger] n[a].0 != #[trigger] n[b].0
}

/// `true` when no calculation of the list names two of its numbers alike.
pub open spec fn number_names_distinct(es: Seq<EnigmaView>) -> bool {
    forall|k: int|
        0 <= k < es.len() ==> (#[trigger] es[k].kind matches EnigmaKindView::Numbers(n) ==> names_distinct(n))
}

/// The calculations of the enigmas built from a draw name each of their
/// numbers once.
pub proof fn lemma_enigma_number_names_distinct(d: EnigmaDraw, table: Seq<(Seq<char>, Seq<char>, Seq<char>)>)
    ensures
        number_names_distinct(enigmas_spec(d, table)),
{
    let es = enigmas_spec(d, table);
    lemma_stories_distinct();
    assert forall|k: int| 0 <= k < es.len() implies (#[trigger] es[k].kind matches EnigmaKindView::Numbers(
        n,
    ) ==> names_distinct(n)) by {
        if let EnigmaKindView::Numbers(n) = es[k].kind {
            assert forall|a: int, b: int| 0 <= a < b < n.len() implies #[trigger] n[a].0 != #[trigger] n[b].0 by {
                assert(a == 0 && b == 1);
                assert(n[a].0 == n1() && n[b].0 == n2());
            }
        }
    }
}

fn owned(s: &str) -> (r: String)
    ensures
        r@ == s@,
{
    string_of(&chars_of(s))
}

fn numbers1(value: usize) -> (k: EnigmaKind)
    ensures
        kind_view(k) == named(seq![n1()], seq![value as nat]),
{
    let mut v: Vec<(String, String)> = Vec::new();
    v.push((owned("n1"), usize_to_string(value)));
    let k = EnigmaKind::Numbers(v);
    assert(pairs_view(v@) =~= Seq::new(1, |i: int| (seq![n1()][i], decimal(seq![value as nat][i]))));
    k
}

fn numbers2(a: usize, b: usize) -> (k: EnigmaKind)
    ensures
        kind_view(k) == named(seq![n1(), n2()], seq![a as nat, b as nat]),
{
    let mut v: Vec<(String, String)> = Vec::new();
    v.push((owned("n1"), usize_to_string(a)));
    v.push((owned("n2"), usize_to_string(b)));
    let k = EnigmaKind::Numbers(v);
    assert(pairs_view(v@) =~= Seq::new(
        2,
        |i: int| (seq![n1(), n2()][i], decimal(seq![a as nat, b as nat][i])),
    ));
    k
}

/// The choices of the multiple choice enigma made of question `k` of the
/// table.
fn question_choices(table: &Vec<(String, String, String)>, k: usize) -> (v: Vec<String>)
    requires
        k < table@.len(),
    ensures
        v.deep_view() == question_texts(table_view(table@)[k as int]),
{
    let mut v: Vec<String> = Vec::new();
    v.push(table[k].0.clone());
    v.push(table[k].1.clone());
    v.push(table[k].2.clone());
    assert(v.deep_view() =~= question_texts(table_view(table@)[k as int]));
    v
}

/// Builds the enigmas of a new game from what was drawn and from the table
/// of the seven multiple choice questions, each as the texts of the
/// question, a wrong answer and the right answer (in the order of
/// `mcq_messages()`): the stories 05, 06 and 07 ask the questions that the
/// draw picked.
pub fn build_enigmas(d: EnigmaDraw, table: &Vec<(String, String, String)>) -> (e: Enigmas)
    requires
        table@.len() == mcq_table().len(),
        d.mcq_05 < table@.len(),
        d.mcq_06 < table@.len(),
        d.mcq_07 < table@.len(),
    ensures
        enigmas_view(e.enigmas@) == enigmas_spec(d, table_view(table@)),
        number_names_distinct(enigmas_view(e.enigmas@)),
{
    let ghost t = table_view(table@);
    let mut v: Vec<Enigma> = Vec::new();
    v.push(Enigma { associated_story: owned("story03-03"), kind: numbers2(d.sum_n1, d.sum_n2) });
    v.push(Enigma { associated_story: owned("story04-03"), kind: numbers1(d.double_n1) });
    v.push(Enigma { associated_story: owned("story05-04"), kind: EnigmaKind::Mcq(question_choices(table, d.mcq_05)) });
    v.push(Enigma { associated_story: owned("story06-03"), kind: EnigmaKind::Mcq(question_choices(table, d.mcq_06)) });
    v.push(Enigma { associated_story: owned("story07-04"), kind: EnigmaKind::Mcq(question_choices(table, d.mcq_07)) });
    v.push(Enigma { associated_story: owned("story08-03"), kind: numbers2(d.diff_n1, d.diff_n2) });
    let empty: Vec<String> = Vec::new();
    assert(empty.deep_view() =~= Seq::<Seq<char>>::empty());
    v.push(Enigma { associated_story: owned("story100-03"), kind: EnigmaKind::Mcq(empty) });
    v.push(Enigma { associated_story: owned("story101-03"), kind: numbers1(d.half_n1) });
    assert(enigmas_view(v@) =~= enigmas_spec(d, t));
    proof {
        lemma_enigma_number_names_distinct(d, t);
    }
    Enigmas { enigmas: v }
}

/// The stories that hold enigmas have different names.
pub proof fn lemma_stories_distinct()
    ensures
        story_03() != story_04() && story_03() != story_05() && story_03() != story_06(),
        story_03() != story_07() && story_03() != story_08() && story_03() != story_100(),
        story_03() != story_101(),
        story_04() != story_05() && story_04() != story_06() && story_04() != story_07(),
        story_04() != story_08() && story_04() != story_100() && story_04() != story_101(),
        story_05() != story_06() && story_05() != story_07() && story_05() != story_08(),
        story_05() != story_100() && story_05() != story_101(),
        story_06() != story_07() && story_06() != story_08() && story_06() != story_100(),
        story_06() != story_101(),
        story_07() != story_08() && story_07() != story_100() && story_07() != story_101(),
        story_08() != story_100() && story_08() != story_101(),
        story_100() != story_101(),
        n1() != n2(),
{
    reveal_strlit("story03-03");
    reveal_strlit("story04-03");
    reveal_strlit("story05-04");
    reveal_strlit("story06-03");
    reveal_strlit("story07-04");
    reveal_strlit("story08-03");
    reveal_strlit("story100-03");
    reveal_strlit("story101-03");
    reveal_strlit("n1");
    reveal_strlit("n2");
    assert(story_03()[6] != story_04()[6] && story_03()[6] != story_05()[6]);
    assert(story_03()[6] != story_06()[6] && story_03()[6] != story_07()[6]);
    assert(story_03()[6] != story_08()[6] && story_04()[6] != story_05()[6]);
    assert(story_04()[6] != story_06()[6] && story_04()[6] != story_07()[6]);
    assert(story_04()[6] != story_08()[6] && story_05()[6] != story_06()[6]);
    assert(story_05()[6] != story_07()[6] && story_05()[6] != story_08()[6]);
    assert(story_06()[6] != story_07()[6] && story_06()[6] != story_08()[6]);
    assert(story_07()[6] != story_08()[6] && story_100()[7] != story_101()[7]);
    assert(n1()[1] != n2()[1]);
}

/// The last enigma of `story` is the one at `k` when no later one belongs
/// to it.
proof fn lemma_last_with_story_at(es: Seq<EnigmaView>, story: Seq<char>, k: int)
    requires
        0 <= k < es.len(),
        es[k].story == story,
        forall|j: int| k < j < es.len() ==> #[trigger] es[j].story != story,
    ensures
        last_with_story(es, story) == Some(es[k]),
    decreases es.len(),
{
    if k < es.len() - 1 {
        let pre = es.drop_last();
        assert forall|j: int| k < j < pre.len() implies #[trigger] pre[j].story != story by {
            assert(pre[j] == es[j]);
        }
        lemma_last_with_story_at(pre, story, k);
    }
}

/// The numbers of an enigma built from a draw read back as drawn.
proof fn lemma_named_numbers(es: Seq<EnigmaView>, story: Seq<char>, k: int, a: nat, b: nat, two: bool)
    requires
        0 <= k < es.len(),
        es[k].story == story,
        forall|j: int| k < j < es.len() ==> #[trigger] es[j].story != story,
        es[k].kind == (if two {
            named(seq![n1(), n2()], seq![a, b])
        } else {
            named(seq![n1()], seq![a])
        }),
        a <= usize::MAX,
        b <= usize::MAX,
        n1() != n2(),
    ensures
        number_for(es, story, n1()) == Some(a),
        two ==> number_for(es, story, n2()) == Some(b),
{
    lemma_last_with_story_at(es, story, k);
    lemma_parse_decimal(a);
    lemma_parse_decimal(b);
    if two {
        let nums = Seq::new(2, |i: int| (seq![n1(), n2()][i], decimal(seq![a, b][i])));
        assert(nums[0] == (n1(), decimal(a)));
        assert(nums[1] == (n2(), decimal(b)));
        assert(nums.drop_first()[0] == (n2(), decimal(b)));
        assert(lookup(nums, n2()) == lookup(nums.drop_first(), n2()));
    } else {
        let nums = Seq::new(1, |i: int| (seq![n1()][i], decimal(seq![a][i])));
        assert(nums[0] == (n1(), decimal(a)));
    }
}

/// The calculations of the enigmas built from any draw that
/// `draw_enigmas` gives can always be checked once the player has answered
/// with a number, and each is answered right exactly when the answer is
/// the result of its calculation on the drawn numbers: their sum (story
/// 03), the double (story 04), the difference with the key collected
/// (story 08) and the half (story 101).
pub proof fn lemma_drawn_calculations_check(
    d: EnigmaDraw,
    table: Seq<(Seq<char>, Seq<char>, Seq<char>)>,
    sel: UserSelectionView,
    nuts: int,
    keys: int,
)
    requires
        draw_ok(d),
        numeric_answer(Some(sel)) is Some,
    ensures
        enigma_checkable(story_03(), enigmas_spec(d, table), Some(sel)),
        check_enigma_spec(story_03(), enigmas_spec(d, table), Some(sel), nuts, keys)
            == Some((
            verdict_of(numeric_answer(Some(sel))->0 == d.sum_n1 + d.sum_n2),
            EnigmaFollowUp::Nothing,
        )),
        enigma_checkable(story_04(), enigmas_spec(d, table), Some(sel)),
        check_enigma_spec(story_04(), enigmas_spec(d, table), Some(sel), nuts, keys)
            == Some((verdict_of(numeric_answer(Some(sel))->0 == d.double_n1 * 2), EnigmaFollowUp::Nothing)),
        enigma_checkable(story_08(), enigmas_spec(d, table), Some(sel)),
        check_enigma_spec(story_08(), enigmas_spec(d, table), Some(sel), nuts, keys)
            == Some((
            verdict_of(numeric_answer(Some(sel))->0 == d.diff_n1 - d.diff_n2 && keys == 1),
            if numeric_answer(Some(sel))->0 == d.diff_n1 - d.diff_n2 && keys == 1 {
                EnigmaFollowUp::SpawnStory101
            } else {
                EnigmaFollowUp::Nothing
            },
        )),
        enigma_checkable(story_101(), enigmas_spec(d, table), Some(sel)),
        check_enigma_spec(story_101(), enigmas_spec(d, table), Some(sel), nuts, keys)
            == Some((verdict_of(numeric_answer(Some(sel))->0 == d.half_n1 / 2), EnigmaFollowUp::Nothing)),
{
    let es = enigmas_spec(d, table);
    lemma_stories_distinct();
    lemma_named_numbers(es, story_03(), 0, d.sum_n1 as nat, d.sum_n2 as nat, true);
    lemma_named_numbers(es, story_04(), 1, d.double_n1 as nat, 0, false);
    lemma_named_numbers(es, story_08(), 5, d.diff_n1 as nat, d.diff_n2 as nat, true);
    lemma_named_numbers(es, story_101(), 7, d.half_n1 as nat, 0, false);
}

/// The multiple choice questions of the enigmas built from any draw that
/// `draw_enigmas` gives and the table of questions can be checked once the
/// player has selected one of the choices; each is answered right exactly
/// when the right answer of the question that the draw picked contains the
/// selected choice. A right answer to the
/// question of story 05 brings story 100, to that of story 07 a key.
pub proof fn lemma_drawn_questions_check(
    d: EnigmaDraw,
    table: Seq<(Seq<char>, Seq<char>, Seq<char>)>,
    sel: UserSelectionView,
    nuts: int,
    keys: int,
)
    requires
        draw_ok(d),
        table.len() == mcq_table().len(),
        0 <= sel.selected < sel.items.len(),
    ensures
        enigma_checkable(story_05(), enigmas_spec(d, table), Some(sel)),
        check_enigma_spec(story_05(), enigmas_spec(d, table), Some(sel), nuts, keys)
            == Some((
            verdict_of(contains_seq(table[d.mcq_05 as int].2, choice_answer(sel))),
            if contains_seq(table[d.mcq_05 as int].2, choice_answer(sel)) {
                EnigmaFollowUp::SpawnStory100
            } else {
                EnigmaFollowUp::Nothing
            },
        )),
        enigma_checkable(story_06(), enigmas_spec(d, table), Some(sel)),
        check_enigma_spec(story_06(), enigmas_spec(d, table), Some(sel), nuts, keys)
            == Some((verdict_of(contains_seq(table[d.mcq_06 as int].2, choice_answer(sel))), EnigmaFollowUp::Nothing)),
        enigma_checkable(story_07(), enigmas_spec(d, table), Some(sel)),
        check_enigma_spec(story_07(), enigmas_spec(d, table), Some(sel), nuts, keys)
            == Some((
            verdict_of(contains_seq(table[d.mcq_07 as int].2, choice_answer(sel))),
            if contains_seq(table[d.mcq_07 as int].2, choice_answer(sel)) {
                EnigmaFollowUp::SpawnKey
            } else {
                EnigmaFollowUp::Nothing
            },
        )),
        check_enigma_spec(story_100(), enigmas_spec(d, table), Some(sel), nuts, keys)
            == Some((verdict_of(nuts == 11), EnigmaFollowUp::Nothing)),
{
    let es = enigmas_spec(d, table);
    lemma_stories_distinct();
    lemma_last_with_story_at(es, story_05(), 2);
    lemma_last_with_story_at(es, story_06(), 3);
    lemma_last_with_story_at(es, story_07(), 4);
}

/// The enigmas of a new game ask, in stories 05, 06 and 07, three of the
/// questions of the table, each with its wrong and its right answer: the
/// ones that the draw picked, which are three different questions of the
/// table, so that no question is asked twice when the table holds no
/// question twice.
pub proof fn lemma_drawn_questions_differ(d: EnigmaDraw, table: Seq<(Seq<char>, Seq<char>, Seq<char>)>)
    requires
        draw_ok(d),
        table.len() == mcq_table().len(),
    ensures
        mcq_for(enigmas_spec(d, table), story_05()) == Some(question_texts(table[d.mcq_05 as int])),
        mcq_for(enigmas_spec(d, table), story_06()) == Some(question_texts(table[d.mcq_06 as int])),
        mcq_for(enigmas_spec(d, table), story_07()) == Some(question_texts(table[d.mcq_07 as int])),
        d.mcq_05 != d.mcq_06 && d.mcq_05 != d.mcq_07 && d.mcq_06 != d.mcq_07,
        (forall|i: int, j: int| 0 <= i < j < table.len() ==> #[trigger] table[i].0 != #[trigger] table[j].0)
            ==> table[d.mcq_05 as int].0 != table[d.mcq_06 as int].0
                && table[d.mcq_05 as int].0 != table[d.mcq_07 as int].0
                && table[d.mcq_06 as int].0 != table[d.mcq_07 as int].0,
{
    let es = enigmas_spec(d, table);
    lemma_stories_distinct();
    lemma_last_with_story_at(es, story_05(), 2);
    lemma_last_with_story_at(es, story_06(), 3);
    lemma_last_with_story_at(es, story_07(), 4);
}

} // verus!
