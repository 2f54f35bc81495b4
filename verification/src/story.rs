use vstd::prelude::*;

use crate::text::{
    is_digit, lemma_decimal_digits, lemma_parse_decimal, lemma_replace_char_absent, lemma_replace_char_concat, lemma_replace_char_single,
    chars_of, contains_char, decimal, lemma_vec_char_deep_view, matches_at, parse_usize,
    parse_usize_spec, replace_all, replace_chars, split_chars, split_on, split_whitespace,
    string_of, string_of_range, usize_to_string, words,
};

verus! {

/// The style a section of story text is drawn with.
#[derive(Debug, Clone, Copy, PartialEq, Eq, Structural)]
pub enum SectionStyle {
    /// The first of the two alternating syllable styles (also used for spaces
    /// and for the items of a selection that are not selected).
    A,
    /// The second of the two alternating syllable styles.
    B,
    /// The style of the selected item of a selection.
    Selected,
}

/// Whether the story box is shown.
#[derive(Debug, Clone, Copy, PartialEq, Eq, Structural)]
pub enum TextSyllableState {
    Hidden,
    Visible,
}

impl Default for TextSyllableState {
    fn default() -> (s: Self)
        ensures
            s == TextSyllableState::Hidden,
    {
        TextSyllableState::Hidden
    }
}

/// A move of the player's choice in a selection.
#[derive(Debug, Clone, Copy, PartialEq, Eq, Structural)]
pub enum SelectionDirection {
    Up,
    Down,
    Left,
    Right,
}

/// A choice offered to the player inside a story message: the items, and
/// which of them is selected.
#[derive(Debug)]
pub struct UserSelection {
    pub selection_items: Vec<String>,
    selected_item: usize,
}

/// A selection as mathematical values.
pub struct UserSelectionView {
    pub items: Seq<Seq<char>>,
    pub selected: int,
}

impl View for UserSelection {
    type V = UserSelectionView;

    closed spec fn view(&self) -> UserSelectionView {
        UserSelectionView { items: self.selection_items.deep_view(), selected: self.selected_item as int }
    }
}

impl UserSelection {
    /// A selection of `selections` with the first item selected.
    pub fn new(selections: Vec<String>) -> (s: Self)
        ensures
            s@.items == selections.deep_view(),
            s@.selected == 0,
    {
        Self { selection_items: selections, selected_item: 0 }
    }

    /// A selection of `selections` with item `selected` selected.
    pub fn from_parts(selections: Vec<String>, selected: usize) -> (s: Self)
        ensures
            s@.items == selections.deep_view(),
            s@.selected == selected,
    {
        Self { selection_items: selections, selected_item: selected }
    }

    /// The items of the selection.
    pub fn items(&self) -> (r: &Vec<String>)
        ensures
            r.deep_view() == self@.items,
    {
        &self.selection_items
    }

    /// The index of the selected item.
    pub fn get_selected_item(&self) -> (i: usize)
        ensures
            i == self@.selected,
    {
        self.selected_item
    }
}

/// The two characters that escape a hyphen that does not split syllables.
pub open spec fn escaped_hyphen() -> Seq<char> {
    seq!['\\', '-']
}

/// What an escaped hyphen stands for while the text is split.
pub open spec fn hyphen_mark() -> Seq<char> {
    seq!['#', '#', '#', '#']
}

/// The syllables of each word of `text`: words are separated by whitespace
/// and syllables by `-`; `\-` is a hyphen that stays in its syllable.
pub open spec fn syllables_of(text: Seq<char>) -> Seq<Seq<Seq<char>>> {
    words(replace_all(text, escaped_hyphen(), hyphen_mark())).map_values(
        |w: Seq<char>|
            split_on(w, '-').map_values(|p: Seq<char>| replace_all(p, hyphen_mark(), seq!['-'])),
    )
}

/// The number of syllables of a list of words.
pub open spec fn syllable_count(ws: Seq<Seq<Seq<char>>>) -> nat
    decreases ws.len(),
{
    if ws.len() == 0 {
        0
    } else {
        syllable_count(ws.drop_last()) + ws.last().len()
    }
}

/// The style of the syllable that comes `g`-th in the text (from 0): the two
/// styles alternate, starting with `A`.
pub open spec fn style_for(g: int) -> SectionStyle {
    if g % 2 == 0 {
        SectionStyle::A
    } else {
        SectionStyle::B
    }
}

/// The sections for the syllables of a word whose first syllable comes
/// `base`-th in the text.
pub open spec fn styled(w: Seq<Seq<char>>, base: int) -> Seq<(Seq<char>, SectionStyle)> {
    Seq::new(w.len(), |k: int| (w[k], style_for(base + k)))
}

/// The sections for a list of words: each syllable in its alternating
/// style, and a space in style `A` between two words.
pub open spec fn sections_spec(ws: Seq<Seq<Seq<char>>>) -> Seq<(Seq<char>, SectionStyle)>
    decreases ws.len(),
{
    if ws.len() == 0 {
        Seq::empty()
    } else {
        let pre = ws.drop_last();
        let sep = if pre.len() > 0 {
            seq![(seq![' '], SectionStyle::A)]
        } else {
            Seq::empty()
        };
        sections_spec(pre) + sep + styled(ws.last(), syllable_count(pre) as int)
    }
}

/// Sections for a list of words: one per syllable and one space between
/// two words.
proof fn lemma_sections_len(ws: Seq<Seq<Seq<char>>>)
    ensures
        sections_spec(ws).len() == syllable_count(ws) + (if ws.len() > 0 {
            ws.len() - 1
        } else {
            0
        }),
    decreases ws.len(),
{
    if ws.len() > 0 {
        lemma_sections_len(ws.drop_last());
    }
}

/// The text sections of a text are its syllables and one space between
/// each two words: as many sections as syllables, plus the number of words
/// less one; a text without words gives no section.
pub proof fn lemma_section_count(text: Seq<char>)
    ensures
        sections_spec(syllables_of(text)).len() == syllable_count(syllables_of(text)) + (if syllables_of(
            text,
        ).len() > 0 {
            syllables_of(text).len() - 1
        } else {
            0
        }),
        syllables_of(text).len() == 0 ==> sections_spec(syllables_of(text)) == Seq::<(Seq<char>, SectionStyle)>::empty(),
{
    lemma_sections_len(syllables_of(text));
    if syllables_of(text).len() == 0 {
        assert(sections_spec(syllables_of(text)) =~= Seq::<(Seq<char>, SectionStyle)>::empty());
    }
}

/// The sections of a text, as strings with their styles.
pub open spec fn sections_view(v: Seq<(String, SectionStyle)>) -> Seq<(Seq<char>, SectionStyle)> {
    Seq::new(v.len(), |i: int| (v[i].0@, v[i].1))
}

/// The sections for the items of a selection: the selected one in style
/// `Selected`, the others in style `A`.
pub open spec fn selection_sections(sel: UserSelectionView) -> Seq<(Seq<char>, SectionStyle)> {
    Seq::new(
        sel.items.len(),
        |i: int|
            (sel.items[i], if i == sel.selected {
                SectionStyle::Selected
            } else {
                SectionStyle::A
            }),
    )
}

fn push_section(out: &mut Vec<(String, SectionStyle)>, text: String, style: SectionStyle)
    ensures
        sections_view(final(out)@) == sections_view(old(out)@).push((text@, style)),
{
    out.push((text, style));
    assert(sections_view(final(out)@) =~= sections_view(old(out)@).push((text@, style)));
}

fn append_sections(out: &mut Vec<(String, SectionStyle)>, other: &Vec<(String, SectionStyle)>)
    ensures
        sections_view(final(out)@) == sections_view(old(out)@) + sections_view(other@),
{
    let n = other.len();
    for i in 0..n
        invariant
            n == other@.len(),
            sections_view(out@) == sections_view(old(out)@) + sections_view(other@).take(i as int),
    {
        let text = other[i].0.clone();
        let style = other[i].1;
        push_section(out, text, style);
        assert(sections_view(other@).take(i + 1) == sections_view(other@).take(i as int).push(
            (text@, style),
        ));
    }
    assert(sections_view(other@).take(n as int) == sections_view(other@));
}

/// The text sections of `text`, syllable by syllable: words are separated
/// by whitespace and syllables by `-` (an escaped `\-` stays a hyphen inside
/// its syllable). The syllables alternate between styles `A` and `B`,
/// starting with `A`; between two words comes a space in style `A`.
pub fn build_text_sections_according_to_syllables(text: &str) -> (r: Vec<(String, SectionStyle)>)
    ensures
        sections_view(r@) == sections_spec(syllables_of(text@)),
{
    let chars = chars_of(text);
    let esc = vec!['\\', '-'];
    let mark = vec!['#', '#', '#', '#'];
    let dash = vec!['-'];
    assert(esc@ == escaped_hyphen());
    assert(mark@ == hyphen_mark());
    assert(dash@ == seq!['-']);
    let replaced = replace_chars(&chars, &esc, &mark);
    let ws = split_whitespace(&replaced);
    let ghost syl = syllables_of(text@);
    assert(ws.deep_view() == words(replace_all(text@, escaped_hyphen(), hyphen_mark())));
    assert forall|q: int| 0 <= q < ws@.len() implies #[trigger] ws.deep_view()[q] == ws@[q]@ by {
        lemma_vec_char_deep_view(&ws@[q]);
    }
    let mut out: Vec<(String, SectionStyle)> = Vec::new();
    let mut toggle = true;
    let nw = ws.len();
    assert(syl.take(0) =~= Seq::<Seq<Seq<char>>>::empty());
    assert(sections_view(out@) =~= Seq::<(Seq<char>, SectionStyle)>::empty());
    for j in 0..nw
        invariant
            nw == ws@.len(),
            syl == syllables_of(text@),
            syl.len() == nw,
            forall|q: int| 0 <= q < nw ==> #[trigger] syl[q] == split_on(ws@[q]@, '-').map_values(
                |p: Seq<char>| replace_all(p, hyphen_mark(), seq!['-']),
            ),
            mark@ == hyphen_mark(),
            dash@ == seq!['-'],
            sections_view(out@) == sections_spec(syl.take(j as int)),
            toggle == (syllable_count(syl.take(j as int)) % 2 == 0),
    {
        let ghost pre = syl.take(j as int);
        assert(syl.take(j + 1).drop_last() == pre);
        if j > 0 {
            let sp = vec![' '];
            assert(sp@ == seq![' ']);
            let space = string_of(&sp);
            push_section(&mut out, space, SectionStyle::A);
        }
        let ghost with_sep = sections_view(out@);
        assert(with_sep == sections_spec(pre) + (if pre.len() > 0 {
            seq![(seq![' '], SectionStyle::A)]
        } else {
            Seq::empty()
        }));
        let pieces = split_chars(&ws[j], '-');
        let np = pieces.len();
        let ghost w = syl[j as int];
        assert(w.len() == np);
        let ghost base = syllable_count(pre) as int;
        for k in 0..np
            invariant
                np == pieces@.len(),
                np == w.len(),
                w == pieces.deep_view().map_values(
                    |p: Seq<char>| replace_all(p, hyphen_mark(), seq!['-']),
                ),
                mark@ == hyphen_mark(),
                dash@ == seq!['-'],
                sections_view(out@) == with_sep + styled(w, base).take(k as int),
                toggle == ((base + k) % 2 == 0),
        {
            assert(pieces@[k as int]@ == pieces.deep_view()[k as int]);
            let piece = replace_chars(&pieces[k], &mark, &dash);
            let style = if toggle {
                SectionStyle::A
            } else {
                SectionStyle::B
            };
            toggle = !toggle;
            let t = string_of(&piece);
            push_section(&mut out, t, style);
            assert(styled(w, base).take(k + 1) =~= styled(w, base).take(k as int).push(
                (w[k as int], style),
            ));
        }
        assert(styled(w, base).take(np as int) == styled(w, base));
        assert(syl.take(j + 1).last() == w);
        assert(syllable_count(syl.take(j + 1)) == syllable_count(pre) + w.len());
    }
    assert(syl.take(nw as int) == syl);
    out
}

/// The text sections of a story message. When the message holds a
/// selection (split into the text before it, the selection and the text
/// after it), the texts around it are split into syllables and the items
/// come in between, the selected one in style `Selected` and the others in
/// style `A`; otherwise the whole `text` is split into syllables.
pub fn build_text_sections(decomposed: Option<(String, UserSelection, String)>, text: &str) -> (r: Vec<
    (String, SectionStyle),
>)
    ensures
        sections_view(r@) == match decomposed {
            Some((l, sel, rt)) => sections_spec(syllables_of(l@)) + selection_sections(sel@)
                + sections_spec(syllables_of(rt@)),
            None => sections_spec(syllables_of(text@)),
        },
{
    match decomposed {
        Some((ltext, selection, rtext)) => {
            let mut out = build_text_sections_according_to_syllables(ltext.as_str());
            let n = selection.selection_items.len();
            let ghost start = sections_view(out@);
            let ghost sel = selection@;
            for i in 0..n
                invariant
                    n == selection.selection_items@.len(),
                    sel == selection@,
                    sections_view(out@) == start + selection_sections(sel).take(i as int),
            {
                let item = selection.selection_items[i].clone();
                let style = if i == selection.selected_item {
                    SectionStyle::Selected
                } else {
                    SectionStyle::A
                };
                assert(selection.selection_items@[i as int]@ == sel.items[i as int]);
                push_section(&mut out, item, style);
                assert(selection_sections(sel).take(i + 1) =~= selection_sections(sel).take(
                    i as int,
                ).push((sel.items[i as int], style)));
            }
            assert(selection_sections(sel).take(n as int) == selection_sections(sel));
            let right = build_text_sections_according_to_syllables(rtext.as_str());
            append_sections(&mut out, &right);
            out
        },
        None => build_text_sections_according_to_syllables(text),
    }
}


/// `true` when `pat` occurs in `s` at position `i`.
pub open spec fn occurs_at(s: Seq<char>, pat: Seq<char>, i: int) -> bool {
    0 <= i && i + pat.len() <= s.len() && s.subrange(i, i + pat.len()) == pat
}

/// `true` when `i` is the first position where `pat` occurs in `s`.
pub open spec fn is_first_occurrence(s: Seq<char>, pat: Seq<char>, i: int) -> bool {
    occurs_at(s, pat, i) && forall|k: int| 0 <= k < i ==> !#[trigger] occurs_at(s, pat, k)
}

/// The first position where `pat` occurs in `s`, if it does.
pub open spec fn find_first(s: Seq<char>, pat: Seq<char>) -> Option<int> {
    if exists|i: int| is_first_occurrence(s, pat, i) {
        Some(choose|i: int| is_first_occurrence(s, pat, i))
    } else {
        None
    }
}

/// An occurrence with none before it is the first one.
proof fn lemma_first_found(s: Seq<char>, pat: Seq<char>, i: int)
    requires
        occurs_at(s, pat, i),
        forall|k: int| 0 <= k < i ==> !#[trigger] occurs_at(s, pat, k),
    ensures
        find_first(s, pat) == Some(i),
{
    assert(is_first_occurrence(s, pat, i));
    let j = choose|j: int| is_first_occurrence(s, pat, j);
    if j < i {
        assert(!occurs_at(s, pat, j));
    }
    if i < j {
        assert(!occurs_at(s, pat, i));
    }
}

/// The first position where `pat` occurs in `s`.
fn find_chars(s: &Vec<char>, pat: &Vec<char>) -> (r: Option<usize>)
    ensures
        match r {
            Some(i) => find_first(s@, pat@) == Some(i as int),
            None => find_first(s@, pat@) is None,
        },
{
    let n = s.len();
    let m = pat.len();
    if m > n {
        assert forall|i: int| !is_first_occurrence(s@, pat@, i) by {}
        return None;
    }
    for i in 0..n - m
        invariant
            n == s@.len(),
            m == pat@.len(),
            m <= n,
            forall|k: int| 0 <= k < i ==> !#[trigger] occurs_at(s@, pat@, k),
    {
        if matches_at(s, i, pat) {
            proof {
                lemma_first_found(s@, pat@, i as int);
            }
            return Some(i);
        }
    }
    let last = n - m;
    if matches_at(s, last, pat) {
        proof {
            lemma_first_found(s@, pat@, last as int);
        }
        return Some(last);
    }
    assert forall|j: int| !is_first_occurrence(s@, pat@, j) by {
        if 0 <= j <= last {
            assert(!occurs_at(s@, pat@, j));
        }
    }
    None
}

/// The characters that open the selection part of a story message.
pub open spec fn selection_open() -> Seq<char> {
    seq!['\\', '(']
}

/// The characters that close the selection part of a story message.
pub open spec fn selection_close() -> Seq<char> {
    seq!['\\', ')']
}

/// `true` when a message that opens a selection also closes it.
pub open spec fn selection_closed(text: Seq<char>) -> bool {
    match find_first(text, selection_open()) {
        Some(i) => find_first(text.skip(i + 2), selection_close()) is Some,
        None => true,
    }
}

/// The parts of a story message around its selection: the text before the
/// first `\(`, the selection between it and the next `\)` wrapped in braces
/// (a JSON object), and the text after that `\)`.
pub open spec fn selection_parts(text: Seq<char>) -> Option<(Seq<char>, Seq<char>, Seq<char>)> {
    match find_first(text, selection_open()) {
        Some(i) => {
            let rest = text.skip(i + 2);
            let k = find_first(rest, selection_close())->0;
            Some((text.take(i), seq!['{'] + rest.take(k) + seq!['}'], rest.skip(k + 2)))
        },
        None => None,
    }
}

fn subvec(v: &Vec<char>, from: usize, to: usize) -> (r: Vec<char>)
    requires
        from <= to <= v@.len(),
    ensures
        r@ == v@.subrange(from as int, to as int),
{
    let mut r: Vec<char> = Vec::new();
    for k in from..to
        invariant
            from <= to <= v@.len(),
            r@ == v@.subrange(from as int, k as int),
    {
        r.push(v[k]);
        assert(v@.subrange(from as int, k + 1) == v@.subrange(from as int, k as int).push(v@[k as int]));
    }
    r
}

/// Splits a story message around its selection: the text before `\(`, the
/// selection as a JSON object (what lies between `\(` and `\)`, wrapped in
/// braces) and the text after `\)`. `None` when the message has no
/// selection.
pub fn split_selection_msg(text: &str) -> (r: Option<(String, String, String)>)
    requires
        selection_closed(text@),
    ensures
        match r {
            Some((l, json, rt)) => selection_parts(text@) == Some((l@, json@, rt@)),
            None => selection_parts(text@) is None,
        },
{
    let chars = chars_of(text);
    let open = vec!['\\', '('];
    let close = vec!['\\', ')'];
    assert(open@ == selection_open());
    assert(close@ == selection_close());
    match find_chars(&chars, &open) {
        None => None,
        Some(i) => {
            let n = chars.len();
            let rest = subvec(&chars, i + 2, n);
            assert(rest@ == text@.skip(i + 2));
            let k = match find_chars(&rest, &close) {
                Some(k) => k,
                None => {
                    assert(false);
                    0
                },
            };
            assert(occurs_at(rest@, close@, k as int));
            let left = string_of_range(&chars, 0, i);
            assert(chars@.subrange(0, i as int) == text@.take(i as int));
            let mut inner: Vec<char> = Vec::new();
            inner.push('{');
            let mut q: usize = 0;
            while q < k
                invariant
                    q <= k,
                    k + 2 <= rest@.len(),
                    inner@ == seq!['{'] + rest@.take(q as int),
                decreases k - q,
            {
                inner.push(rest[q]);
                assert(rest@.take(q + 1) == rest@.take(q as int).push(rest@[q as int]));
                q = q + 1;
            }
            inner.push('}');
            let json = string_of(&inner);
            let right = string_of_range(&rest, k + 2, rest.len());
            assert(rest@.subrange(k + 2, rest@.len() as int) == rest@.skip(k + 2));
            Some((left, json, right))
        },
    }
}

/// `s` with each `{` written `\(` and each `}` written `\)`.
pub open spec fn frame_selection(json: Seq<char>) -> Seq<char> {
    replace_all(replace_all(json, seq!['{'], seq!['\\', '(']), seq!['}'], seq!['\\', ')'])
}

/// Writes a story message back from the text before a selection, the
/// selection as a JSON object and the text after it: the braces of the
/// JSON text become `\(` and `\)`.
pub fn compose_selection_msg(ltext: &str, selection_json: &str, rtext: &str) -> (r: String)
    ensures
        r@ == ltext@ + frame_selection(selection_json@) + rtext@,
{
    let json = chars_of(selection_json);
    let ob = vec!['{'];
    let cb = vec!['}'];
    let oe = vec!['\\', '('];
    let ce = vec!['\\', ')'];
    assert(ob@ == seq!['{'] && cb@ == seq!['}']);
    assert(oe@ == seq!['\\', '('] && ce@ == seq!['\\', ')']);
    let framed = replace_chars(&replace_chars(&json, &ob, &oe), &cb, &ce);
    let mut all = chars_of(ltext);
    let mut rest = chars_of(rtext);
    let mut mid = framed;
    all.append(&mut mid);
    all.append(&mut rest);
    string_of(&all)
}

/// `true` when the text holds no brace.
pub open spec fn no_braces(text: Seq<char>) -> bool {
    !text.contains('{') && !text.contains('}')
}

/// A JSON object whose inside holds no brace is framed by `\(` and `\)`.
proof fn lemma_frame_object(inner: Seq<char>)
    requires
        no_braces(inner),
    ensures
        frame_selection(seq!['{'] + inner + seq!['}']) == selection_open() + inner + selection_close(),
{
    let open = seq!['\\', '('];
    let close = seq!['\\', ')'];
    let json = seq!['{'] + inner + seq!['}'];
    lemma_replace_char_concat(seq!['{'] + inner, seq!['}'], '{', open);
    lemma_replace_char_concat(seq!['{'], inner, '{', open);
    lemma_replace_char_single('{', open);
    lemma_replace_char_absent(inner, '{', open);
    lemma_replace_char_absent(seq!['}'], '{', open);
    let once = open + inner + seq!['}'];
    assert(replace_all(json, seq!['{'], open) == once);
    lemma_replace_char_concat(open + inner, seq!['}'], '}', close);
    lemma_replace_char_concat(open, inner, '}', close);
    lemma_replace_char_single('}', close);
    lemma_replace_char_absent(inner, '}', close);
    lemma_replace_char_absent(open, '}', close);
}

/// A story message without `\(` has no selection.
pub proof fn lemma_no_selection(text: Seq<char>)
    requires
        forall|k: int| !#[trigger] occurs_at(text, selection_open(), k),
    ensures
        selection_parts(text) is None,
        selection_closed(text),
{
}

/// Writing a story message from the text before a selection, a selection
/// as a JSON object and the text after it, then splitting it around its
/// selection, gives the three parts back, when the text before holds no
/// `\(` and the inside of the JSON object holds no brace and no backslash.
pub proof fn lemma_compose_then_split(l: Seq<char>, inner: Seq<char>, r: Seq<char>)
    requires
        forall|k: int| !#[trigger] occurs_at(l, selection_open(), k),
        no_braces(inner),
        !inner.contains('\\'),
    ensures
        selection_closed(l + frame_selection(seq!['{'] + inner + seq!['}']) + r),
        selection_parts(l + frame_selection(seq!['{'] + inner + seq!['}']) + r) == Some(
            (l, seq!['{'] + inner + seq!['}'], r),
        ),
{
    let open = selection_open();
    let close = selection_close();
    lemma_frame_object(inner);
    let text = l + frame_selection(seq!['{'] + inner + seq!['}']) + r;
    assert(text =~= l + (open + (inner + (close + r))));
    let i = l.len() as int;
    assert(text.subrange(i, i + 2) =~= open);
    assert forall|k: int| 0 <= k < i implies !#[trigger] occurs_at(text, open, k) by {
        if k + 2 <= i {
            assert(text.subrange(k, k + 2) =~= l.subrange(k, k + 2));
            assert(!occurs_at(l, open, k));
        } else {
            assert(text[k + 1] == '\\');
            assert(text.subrange(k, k + 2)[1] == text[k + 1]);
        }
    }
    lemma_first_found(text, open, i);
    let rest = text.skip(i + 2);
    assert(rest =~= inner + (close + r));
    let n = inner.len() as int;
    assert(rest.subrange(n, n + 2) =~= close);
    assert forall|k: int| 0 <= k < n implies !#[trigger] occurs_at(rest, close, k) by {
        assert(rest[k] == inner[k]);
        assert(rest.subrange(k, k + 2)[0] == rest[k]);
    }
    lemma_first_found(rest, close, n);
    assert(text.take(i) =~= l);
    assert(rest.take(n) =~= inner);
    assert(rest.skip(n + 2) =~= r);
}

/// Splitting a story message around its selection and writing it back
/// from the three parts gives the message again, for a message without
/// braces.
pub proof fn lemma_split_then_compose(text: Seq<char>)
    requires
        selection_closed(text),
        no_braces(text),
    ensures
        selection_parts(text) matches Some((l, json, r)) ==> l + frame_selection(json) + r == text,
{
    if let Some(i) = find_first(text, selection_open()) {
        assert(is_first_occurrence(text, selection_open(), i));
        let rest = text.skip(i + 2);
        let k = find_first(rest, selection_close())->0;
        assert(is_first_occurrence(rest, selection_close(), k));
        let inner = rest.take(k);
        assert(!inner.contains('{') && !inner.contains('}')) by {
            if inner.contains('{') {
                let q = choose|q: int| 0 <= q < inner.len() && inner[q] == '{';
                assert(text[i + 2 + q] == '{');
            }
            if inner.contains('}') {
                let q = choose|q: int| 0 <= q < inner.len() && inner[q] == '}';
                assert(text[i + 2 + q] == '}');
            }
        }
        let open = selection_open();
        let close = selection_close();
        lemma_frame_object(inner);
        assert(text.subrange(i, i + 2) == open);
        assert(rest.subrange(k, k + 2) == close);
        assert(text.take(i) + (open + inner + close) + rest.skip(k + 2) =~= text);
    }
}

/// The bytes of a pixel given as `0xAARRGGBB`, in the order red, green,
/// blue, alpha.
pub open spec fn rgba_of(argb: u32) -> Seq<u8> {
    seq![
        ((argb >> 16u32) & 0xffu32) as u8,
        ((argb >> 8u32) & 0xffu32) as u8,
        (argb & 0xffu32) as u8,
        ((argb >> 24u32) & 0xffu32) as u8,
    ]
}

/// The bytes of the pixels, one pixel after the other.
pub open spec fn rgba_all(pixels: Seq<u32>) -> Seq<u8>
    decreases pixels.len(),
{
    if pixels.len() == 0 {
        Seq::empty()
    } else {
        rgba_all(pixels.drop_last()) + rgba_of(pixels.last())
    }
}

/// Turns the pixels drawn for the story box (alpha, red, green, blue in a
/// word each) into the bytes of an image (red, green, blue, alpha).
pub fn argb_to_rgba(argb_slice: &[u32]) -> (r: Vec<u8>)
    requires
        argb_slice@.len() * 4 <= usize::MAX,
    ensures
        r@ == rgba_all(argb_slice@),
{
    let mut out: Vec<u8> = Vec::new();
    for i in 0..argb_slice.len()
        invariant
            out@ == rgba_all(argb_slice@.take(i as int)),
    {
        let argb = argb_slice[i];
        let a = ((argb >> 24u32) & 0xffu32) as u8;
        let red = ((argb >> 16u32) & 0xffu32) as u8;
        let g = ((argb >> 8u32) & 0xffu32) as u8;
        let b = (argb & 0xffu32) as u8;
        let ghost before = out@;
        out.push(red);
        out.push(g);
        out.push(b);
        out.push(a);
        assert(argb_slice@.take(i + 1).drop_last() == argb_slice@.take(i as int));
        assert(argb_slice@.take(i + 1).last() == argb);
        assert(out@ == before + rgba_of(argb));
    }
    assert(argb_slice@.take(argb_slice@.len() as int) == argb_slice@);
    out
}

/// The sound played when the player moves in a selection.
#[derive(Debug, Clone, Copy, PartialEq, Eq, Structural)]
pub enum SelectionSound {
    /// A number item went up.
    Plus,
    /// A number item went down.
    Minus,
    /// Another item was selected.
    Change,
}

/// What a move in a selection does to the story message.
#[derive(Debug)]
pub enum SelectionChange {
    /// Nothing happens, and no further move is handled this frame.
    Stop,
    /// The message stays as it is; the sound plays.
    Sound(SelectionSound),
    /// The message gets this selection; the sound plays.
    Update(UserSelection, SelectionSound),
}

/// A selection change, as mathematical values.
pub enum SelectionChangeView {
    Stop,
    Sound(SelectionSound),
    Update(UserSelectionView, SelectionSound),
}

/// The change as mathematical values.
pub open spec fn change_view(c: SelectionChange) -> SelectionChangeView {
    match c {
        SelectionChange::Stop => SelectionChangeView::Stop,
        SelectionChange::Sound(s) => SelectionChangeView::Sound(s),
        SelectionChange::Update(sel, s) => SelectionChangeView::Update(sel@, s),
    }
}

/// A number item one up: 9 goes round to 0; an item that is not a number
/// stays as it is.
pub open spec fn item_up(item: Seq<char>) -> Seq<char> {
    match parse_usize_spec(item) {
        Some(n) => if n + 1 > 9 {
            seq!['0']
        } else {
            decimal(n + 1)
        },
        None => item,
    }
}

/// A number item one down: 0 goes round to 9; an item that is not a number
/// stays as it is.
pub open spec fn item_down(item: Seq<char>) -> Seq<char> {
    match parse_usize_spec(item) {
        Some(n) => if n == 0 {
            seq!['9']
        } else {
            decimal((n - 1) as nat)
        },
        None => item,
    }
}

/// `true` when every item holds a line break (items laid out one per line,
/// chosen with up and down rather than left and right).
pub open spec fn all_multiline(items: Seq<Seq<char>>) -> bool {
    forall|i: int| 0 <= i < items.len() ==> #[trigger] items[i].contains('\n')
}

/// The index before `i`, going round from the first to the last of `len`.
pub open spec fn prev_index(i: int, len: int) -> int {
    (if i == 0 {
        len
    } else {
        i
    }) - 1
}

/// The index after `i`, going round from the last of `len` to the first.
pub open spec fn next_index(i: int, len: int) -> int {
    if i + 1 == len {
        0
    } else {
        i + 1
    }
}

/// What a move does to the selection of the current message (`None` when
/// the message has no selection).
///
/// Up and down change the selected item when it is a number (up and down
/// by one, going round between 0 and 9) and, when all items are laid out one
/// per line, select the previous or next item. Left and right select the
/// previous or next item, going round, unless all items are laid out one per
/// line.
pub open spec fn selection_change_spec(parsed: Option<UserSelectionView>, direction: SelectionDirection) -> SelectionChangeView {
    match parsed {
        None => match direction {
            SelectionDirection::Up | SelectionDirection::Down => SelectionChangeView::Stop,
            _ => SelectionChangeView::Sound(SelectionSound::Change),
        },
        Some(sel) => {
            let len = sel.items.len() as int;
            let i = sel.selected;
            match direction {
                SelectionDirection::Up => if 0 <= i < len {
                    let items = sel.items.update(i, item_up(sel.items[i]));
                    let j = if all_multiline(items) {
                        prev_index(i, len)
                    } else {
                        i
                    };
                    SelectionChangeView::Update(UserSelectionView { items, selected: j }, SelectionSound::Plus)
                } else {
                    SelectionChangeView::Stop
                },
                SelectionDirection::Down => if 0 <= i < len {
                    let items = sel.items.update(i, item_down(sel.items[i]));
                    let j = if all_multiline(items) {
                        next_index(i, len)
                    } else {
                        i
                    };
                    SelectionChangeView::Update(UserSelectionView { items, selected: j }, SelectionSound::Minus)
                } else {
                    SelectionChangeView::Stop
                },
                SelectionDirection::Left => if all_multiline(sel.items) {
                    SelectionChangeView::Stop
                } else {
                    SelectionChangeView::Update(
                        UserSelectionView { items: sel.items, selected: prev_index(i, len) },
                        SelectionSound::Change,
                    )
                },
                SelectionDirection::Right => if all_multiline(sel.items) {
                    SelectionChangeView::Stop
                } else {
                    SelectionChangeView::Update(
                        UserSelectionView { items: sel.items, selected: next_index(i, len) },
                        SelectionSound::Change,
                    )
                },
            }
        },
    }
}

/// The selection after a move, when the move changes it.
pub open spec fn moved(sel: UserSelectionView, direction: SelectionDirection) -> UserSelectionView {
    match selection_change_spec(Some(sel), direction) {
        SelectionChangeView::Update(s, _) => s,
        _ => sel,
    }
}

/// In a selection laid out on one line, going right and then left comes
/// back to the same item, and so does going left and then right.
pub proof fn lemma_right_then_left(sel: UserSelectionView)
    requires
        0 <= sel.selected < sel.items.len(),
        !all_multiline(sel.items),
    ensures
        moved(moved(sel, SelectionDirection::Right), SelectionDirection::Left) == sel,
        moved(moved(sel, SelectionDirection::Left), SelectionDirection::Right) == sel,
{
}

/// Moving a one-digit number item up and then down gives the number back
/// (9 goes round to 0 and back), the same item staying selected.
pub proof fn lemma_digit_up_then_down(sel: UserSelectionView, d: nat)
    requires
        0 <= sel.selected < sel.items.len(),
        d <= 9,
        sel.items[sel.selected] == decimal(d),
    ensures
        moved(moved(sel, SelectionDirection::Up), SelectionDirection::Down) == sel,
{
    let i = sel.selected;
    lemma_parse_decimal(d);
    lemma_decimal_digits(d);
    let up = if d + 1 > 9 {
        seq!['0']
    } else {
        decimal(d + 1)
    };
    if d < 9 {
        lemma_parse_decimal(d + 1);
        lemma_decimal_digits(d + 1);
    } else {
        assert(seq!['0'] == decimal(0));
        lemma_parse_decimal(0);
        assert(seq!['9'] == decimal(9));
    }
    let items1 = sel.items.update(i, up);
    assert(!items1[i].contains('\n')) by {
        if items1[i].contains('\n') {
            let k = choose|k: int| 0 <= k < items1[i].len() && items1[i][k] == '\n';
            if d < 9 {
                assert(is_digit(decimal(d + 1)[k]));
            }
        }
    }
    let s1 = moved(sel, SelectionDirection::Up);
    assert(s1 == UserSelectionView { items: items1, selected: i });
    let items2 = items1.update(i, decimal(d));
    assert(!items2[i].contains('\n')) by {
        if items2[i].contains('\n') {
            let k = choose|k: int| 0 <= k < items2[i].len() && items2[i][k] == '\n';
            assert(is_digit(decimal(d)[k]));
        }
    }
    assert(items2 =~= sel.items);
}

/// The view of an optional selection.
pub open spec fn opt_selection_view(p: Option<UserSelection>) -> Option<UserSelectionView> {
    match p {
        Some(s) => Some(s@),
        None => None,
    }
}

/// `true` when the move stays within what a `usize` holds: a number item
/// at `usize::MAX` cannot go up, nor can the selection move right from item
/// `usize::MAX`.
pub open spec fn selection_change_fits(parsed: Option<UserSelectionView>, direction: SelectionDirection) -> bool {
    match parsed {
        Some(sel) => match direction {
            SelectionDirection::Up => 0 <= sel.selected < sel.items.len() ==> parse_usize_spec(
                sel.items[sel.selected],
            ) != Some(usize::MAX as nat),
            SelectionDirection::Right => !all_multiline(sel.items) ==> sel.selected < usize::MAX,
            _ => true,
        },
        None => true,
    }
}

fn all_items_multiline(items: &Vec<String>) -> (b: bool)
    ensures
        b == all_multiline(items.deep_view()),
{
    let n = items.len();
    for i in 0..n
        invariant
            n == items@.len(),
            forall|k: int| 0 <= k < i ==> #[trigger] items.deep_view()[k].contains('\n'),
    {
        if !contains_char(&items[i], '\n') {
            assert(!items.deep_view()[i as int].contains('\n'));
            return false;
        }
    }
    true
}

/// The item one up.
fn item_up_exec(item: &String) -> (r: String)
    requires
        parse_usize_spec(item@) != Some(usize::MAX as nat),
    ensures
        r@ == item_up(item@),
{
    let chars = chars_of(item.as_str());
    match parse_usize(&chars) {
        Some(n) => if n >= 9 {
            let z = vec!['0'];
            assert(z@ == seq!['0']);
            string_of(&z)
        } else {
            usize_to_string(n + 1)
        },
        None => item.clone(),
    }
}

/// The item one down.
fn item_down_exec(item: &String) -> (r: String)
    ensures
        r@ == item_down(item@),
{
    let chars = chars_of(item.as_str());
    match parse_usize(&chars) {
        Some(n) => if n == 0 {
            let nine = vec!['9'];
            assert(nine@ == seq!['9']);
            string_of(&nine)
        } else {
            usize_to_string(n - 1)
        },
        None => item.clone(),
    }
}

fn set_item(items: &mut Vec<String>, i: usize, item: String)
    requires
        i < old(items)@.len(),
    ensures
        final(items).deep_view() == old(items).deep_view().update(i as int, item@),
{
    let ghost iv = item@;
    items.set(i, item);
    assert(final(items).deep_view() =~= old(items).deep_view().update(i as int, iv));
}

/// Handles a move in the selection of the current story message, given the
/// selection that the message holds (`None` when it holds none).
pub fn change_selection(parsed: Option<UserSelection>, direction: SelectionDirection) -> (r: SelectionChange)
    requires
        selection_change_fits(opt_selection_view(parsed), direction),
    ensures
        change_view(r) == selection_change_spec(opt_selection_view(parsed), direction),
{
    match parsed {
        None => match direction {
            SelectionDirection::Up | SelectionDirection::Down => SelectionChange::Stop,
            _ => SelectionChange::Sound(SelectionSound::Change),
        },
        Some(selection) => {
            let ghost sel = selection@;
            let mut items = selection.selection_items;
            let i = selection.selected_item;
            let len = items.len();
            assert(items.deep_view() == sel.items);
            match direction {
                SelectionDirection::Up => {
                    if i >= len {
                        return SelectionChange::Stop;
                    }
                    assert(items@[i as int]@ == sel.items[i as int]);
                    let new_item = item_up_exec(&items[i]);
                    set_item(&mut items, i, new_item);
                    let j = if all_items_multiline(&items) {
                        (if i == 0 {
                            len
                        } else {
                            i
                        }) - 1
                    } else {
                        i
                    };
                    SelectionChange::Update(UserSelection::from_parts(items, j), SelectionSound::Plus)
                },
                SelectionDirection::Down => {
                    if i >= len {
                        return SelectionChange::Stop;
                    }
                    assert(items@[i as int]@ == sel.items[i as int]);
                    let new_item = item_down_exec(&items[i]);
                    set_item(&mut items, i, new_item);
                    let j = if all_items_multiline(&items) {
                        if i + 1 == len {
                            0
                        } else {
                            i + 1
                        }
                    } else {
                        i
                    };
                    SelectionChange::Update(UserSelection::from_parts(items, j), SelectionSound::Minus)
                },
                SelectionDirection::Left => {
                    if all_items_multiline(&items) {
                        return SelectionChange::Stop;
                    }
                    let j = (if i == 0 {
                        len
                    } else {
                        i
                    }) - 1;
                    SelectionChange::Update(UserSelection::from_parts(items, j), SelectionSound::Change)
                },
                SelectionDirection::Right => {
                    if all_items_multiline(&items) {
                        return SelectionChange::Stop;
                    }
                    let j = if i + 1 == len {
                        0
                    } else {
                        i + 1
                    };
                    SelectionChange::Update(UserSelection::from_parts(items, j), SelectionSound::Change)
                },
            }
        },
    }
}

/// The state of the story box after a story message event: shown for a
/// message to display, hidden on request, unchanged when going to the next
/// message.
pub fn display_or_hide_messages(current: TextSyllableState, event: StoryMessageKind) -> (s: TextSyllableState)
    ensures
        s == match event {
            StoryMessageKind::Display => TextSyllableState::Visible,
            StoryMessageKind::Hide => TextSyllableState::Hidden,
            StoryMessageKind::Next => current,
        },
{
    match event {
        StoryMessageKind::Display => TextSyllableState::Visible,
        StoryMessageKind::Hide => TextSyllableState::Hidden,
        StoryMessageKind::Next => current,
    }
}

/// The kind of a story message event.
#[derive(Debug, Clone, Copy, PartialEq, Eq, Structural)]
pub enum StoryMessageKind {
    /// Messages to display.
    Display,
    /// Hide the story box.
    Hide,
    /// Go to the next message.
    Next,
}

} // verus!
