use vstd::prelude::*;

verus! {

/// `String::push` appends one character to the end of the string.
pub assume_specification[ String::push ](string: &mut String, ch: char)
    ensures
        final(string)@ == old(string)@.push(ch),
;

/// The characters of `s`, in order.
pub fn chars_of(s: &str) -> (v: Vec<char>)
    ensures
        v@ == s@,
{
    let n = s.unicode_len();
    let mut v: Vec<char> = Vec::new();
    for i in 0..n
        invariant
            n == s@.len(),
            v@ == s@.take(i as int),
    {
        v.push(s.get_char(i));
        assert(s@.take(i + 1) == s@.take(i as int).push(s@[i as int]));
    }
    assert(s@.take(n as int) == s@);
    v
}

/// A string made of the characters of `chars[from..to]`.
pub fn string_of_range(chars: &Vec<char>, from: usize, to: usize) -> (s: String)
    requires
        from <= to <= chars@.len(),
    ensures
        s@ == chars@.subrange(from as int, to as int),
{
    let mut s = String::new();
    let mut i = from;
    while i < to
        invariant
            from <= i <= to <= chars@.len(),
            s@ == chars@.subrange(from as int, i as int),
        decreases to - i,
    {
        s.push(chars[i]);
        assert(chars@.subrange(from as int, i + 1) == chars@.subrange(from as int, i as int).push(
            chars@[i as int],
        ));
        i = i + 1;
    }
    s
}

/// A string made of the characters of `chars`.
pub fn string_of(chars: &Vec<char>) -> (s: String)
    ensures
        s@ == chars@,
{
    let s = string_of_range(chars, 0, chars.len());
    assert(chars@.subrange(0, chars@.len() as int) == chars@);
    s
}

/// The pieces of `s` between the occurrences of `sep`, in order. There is
/// always one more piece than there are separators; pieces may be empty.
pub open spec fn split_on(s: Seq<char>, sep: char) -> Seq<Seq<char>>
    decreases s.len(),
{
    if s.len() == 0 {
        seq![Seq::<char>::empty()]
    } else {
        let pre = split_on(s.drop_last(), sep);
        if s.last() == sep {
            pre.push(Seq::<char>::empty())
        } else {
            pre.update(pre.len() - 1, pre.last().push(s.last()))
        }
    }
}

/// There is always at least one piece.
pub proof fn lemma_split_on_nonempty(s: Seq<char>, sep: char)
    ensures
        split_on(s, sep).len() >= 1,
    decreases s.len(),
{
    if s.len() > 0 {
        lemma_split_on_nonempty(s.drop_last(), sep);
    }
}

/// There are at most one more pieces than characters, and no piece is
/// longer than the whole.
pub proof fn lemma_split_on_bounds(s: Seq<char>, sep: char)
    ensures
        split_on(s, sep).len() <= s.len() + 1,
        forall|j: int| 0 <= j < split_on(s, sep).len() ==> #[trigger] split_on(s, sep)[j].len() <= s.len(),
    decreases s.len(),
{
    if s.len() > 0 {
        lemma_split_on_bounds(s.drop_last(), sep);
        lemma_split_on_nonempty(s.drop_last(), sep);
    }
}

/// The deep view of characters is their view.
pub proof fn lemma_vec_char_deep_view(v: &Vec<char>)
    ensures
        v.deep_view() == v@,
{
    assert(v.deep_view() =~= v@);
}

/// Every character of a piece of `split_on(s, sep)` is a character of `s`
/// other than `sep`.
pub proof fn lemma_split_on_chars(s: Seq<char>, sep: char)
    ensures
        forall|j: int, i: int|
            0 <= j < split_on(s, sep).len() && 0 <= i < split_on(s, sep)[j].len() ==> {
                &&& #[trigger] split_on(s, sep)[j][i] != sep
                &&& s.contains(split_on(s, sep)[j][i])
            },
    decreases s.len(),
{
    if s.len() > 0 {
        let pre = s.drop_last();
        lemma_split_on_chars(pre, sep);
        lemma_split_on_nonempty(pre, sep);
        let ps = split_on(pre, sep);
        assert forall|j: int, i: int|
            0 <= j < split_on(s, sep).len() && 0 <= i < split_on(s, sep)[j].len() implies {
                &&& #[trigger] split_on(s, sep)[j][i] != sep
                &&& s.contains(split_on(s, sep)[j][i])
            } by {
            if s.last() == sep {
                if j < ps.len() {
                    let k = choose|k: int| 0 <= k < pre.len() && pre[k] == ps[j][i];
                    assert(s[k] == ps[j][i]);
                }
            } else {
                if j < ps.len() - 1 || i < ps[j].len() {
                    let k = choose|k: int| 0 <= k < pre.len() && pre[k] == ps[j][i];
                    assert(s[k] == ps[j][i]);
                } else {
                    assert(split_on(s, sep)[j][i] == s.last());
                    assert(s[s.len() - 1] == s.last());
                }
            }
        }
    }
}

/// Every character of `s` other than `sep` is a character of some piece of
/// `split_on(s, sep)`.
pub proof fn lemma_split_on_covers(s: Seq<char>, sep: char, k: int)
    requires
        0 <= k < s.len(),
        s[k] != sep,
    ensures
        exists|j: int, i: int|
            0 <= j < split_on(s, sep).len() && 0 <= i < split_on(s, sep)[j].len()
                && #[trigger] split_on(s, sep)[j][i] == s[k],
    decreases s.len(),
{
    let pre = s.drop_last();
    let ps = split_on(pre, sep);
    lemma_split_on_nonempty(pre, sep);
    if k == s.len() - 1 {
        let j = ps.len() - 1;
        let i = ps.last().len() as int;
        assert(split_on(s, sep)[j][i] == s[k]);
    } else {
        lemma_split_on_covers(pre, sep, k);
        let (j, i) = choose|j: int, i: int|
            0 <= j < ps.len() && 0 <= i < ps[j].len() && #[trigger] ps[j][i] == pre[k];
        assert(split_on(s, sep)[j][i] == s[k]);
    }
}

/// Splits `chars` at each occurrence of `sep`, as `str::split` does.
pub fn split_chars(chars: &Vec<char>, sep: char) -> (pieces: Vec<Vec<char>>)
    ensures
        pieces.deep_view() == split_on(chars@, sep),
{
    let mut pieces: Vec<Vec<char>> = Vec::new();
    let mut current: Vec<char> = Vec::new();
    let n = chars.len();
    for i in 0..n
        invariant
            n == chars@.len(),
            pieces.deep_view().push(current@) == split_on(chars@.take(i as int), sep),
    {
        let c = chars[i];
        let ghost pre = split_on(chars@.take(i as int), sep);
        assert(chars@.take(i + 1).drop_last() == chars@.take(i as int));
        proof {
            lemma_split_on_nonempty(chars@.take(i as int), sep);
        }
        if c == sep {
            let ghost old_pieces = pieces.deep_view();
            let ghost old_current = current@;
            proof {
                lemma_vec_char_deep_view(&current);
            }
            pieces.push(current);
            current = Vec::new();
            assert(pieces.deep_view() =~= old_pieces.push(old_current));
            assert(pieces.deep_view().push(current@) =~= pre.push(Seq::<char>::empty()));
        } else {
            current.push(c);
            assert(pieces.deep_view().push(current@) == pre.update(
                pre.len() - 1,
                pre.last().push(c),
            ));
        }
    }
    assert(chars@.take(n as int) == chars@);
    let ghost old_pieces = pieces.deep_view();
    let ghost old_current = current@;
    proof {
        lemma_vec_char_deep_view(&current);
    }
    pieces.push(current);
    assert(pieces.deep_view() =~= old_pieces.push(old_current));
    pieces
}


/// The characters that `char::is_whitespace` accepts: those with the
/// Unicode `White_Space` property.
pub open spec fn is_ws(c: char) -> bool {
    let u = c as u32;
    ||| 0x9 <= u <= 0xd
    ||| u == 0x20
    ||| u == 0x85
    ||| u == 0xa0
    ||| u == 0x1680
    ||| 0x2000 <= u <= 0x200a
    ||| u == 0x2028
    ||| u == 0x2029
    ||| u == 0x202f
    ||| u == 0x205f
    ||| u == 0x3000
}

/// `true` for a character with the Unicode `White_Space` property.
pub fn is_whitespace(c: char) -> (b: bool)
    ensures
        b == is_ws(c),
{
    let u = c as u32;
    (0x9 <= u && u <= 0xd) || u == 0x20 || u == 0x85 || u == 0xa0 || u == 0x1680 || (0x2000 <= u
        && u <= 0x200a) || u == 0x2028 || u == 0x2029 || u == 0x202f || u == 0x205f || u == 0x3000
}

/// The pieces of `s` between whitespace characters, empty pieces included.
pub open spec fn split_ws(s: Seq<char>) -> Seq<Seq<char>>
    decreases s.len(),
{
    if s.len() == 0 {
        seq![Seq::<char>::empty()]
    } else {
        let pre = split_ws(s.drop_last());
        if is_ws(s.last()) {
            pre.push(Seq::<char>::empty())
        } else {
            pre.update(pre.len() - 1, pre.last().push(s.last()))
        }
    }
}

/// Splitting at whitespace always gives at least one piece.
pub proof fn lemma_split_ws_nonempty(s: Seq<char>)
    ensures
        split_ws(s).len() >= 1,
    decreases s.len(),
{
    if s.len() > 0 {
        lemma_split_ws_nonempty(s.drop_last());
    }
}

/// `true` for a piece that has at least one character.
pub open spec fn non_empty(w: Seq<char>) -> bool {
    w.len() > 0
}

/// The words of `s`, as `str::split_whitespace` gives them: the non-empty
/// pieces between whitespace characters.
pub open spec fn words(s: Seq<char>) -> Seq<Seq<char>> {
    split_ws(s).filter(|w: Seq<char>| non_empty(w))
}

/// The words of `chars`, in order.
pub fn split_whitespace(chars: &Vec<char>) -> (ws: Vec<Vec<char>>)
    ensures
        ws.deep_view() == words(chars@),
{
    let ghost pred = |w: Seq<char>| non_empty(w);
    let mut done: Vec<Vec<char>> = Vec::new();
    let mut current: Vec<char> = Vec::new();
    let n = chars.len();
    for i in 0..n
        invariant
            n == chars@.len(),
            pred == (|w: Seq<char>| non_empty(w)),
            split_ws(chars@.take(i as int)).len() >= 1,
            done.deep_view() == split_ws(chars@.take(i as int)).drop_last().filter(pred),
            current@ == split_ws(chars@.take(i as int)).last(),
    {
        let c = chars[i];
        let ghost pre = split_ws(chars@.take(i as int));
        assert(chars@.take(i + 1).drop_last() == chars@.take(i as int));
        if is_whitespace(c) {
            assert(split_ws(chars@.take(i + 1)) == pre.push(Seq::<char>::empty()));
            assert(split_ws(chars@.take(i + 1)).drop_last() == pre);
            assert(pre == pre.drop_last().push(pre.last()));
            proof {
                pre.drop_last().lemma_filter_push(pre.last(), pred);
            }
            if current.len() > 0 {
                let ghost old_done = done.deep_view();
                proof {
                    lemma_vec_char_deep_view(&current);
                }
                done.push(current);
                assert(done.deep_view() =~= old_done.push(pre.last()));
            }
            current = Vec::new();
        } else {
            current.push(c);
            assert(split_ws(chars@.take(i + 1)) == pre.update(pre.len() - 1, pre.last().push(c)));
            assert(split_ws(chars@.take(i + 1)).drop_last() =~= pre.drop_last());
        }
    }
    assert(chars@.take(n as int) == chars@);
    let ghost all = split_ws(chars@);
    assert(all == all.drop_last().push(all.last()));
    proof {
        all.drop_last().lemma_filter_push(all.last(), pred);
    }
    if current.len() > 0 {
        let ghost old_done = done.deep_view();
        proof {
            lemma_vec_char_deep_view(&current);
        }
        done.push(current);
        assert(done.deep_view() =~= old_done.push(all.last()));
    }
    done
}

/// `s` with each occurrence of `pat` replaced by `rep`, scanning from the
/// left without overlaps, as `str::replace` does for a non-empty pattern.
pub open spec fn replace_all(s: Seq<char>, pat: Seq<char>, rep: Seq<char>) -> Seq<char>
    decreases s.len(),
{
    if pat.len() == 0 || s.len() < pat.len() {
        s
    } else if s.take(pat.len() as int) == pat {
        rep + replace_all(s.skip(pat.len() as int), pat, rep)
    } else {
        seq![s[0]] + replace_all(s.skip(1), pat, rep)
    }
}

/// Replacing a single character works on each part of a concatenation.
pub proof fn lemma_replace_char_concat(a: Seq<char>, b: Seq<char>, c: char, rep: Seq<char>)
    ensures
        replace_all(a + b, seq![c], rep) == replace_all(a, seq![c], rep) + replace_all(b, seq![c], rep),
    decreases a.len(),
{
    let pat = seq![c];
    let s = a + b;
    if a.len() == 0 {
        assert(s =~= b);
        assert(replace_all(a, pat, rep) == a);
        assert(replace_all(a, pat, rep) + replace_all(b, pat, rep) =~= replace_all(b, pat, rep));
    } else {
        lemma_replace_char_concat(a.skip(1), b, c, rep);
        assert(s.skip(1) =~= a.skip(1) + b);
        assert(s.take(1) =~= a.take(1));
        assert(s[0] == a[0]);
        if a.take(1) == pat {
            assert(replace_all(s, pat, rep) == rep + replace_all(s.skip(1), pat, rep));
            assert(replace_all(a, pat, rep) == rep + replace_all(a.skip(1), pat, rep));
            assert(rep + (replace_all(a.skip(1), pat, rep) + replace_all(b, pat, rep)) =~= (rep
                + replace_all(a.skip(1), pat, rep)) + replace_all(b, pat, rep));
        } else {
            assert(replace_all(s, pat, rep) == seq![s[0]] + replace_all(s.skip(1), pat, rep));
            assert(replace_all(a, pat, rep) == seq![a[0]] + replace_all(a.skip(1), pat, rep));
            assert(seq![a[0]] + (replace_all(a.skip(1), pat, rep) + replace_all(b, pat, rep)) =~= (
            seq![a[0]] + replace_all(a.skip(1), pat, rep)) + replace_all(b, pat, rep));
        }
    }
}

/// Replacing a character that does not occur changes nothing.
pub proof fn lemma_replace_char_absent(s: Seq<char>, c: char, rep: Seq<char>)
    requires
        !s.contains(c),
    ensures
        replace_all(s, seq![c], rep) == s,
    decreases s.len(),
{
    if s.len() > 0 {
        assert(s.take(1) != seq![c]) by {
            if s.take(1) == seq![c] {
                assert(s[0] == s.take(1)[0]);
            }
        }
        assert(!s.skip(1).contains(c)) by {
            if s.skip(1).contains(c) {
                let k = choose|k: int| 0 <= k < s.skip(1).len() && s.skip(1)[k] == c;
                assert(s[k + 1] == c);
            }
        }
        lemma_replace_char_absent(s.skip(1), c, rep);
        assert(seq![s[0]] + s.skip(1) =~= s);
    }
}

/// Replacing a character in the string made of that character alone.
pub proof fn lemma_replace_char_single(c: char, rep: Seq<char>)
    ensures
        replace_all(seq![c], seq![c], rep) == rep,
{
    let s = seq![c];
    assert(s.take(1) =~= s);
    assert(s.skip(1) =~= Seq::<char>::empty());
    assert(replace_all(Seq::<char>::empty(), seq![c], rep) == Seq::<char>::empty());
    assert(rep + Seq::<char>::empty() =~= rep);
}

/// `true` when `pat` occurs in `s` at position `i`.
pub fn matches_at(s: &Vec<char>, i: usize, pat: &Vec<char>) -> (b: bool)
    requires
        i + pat@.len() <= s@.len(),
    ensures
        b == (s@.subrange(i as int, i + pat@.len()) == pat@),
{
    let m = pat.len();
    let n = s.len();
    for k in 0..m
        invariant
            m == pat@.len(),
            n == s@.len(),
            i + m <= n,
            forall|q: int| 0 <= q < k ==> s@[i + q] == pat@[q],
    {
        if s[i + k] != pat[k] {
            assert(s@.subrange(i as int, i + pat@.len())[k as int] != pat@[k as int]);
            return false;
        }
    }
    assert(s@.subrange(i as int, i + pat@.len()) =~= pat@);
    true
}

/// `s` with each occurrence of the non-empty pattern `pat` replaced by `rep`.
pub fn replace_chars(s: &Vec<char>, pat: &Vec<char>, rep: &Vec<char>) -> (r: Vec<char>)
    requires
        pat@.len() > 0,
    ensures
        r@ == replace_all(s@, pat@, rep@),
{
    let mut out: Vec<char> = Vec::new();
    let mut i: usize = 0;
    let n = s.len();
    let m = pat.len();
    assert(s@.skip(0) == s@);
    assert(out@ + s@ == s@);
    while i < n
        invariant
            n == s@.len(),
            m == pat@.len(),
            m > 0,
            i <= n,
            out@ + replace_all(s@.skip(i as int), pat@, rep@) == replace_all(s@, pat@, rep@),
        decreases n - i,
    {
        let ghost rest = s@.skip(i as int);
        if n - i < m {
            assert(replace_all(rest, pat@, rep@) == rest);
            let mut k = i;
            while k < n
                invariant
                    i <= k <= n,
                    n == s@.len(),
                    out@ + s@.subrange(k as int, n as int) == replace_all(s@, pat@, rep@),
                decreases n - k,
            {
                assert(s@.subrange(k as int, n as int) == seq![s@[k as int]] + s@.subrange(
                    k + 1,
                    n as int,
                ));
                out.push(s[k]);
                assert(out@ + s@.subrange(k + 1, n as int) =~= replace_all(s@, pat@, rep@));
                k = k + 1;
            }
            assert(s@.subrange(n as int, n as int) =~= Seq::<char>::empty());
            assert(out@ =~= replace_all(s@, pat@, rep@));
            return out;
        }
        assert(rest.take(m as int) == s@.subrange(i as int, i + m));
        if matches_at(s, i, pat) {
            assert(replace_all(rest, pat@, rep@) == rep@ + replace_all(rest.skip(m as int), pat@, rep@));
            assert(rest.skip(m as int) == s@.skip(i + m));
            let ghost old_out = out@;
            let rl = rep.len();
            for q in 0..rl
                invariant
                    rl == rep@.len(),
                    out@ == old_out + rep@.take(q as int),
            {
                out.push(rep[q]);
                assert(rep@.take(q + 1) == rep@.take(q as int).push(rep@[q as int]));
            }
            assert(rep@.take(rl as int) == rep@);
            assert(out@ + replace_all(s@.skip(i + m), pat@, rep@) =~= old_out + (rep@ + replace_all(
                s@.skip(i + m),
                pat@,
                rep@,
            )));
            i = i + m;
        } else {
            assert(replace_all(rest, pat@, rep@) == seq![rest[0]] + replace_all(rest.skip(1), pat@, rep@));
            assert(rest.skip(1) == s@.skip(i + 1));
            let ghost old_out = out@;
            out.push(s[i]);
            assert(out@ + replace_all(s@.skip(i + 1), pat@, rep@) =~= old_out + (seq![rest[0]]
                + replace_all(s@.skip(i + 1), pat@, rep@)));
            i = i + 1;
        }
    }
    assert(s@.skip(n as int) =~= Seq::<char>::empty());
    assert(out@ + Seq::<char>::empty() =~= out@);
    out
}


/// `true` for an ASCII decimal digit.
pub open spec fn is_digit(c: char) -> bool {
    '0' <= c <= '9'
}

/// The value of a decimal digit.
pub open spec fn digit_value(c: char) -> nat {
    (c as u32 - '0' as u32) as nat
}

/// The number that a sequence of decimal digits writes.
pub open spec fn digits_value(s: Seq<char>) -> nat
    decreases s.len(),
{
    if s.len() == 0 {
        0
    } else {
        digits_value(s.drop_last()) * 10 + digit_value(s.last())
    }
}

/// `true` when every character is a decimal digit.
pub open spec fn all_digits(s: Seq<char>) -> bool {
    forall|i: int| 0 <= i < s.len() ==> #[trigger] is_digit(s[i])
}

/// What `usize::from_str` gives: an optional `+` followed by at least one
/// decimal digit, of a value that fits in a `usize`.
pub open spec fn parse_usize_spec(s: Seq<char>) -> Option<nat> {
    let d = if s.len() > 0 && s[0] == '+' {
        s.drop_first()
    } else {
        s
    };
    if d.len() > 0 && all_digits(d) && digits_value(d) <= usize::MAX {
        Some(digits_value(d))
    } else {
        None
    }
}

/// More digits never give a smaller number.
pub proof fn lemma_digits_value_monotone(s: Seq<char>, j: int, k: int)
    requires
        0 <= j <= k <= s.len(),
    ensures
        digits_value(s.take(j)) <= digits_value(s.take(k)),
    decreases k - j,
{
    if j < k {
        lemma_digits_value_monotone(s, j, k - 1);
        assert(s.take(k).drop_last() == s.take(k - 1));
    }
}

/// Parses a decimal number, as `usize::from_str` does.
pub fn parse_usize(s: &Vec<char>) -> (r: Option<usize>)
    ensures
        match r {
            Some(v) => parse_usize_spec(s@) == Some(v as nat),
            None => parse_usize_spec(s@) is None,
        },
{
    let n = s.len();
    let start: usize = if n > 0 && s[0] == '+' {
        1
    } else {
        0
    };
    let ghost d = s@.skip(start as int);
    assert(d == (if s@.len() > 0 && s@[0] == '+' {
        s@.drop_first()
    } else {
        s@
    }));
    if start == n {
        return None;
    }
    let mut value: usize = 0;
    let mut i = start;
    while i < n
        invariant
            n == s@.len(),
            start <= i <= n,
            d == s@.skip(start as int),
            d == (if s@.len() > 0 && s@[0] == '+' {
                s@.drop_first()
            } else {
                s@
            }),
            value as nat == digits_value(d.take(i - start)),
            all_digits(d.take(i - start)),
        decreases n - i,
    {
        let c = s[i];
        assert(d[i - start] == c);
        assert(d.take(i - start + 1).drop_last() == d.take(i - start));
        if !('0' <= c && c <= '9') {
            assert(!is_digit(d[i - start]));
            assert(!all_digits(d));
            assert(parse_usize_spec(s@) is None);
            return None;
        }
        let digit = (c as u32 - '0' as u32) as usize;
        assert(digits_value(d.take(i - start + 1)) == value * 10 + digit);
        if value > (usize::MAX - digit) / 10 {
            assert(value * 10 + digit > usize::MAX) by (nonlinear_arith)
                requires
                    value > (usize::MAX - digit) / 10,
                    digit <= 9,
            ;
            proof {
                lemma_digits_value_monotone(d, i - start + 1, d.len() as int);
                assert(d.take(d.len() as int) == d);
            }
            assert(parse_usize_spec(s@) is None);
            return None;
        }
        assert(value * 10 + digit <= usize::MAX) by (nonlinear_arith)
            requires
                value <= (usize::MAX - digit) / 10,
                digit <= 9,
        ;
        value = value * 10 + digit;
        i = i + 1;
        assert(all_digits(d.take(i - start))) by {
            assert forall|q: int| 0 <= q < i - start implies #[trigger] is_digit(d.take(i - start)[q]) by {
                if q < i - start - 1 {
                    assert(d.take(i - start)[q] == d.take(i - start - 1)[q]);
                }
            }
        }
    }
    assert(d.take(n - start) == d);
    Some(value)
}

/// The decimal digit character for a value below ten.
pub open spec fn digit_char(v: nat) -> char {
    if v == 0 {
        '0'
    } else if v == 1 {
        '1'
    } else if v == 2 {
        '2'
    } else if v == 3 {
        '3'
    } else if v == 4 {
        '4'
    } else if v == 5 {
        '5'
    } else if v == 6 {
        '6'
    } else if v == 7 {
        '7'
    } else if v == 8 {
        '8'
    } else {
        '9'
    }
}

/// The decimal writing of `n`, without leading zeros, as `to_string` gives
/// it for an unsigned integer.
pub open spec fn decimal(n: nat) -> Seq<char>
    decreases n,
{
    if n < 10 {
        seq![digit_char(n)]
    } else {
        decimal(n / 10).push(digit_char(n % 10))
    }
}

/// The digit character of a value below ten is a digit of that value.
pub proof fn lemma_digit_char(v: nat)
    requires
        v < 10,
    ensures
        is_digit(digit_char(v)),
        digit_value(digit_char(v)) == v,
{
}

/// The decimal writing of `n` is a non-empty string of digits that writes
/// `n`.
pub proof fn lemma_decimal_digits(n: nat)
    ensures
        decimal(n).len() > 0,
        all_digits(decimal(n)),
        digits_value(decimal(n)) == n,
    decreases n,
{
    if n >= 10 {
        lemma_decimal_digits(n / 10);
        lemma_digit_char(n % 10);
        let d = decimal(n);
        assert(d.drop_last() == decimal(n / 10));
        assert(n == (n / 10) * 10 + n % 10) by (nonlinear_arith);
        assert(d.last() == digit_char(n % 10));
        assert(digits_value(d) == digits_value(decimal(n / 10)) * 10 + digit_value(digit_char(n % 10)));
        assert(digits_value(d) == n);
        assert forall|i: int| 0 <= i < d.len() implies #[trigger] is_digit(d[i]) by {
            if i < d.len() - 1 {
                assert(d[i] == decimal(n / 10)[i]);
            }
        }
    } else {
        lemma_digit_char(n);
        assert(decimal(n).drop_last() =~= Seq::<char>::empty());
        assert(digits_value(Seq::<char>::empty()) == 0);
        assert(digits_value(decimal(n)) == n);
    }
}

/// Reading back the decimal writing of a number that fits in a `usize`
/// gives the number.
pub proof fn lemma_parse_decimal(n: nat)
    requires
        n <= usize::MAX,
    ensures
        parse_usize_spec(decimal(n)) == Some(n),
{
    lemma_decimal_digits(n);
    assert(is_digit(decimal(n)[0]));
    if n < 10 {
        lemma_digit_char(n);
    }
}

fn push_digit(out: &mut Vec<char>, v: usize)
    requires
        v < 10,
    ensures
        final(out)@ == old(out)@.push(digit_char(v as nat)),
{
    let c = if v == 0 {
        '0'
    } else if v == 1 {
        '1'
    } else if v == 2 {
        '2'
    } else if v == 3 {
        '3'
    } else if v == 4 {
        '4'
    } else if v == 5 {
        '5'
    } else if v == 6 {
        '6'
    } else if v == 7 {
        '7'
    } else if v == 8 {
        '8'
    } else {
        '9'
    };
    out.push(c);
}

/// Appends the decimal writing of `n` to `out`.
pub fn push_decimal(out: &mut Vec<char>, n: usize)
    ensures
        final(out)@ == old(out)@ + decimal(n as nat),
    decreases n,
{
    if n >= 10 {
        push_decimal(out, n / 10);
    }
    push_digit(out, n % 10);
    assert(old(out)@ + decimal(n as nat) =~= final(out)@) by {
        if n >= 10 {
            assert(decimal(n as nat) == decimal((n / 10) as nat).push(digit_char((n % 10) as nat)));
        }
    }
}

/// The decimal writing of `n`.
pub fn usize_to_string(n: usize) -> (s: String)
    ensures
        s@ == decimal(n as nat),
{
    let mut v: Vec<char> = Vec::new();
    push_decimal(&mut v, n);
    assert(Seq::<char>::empty() + decimal(n as nat) == decimal(n as nat));
    string_of(&v)
}

/// `true` when `c` occurs in `s`.
pub fn contains_char(s: &String, c: char) -> (b: bool)
    ensures
        b == s@.contains(c),
{
    let chars = chars_of(s.as_str());
    let n = chars.len();
    for i in 0..n
        invariant
            n == chars@.len(),
            chars@ == s@,
            forall|k: int| 0 <= k < i ==> chars@[k] != c,
    {
        if chars[i] == c {
            assert(s@[i as int] == c);
            return true;
        }
    }
    false
}

/// `s` without its leading whitespace.
pub open spec fn trim_start(s: Seq<char>) -> Seq<char>
    decreases s.len(),
{
    if s.len() > 0 && is_ws(s[0]) {
        trim_start(s.drop_first())
    } else {
        s
    }
}

/// `s` without its trailing whitespace.
pub open spec fn trim_end(s: Seq<char>) -> Seq<char>
    decreases s.len(),
{
    if s.len() > 0 && is_ws(s.last()) {
        trim_end(s.drop_last())
    } else {
        s
    }
}

/// `s` without leading and trailing whitespace, as `str::trim` gives it.
pub open spec fn trim(s: Seq<char>) -> Seq<char> {
    trim_end(trim_start(s))
}

/// The characters of `s` without leading and trailing whitespace.
pub fn trim_chars(s: &Vec<char>) -> (r: Vec<char>)
    ensures
        r@ == trim(s@),
{
    let n = s.len();
    let mut a: usize = 0;
    assert(s@.skip(0) == s@);
    while a < n && is_whitespace(s[a])
        invariant
            n == s@.len(),
            a <= n,
            trim_start(s@) == trim_start(s@.skip(a as int)),
        decreases n - a,
    {
        assert(s@.skip(a as int).drop_first() == s@.skip(a + 1));
        a = a + 1;
    }
    assert(trim_start(s@.skip(a as int)) == s@.skip(a as int));
    let mut b: usize = n;
    while b > a && is_whitespace(s[b - 1])
        invariant
            n == s@.len(),
            a <= b <= n,
            trim(s@) == trim_end(s@.subrange(a as int, b as int)),
            trim_start(s@) == s@.skip(a as int),
        decreases b - a,
    {
        assert(s@.subrange(a as int, b as int).drop_last() == s@.subrange(a as int, b - 1));
        b = b - 1;
    }
    assert(trim_end(s@.subrange(a as int, b as int)) == s@.subrange(a as int, b as int));
    let mut r: Vec<char> = Vec::new();
    for k in a..b
        invariant
            n == s@.len(),
            a <= b <= n,
            r@ == s@.subrange(a as int, k as int),
    {
        r.push(s[k]);
        assert(s@.subrange(a as int, k + 1) == s@.subrange(a as int, k as int).push(s@[k as int]));
    }
    r
}

/// `true` when `needle` occurs in `hay` as a block of consecutive characters.
pub open spec fn contains_seq(hay: Seq<char>, needle: Seq<char>) -> bool {
    exists|i: int| 0 <= i && i + needle.len() <= hay.len() && #[trigger] hay.subrange(i, i + needle.len()) == needle
}

/// `true` when `needle` occurs in `hay`, as `str::contains` with a string
/// pattern answers.
pub fn contains_chars(hay: &Vec<char>, needle: &Vec<char>) -> (b: bool)
    ensures
        b == contains_seq(hay@, needle@),
{
    let n = hay.len();
    let m = needle.len();
    if m > n {
        return false;
    }
    for i in 0..n - m
        invariant
            n == hay@.len(),
            m == needle@.len(),
            m <= n,
            forall|k: int| 0 <= k < i ==> #[trigger] hay@.subrange(k, k + needle@.len()) != needle@,
    {
        if matches_at(hay, i, needle) {
            return true;
        }
    }
    if matches_at(hay, n - m, needle) {
        return true;
    }
    assert forall|k: int| 0 <= k && k + needle@.len() <= hay@.len() implies #[trigger] hay@.subrange(k, k + needle@.len()) != needle@ by {
        assert(k < n - m + 1);
    }
    false
}


/// `true` when the two character sequences are equal.
pub fn chars_eq(a: &Vec<char>, b: &Vec<char>) -> (r: bool)
    ensures
        r == (a@ == b@),
{
    let n = a.len();
    if n != b.len() {
        return false;
    }
    for i in 0..n
        invariant
            n == a@.len(),
            n == b@.len(),
            forall|k: int| 0 <= k < i ==> a@[k] == b@[k],
    {
        if a[i] != b[i] {
            return false;
        }
    }
    assert(a@ =~= b@);
    true
}

/// `true` when the two strings are equal.
pub fn str_eq(a: &str, b: &str) -> (r: bool)
    ensures
        r == (a@ == b@),
{
    chars_eq(&chars_of(a), &chars_of(b))
}

/// The strings of `items` written one after the other.
pub open spec fn concat_all(items: Seq<Seq<char>>) -> Seq<char>
    decreases items.len(),
{
    if items.len() == 0 {
        Seq::empty()
    } else {
        concat_all(items.drop_last()) + items.last()
    }
}

/// The characters of all `items` one after the other, as `join("")` gives.
pub fn join_chars(items: &Vec<String>) -> (r: Vec<char>)
    ensures
        r@ == concat_all(items.deep_view()),
{
    let mut r: Vec<char> = Vec::new();
    let n = items.len();
    for i in 0..n
        invariant
            n == items@.len(),
            r@ == concat_all(items.deep_view().take(i as int)),
    {
        let mut c = chars_of(items[i].as_str());
        assert(items.deep_view().take(i + 1).drop_last() == items.deep_view().take(i as int));
        assert(items.deep_view()[i as int] == items@[i as int]@);
        r.append(&mut c);
    }
    assert(items.deep_view().take(n as int) == items.deep_view());
    r
}

} // verus!
