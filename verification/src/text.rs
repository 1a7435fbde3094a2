//! Characters, lines and whitespace-separated tokens of command output.
//!
//! Text is modelled as `Seq<char>`. A line ends at a line feed, a carriage
//! return directly before that line feed belongs to the line ending, and the
//! last line needs no line ending. A token is a maximal run of characters that
//! are not white space.

use vstd::prelude::*;

verus! {

/// Whether `c` is white space: one of the code points that Unicode marks as
/// `White_Space`.
pub open spec fn is_space(c: char) -> bool {
    let n = c as u32;
    ||| 0x09 <= n <= 0x0D
    ||| n == 0x20
    ||| n == 0x85
    ||| n == 0xA0
    ||| n == 0x1680
    ||| 0x2000 <= n <= 0x200A
    ||| n == 0x2028
    ||| n == 0x2029
    ||| n == 0x202F
    ||| n == 0x205F
    ||| n == 0x3000
}

/// The first position at or after `from` that holds a line feed, or the
/// length of `s` where there is none.
pub open spec fn line_end(s: Seq<char>, from: int) -> int
    decreases s.len() - from,
{
    if from < 0 || from >= s.len() {
        s.len() as int
    } else if s[from] == '\n' {
        from
    } else {
        line_end(s, from + 1)
    }
}

/// `s` without one carriage return at its end.
pub open spec fn strip_cr(s: Seq<char>) -> Seq<char> {
    if s.len() > 0 && s.last() == '\r' {
        s.drop_last()
    } else {
        s
    }
}

/// The lines of `s` from position `from` on.
pub open spec fn lines_from(s: Seq<char>, from: int) -> Seq<Seq<char>>
    decreases s.len() - from,
{
    if from < 0 || from >= s.len() {
        Seq::empty()
    } else {
        let end = line_end(s, from);
        proof {
            lemma_line_end(s, from);
        }
        if end >= s.len() {
            seq![s.subrange(from, s.len() as int)]
        } else {
            seq![strip_cr(s.subrange(from, end))] + lines_from(s, end + 1)
        }
    }
}

/// The lines of `s`.
pub open spec fn lines_of(s: Seq<char>) -> Seq<Seq<char>> {
    lines_from(s, 0)
}

/// The first position at or after `from` that holds no white space, or the
/// length of `s` where there is none.
pub open spec fn token_start(s: Seq<char>, from: int) -> int
    decreases s.len() - from,
{
    if from < 0 || from >= s.len() {
        s.len() as int
    } else if !is_space(s[from]) {
        from
    } else {
        token_start(s, from + 1)
    }
}

/// The first position at or after `from` that holds white space, or the
/// length of `s` where there is none.
pub open spec fn token_end(s: Seq<char>, from: int) -> int
    decreases s.len() - from,
{
    if from < 0 || from >= s.len() {
        s.len() as int
    } else if is_space(s[from]) {
        from
    } else {
        token_end(s, from + 1)
    }
}

/// The tokens of `s` from position `from` on.
pub open spec fn tokens_from(s: Seq<char>, from: int) -> Seq<Seq<char>>
    decreases s.len() - from,
{
    if from < 0 || from >= s.len() {
        Seq::empty()
    } else if is_space(s[from]) {
        tokens_from(s, from + 1)
    } else {
        let end = token_end(s, from + 1);
        proof {
            lemma_token_end(s, from + 1);
        }
        seq![s.subrange(from, end)] + tokens_from(s, end)
    }
}

/// The tokens of `s`.
pub open spec fn tokens_of(s: Seq<char>) -> Seq<Seq<char>> {
    tokens_from(s, 0)
}

/// The length of `s` without the white space at its end.
pub open spec fn trimmed_len(s: Seq<char>) -> int
    decreases s.len(),
{
    if s.len() == 0 || !is_space(s.last()) {
        s.len() as int
    } else {
        trimmed_len(s.drop_last())
    }
}

/// `s` without the white space at its start and at its end.
pub open spec fn trimmed(s: Seq<char>) -> Seq<char> {
    let start = token_start(s, 0);
    let end = trimmed_len(s);
    if start < end {
        s.subrange(start, end)
    } else {
        Seq::empty()
    }
}

/// Whether `t` can be a token: it is not empty and holds no white space.
pub open spec fn is_token(t: Seq<char>) -> bool {
    t.len() > 0 && forall|i: int| 0 <= i < t.len() ==> !is_space(#[trigger] t[i])
}

/// Whether `s` holds white space only.
pub open spec fn is_blank(s: Seq<char>) -> bool {
    forall|i: int| 0 <= i < s.len() ==> is_space(#[trigger] s[i])
}

/// Whether `s` holds no line feed.
pub open spec fn is_one_line(s: Seq<char>) -> bool {
    forall|i: int| 0 <= i < s.len() ==> #[trigger] s[i] != '\n'
}

/// The text made of `lines`, each followed by a line feed.
pub open spec fn joined(lines: Seq<Seq<char>>) -> Seq<char>
    decreases lines.len(),
{
    if lines.len() == 0 {
        Seq::empty()
    } else {
        lines[0] + seq!['\n'] + joined(lines.drop_first())
    }
}

/// Where a line ends: no earlier than it starts, no later than the text, at
/// a line feed unless at the end, and with no line feed before it.
pub proof fn lemma_line_end(s: Seq<char>, from: int)
    requires
        0 <= from <= s.len(),
    ensures
        from <= line_end(s, from) <= s.len(),
        line_end(s, from) < s.len() ==> s[line_end(s, from)] == '\n',
        forall|i: int| from <= i < line_end(s, from) ==> s[i] != '\n',
    decreases s.len() - from,
{
    if from < s.len() && s[from] != '\n' {
        lemma_line_end(s, from + 1);
    }
}

/// Where a token starts: at the first character at or after `from` that is
/// not white space.
pub proof fn lemma_token_start(s: Seq<char>, from: int)
    requires
        0 <= from <= s.len(),
    ensures
        from <= token_start(s, from) <= s.len(),
        token_start(s, from) < s.len() ==> !is_space(s[token_start(s, from)]),
        forall|i: int| from <= i < token_start(s, from) ==> is_space(s[i]),
    decreases s.len() - from,
{
    if from < s.len() && is_space(s[from]) {
        lemma_token_start(s, from + 1);
    }
}

/// Where a token ends: at the first white space at or after `from`.
pub proof fn lemma_token_end(s: Seq<char>, from: int)
    requires
        0 <= from <= s.len(),
    ensures
        from <= token_end(s, from) <= s.len(),
        token_end(s, from) < s.len() ==> is_space(s[token_end(s, from)]),
        forall|i: int| from <= i < token_end(s, from) ==> !is_space(s[i]),
    decreases s.len() - from,
{
    if from < s.len() && !is_space(s[from]) {
        lemma_token_end(s, from + 1);
    }
}

/// What is left of `s` after trimming its end: a prefix that does not end in
/// white space, followed by white space only.
pub proof fn lemma_trimmed_len(s: Seq<char>)
    ensures
        0 <= trimmed_len(s) <= s.len(),
        trimmed_len(s) > 0 ==> !is_space(s[trimmed_len(s) - 1]),
        forall|i: int| trimmed_len(s) <= i < s.len() ==> is_space(s[i]),
    decreases s.len(),
{
    if s.len() > 0 && is_space(s.last()) {
        let t = s.drop_last();
        lemma_trimmed_len(t);
        assert forall|i: int| trimmed_len(s) <= i < s.len() implies is_space(s[i]) by {
            if i < t.len() {
                assert(s[i] == t[i]);
            }
        }
        if trimmed_len(s) > 0 {
            assert(s[trimmed_len(s) - 1] == t[trimmed_len(t) - 1]);
        }
    }
}

/// Every token is not empty and holds no white space.
pub proof fn lemma_tokens_are_tokens(s: Seq<char>, from: int)
    requires
        0 <= from,
    ensures
        forall|i: int|
            0 <= i < tokens_from(s, from).len() ==> is_token(#[trigger] tokens_from(s, from)[i]),
    decreases s.len() - from,
{
    if from >= s.len() {
        assert(tokens_from(s, from).len() == 0);
    } else {
        if is_space(s[from]) {
            lemma_tokens_are_tokens(s, from + 1);
            assert(tokens_from(s, from) == tokens_from(s, from + 1));
        } else {
            let end = token_end(s, from + 1);
            lemma_token_end(s, from + 1);
            lemma_tokens_are_tokens(s, end);
            let first = s.subrange(from, end);
            assert(is_token(first)) by {
                assert forall|i: int| 0 <= i < first.len() implies !is_space(
                    #[trigger] first[i],
                ) by {
                    assert(first[i] == s[from + i]);
                }
            }
            assert(tokens_from(s, from) == seq![first] + tokens_from(s, end));
            assert forall|i: int| 0 <= i < tokens_from(s, from).len() implies is_token(
                #[trigger] tokens_from(s, from)[i],
            ) by {
                if i > 0 {
                    assert(tokens_from(s, from)[i] == tokens_from(s, end)[i - 1]);
                } else {
                    assert(tokens_from(s, from)[0] == first);
                }
            }
        }
    }
}

/// What trimming gives: the text between the white space at the start and
/// the white space at the end. It neither starts nor ends in white space,
/// and a text of white space only leaves nothing.
pub proof fn lemma_trimmed(s: Seq<char>)
    ensures
        trimmed(s).len() > 0 ==> !is_space(trimmed(s)[0]) && !is_space(trimmed(s).last()),
        is_blank(s) <==> trimmed(s).len() == 0,
        exists|start: int, end: int|
            0 <= start <= end <= s.len() && is_blank(s.take(start)) && is_blank(s.skip(end))
                && #[trigger] s.subrange(start, end) == trimmed(s),
{
    let a = token_start(s, 0);
    let e = trimmed_len(s);
    lemma_token_start(s, 0);
    lemma_trimmed_len(s);
    if a < e {
        assert(s.subrange(a, e) == trimmed(s));
        assert(!is_space(s[a]));
        assert(!is_blank(s));
        assert(is_blank(s.take(a)));
        assert(is_blank(s.skip(e)));
    } else {
        assert(is_blank(s)) by {
            assert forall|i: int| 0 <= i < s.len() implies is_space(#[trigger] s[i]) by {
                if i < a {
                } else {
                    assert(i >= e);
                }
            }
        }
        assert(s.subrange(0, 0) =~= trimmed(s));
        assert(is_blank(s.take(0)));
        assert(is_blank(s.skip(0)));
    }
}

/// The end of a line is found where it is in the text alone, whatever
/// stands before the text.
pub proof fn lemma_line_end_after(before: Seq<char>, s: Seq<char>, from: int)
    requires
        0 <= from <= s.len(),
    ensures
        line_end(before + s, before.len() + from) == before.len() + line_end(s, from),
    decreases s.len() - from,
{
    let all = before + s;
    if from < s.len() {
        assert(all[before.len() + from] == s[from]);
        if s[from] != '\n' {
            lemma_line_end_after(before, s, from + 1);
        }
    }
}

/// The lines of a text are those of the text alone, whatever stands before
/// the text.
pub proof fn lemma_lines_after(before: Seq<char>, s: Seq<char>, from: int)
    requires
        0 <= from <= s.len(),
    ensures
        lines_from(before + s, before.len() + from) == lines_from(s, from),
    decreases s.len() - from,
{
    let all = before + s;
    let at = before.len() as int;
    if from < s.len() {
        lemma_line_end_after(before, s, from);
        lemma_line_end(s, from);
        let end = line_end(s, from);
        if end >= s.len() {
            assert(all.subrange(at + from, all.len() as int) =~= s.subrange(from, s.len() as int));
        } else {
            assert(all.subrange(at + from, at + end) =~= s.subrange(from, end));
            lemma_lines_after(before, s, end + 1);
        }
    }
}

/// A line, a line feed and more text: the lines are that line, without a
/// carriage return at its end, and the lines of what follows.
pub proof fn lemma_lines_of_first(line: Seq<char>, rest: Seq<char>)
    requires
        is_one_line(line),
    ensures
        lines_of(line + seq!['\n'] + rest) == seq![strip_cr(line)] + lines_of(rest),
{
    let head = line + seq!['\n'];
    let all = head + rest;
    let n = line.len() as int;
    lemma_line_end(all, 0);
    assert(all[n] == '\n');
    assert forall|i: int| 0 <= i < n implies all[i] != '\n' by {
        assert(all[i] == line[i]);
    }
    assert(line_end(all, 0) == n);
    assert(all.subrange(0, n) =~= line);
    lemma_lines_after(head, rest, 0);
}

/// The lines of a text without a line feed: the text itself, or none where
/// it is empty.
pub proof fn lemma_lines_of_one_line(line: Seq<char>)
    requires
        is_one_line(line),
    ensures
        lines_of(line) == if line.len() > 0 {
            seq![line]
        } else {
            Seq::<Seq<char>>::empty()
        },
{
    if line.len() > 0 {
        lemma_line_end(line, 0);
        assert(line.subrange(0, line.len() as int) =~= line);
    }
}

/// The lines of a text made of lines, each followed by a line feed, and of
/// more text after them: those lines, each without a carriage return at its
/// end, then the lines of what follows.
pub proof fn lemma_lines_of_joined(lines: Seq<Seq<char>>, rest: Seq<char>)
    requires
        forall|i: int| 0 <= i < lines.len() ==> is_one_line(#[trigger] lines[i]),
    ensures
        lines_of(joined(lines) + rest) == lines.map_values(|l: Seq<char>| strip_cr(l)) + lines_of(
            rest,
        ),
    decreases lines.len(),
{
    let stripped = lines.map_values(|l: Seq<char>| strip_cr(l));
    if lines.len() == 0 {
        assert(joined(lines) + rest =~= rest);
        assert(stripped + lines_of(rest) =~= lines_of(rest));
    } else {
        let others = lines.drop_first();
        assert forall|i: int| 0 <= i < others.len() implies is_one_line(#[trigger] others[i]) by {
            assert(others[i] == lines[i + 1]);
        }
        lemma_lines_of_joined(others, rest);
        lemma_lines_of_first(lines[0], joined(others) + rest);
        assert(joined(lines) + rest =~= lines[0] + seq!['\n'] + (joined(others) + rest));
        assert(seq![strip_cr(lines[0])] + (others.map_values(|l: Seq<char>| strip_cr(l))
            + lines_of(rest)) =~= stripped + lines_of(rest));
    }
}

/// White space at the end of a text does not move the end of a token.
pub proof fn lemma_token_end_without_last(s: Seq<char>, from: int)
    requires
        s.len() > 0,
        is_space(s.last()),
        0 <= from < s.len(),
    ensures
        token_end(s, from) == token_end(s.drop_last(), from),
    decreases s.len() - from,
{
    let t = s.drop_last();
    if from < t.len() {
        assert(s[from] == t[from]);
        if !is_space(s[from]) {
            lemma_token_end_without_last(s, from + 1);
        }
    }
}

/// White space at the end of a text adds no token and changes none.
pub proof fn lemma_tokens_without_last(s: Seq<char>, from: int)
    requires
        s.len() > 0,
        is_space(s.last()),
        0 <= from <= s.len(),
    ensures
        tokens_from(s, from) == tokens_from(s.drop_last(), from),
    decreases s.len() - from,
{
    let t = s.drop_last();
    if from < t.len() {
        assert(s[from] == t[from]);
        if is_space(s[from]) {
            lemma_tokens_without_last(s, from + 1);
        } else {
            lemma_token_end_without_last(s, from + 1);
            lemma_token_end(t, from + 1);
            let end = token_end(s, from + 1);
            assert(s.subrange(from, end) =~= t.subrange(from, end));
            lemma_tokens_without_last(s, end);
        }
    } else if from < s.len() {
        assert(tokens_from(s, from + 1) =~= Seq::<Seq<char>>::empty());
    }
}

/// A carriage return at the end of a line adds no token and changes none.
pub proof fn lemma_tokens_of_strip_cr(line: Seq<char>)
    ensures
        tokens_of(strip_cr(line)) == tokens_of(line),
{
    if line.len() > 0 && line.last() == '\r' {
        lemma_tokens_without_last(line, 0);
    }
}

/// A text of white space only has no token.
pub proof fn lemma_tokens_of_blank(s: Seq<char>, from: int)
    requires
        is_blank(s),
        0 <= from,
    ensures
        tokens_from(s, from) == Seq::<Seq<char>>::empty(),
    decreases s.len() - from,
{
    if from < s.len() {
        lemma_tokens_of_blank(s, from + 1);
    }
}

/// `String::push` appends one character and changes nothing else.
pub assume_specification[ String::push ](s: &mut String, c: char)
    ensures
        final(s)@ == old(s)@.push(c),
;

/// Tests a character for white space.
pub fn is_whitespace(c: char) -> (b: bool)
    ensures
        b == is_space(c),
{
    let n: u32 = c as u32;
    (0x09 <= n && n <= 0x0D) || n == 0x20 || n == 0x85 || n == 0xA0 || n == 0x1680 || (0x2000 <= n
        && n <= 0x200A) || n == 0x2028 || n == 0x2029 || n == 0x202F || n == 0x205F || n == 0x3000
}

/// The characters of `s`, in order.
pub fn chars_of(s: &str) -> (v: Vec<char>)
    ensures
        v@ == s@,
{
    let mut v: Vec<char> = Vec::new();
    for c in it: s.chars()
        invariant
            it.seq() == s@,
            v@ == s@.take(it.index()),
    {
        v.push(c);
    }
    v
}

/// The string made of the characters `v[from..to]`.
pub fn string_of(v: &Vec<char>, from: usize, to: usize) -> (s: String)
    requires
        from <= to <= v.len(),
    ensures
        s@ == v@.subrange(from as int, to as int),
{
    let mut s = String::new();
    let mut i: usize = from;
    while i < to
        invariant
            from <= i <= to <= v.len(),
            s@ == v@.subrange(from as int, i as int),
        decreases to - i,
    {
        s.push(v[i]);
        i += 1;
    }
    s
}

/// Splits `text` into its lines, without their line endings.
pub fn lines(text: &str) -> (out: Vec<String>)
    ensures
        out.deep_view() == lines_of(text@),
{
    let v = chars_of(text);
    let mut out: Vec<String> = Vec::new();
    let mut from: usize = 0;
    while from < v.len()
        invariant
            from <= v.len(),
            v@ == text@,
            out.deep_view() + lines_from(v@, from as int) == lines_of(v@),
        decreases v.len() - from,
    {
        let mut end: usize = from;
        while end < v.len() && v[end] != '\n'
            invariant
                from <= end <= v.len(),
                line_end(v@, end as int) == line_end(v@, from as int),
            decreases v.len() - end,
        {
            end += 1;
        }
        let ghost before = out.deep_view();
        if end >= v.len() {
            let line = string_of(&v, from, end);
            out.push(line);
            assert(out.deep_view() == before.push(line@));
            from = end;
        } else {
            let stop: usize = if end > from && v[end - 1] == '\r' {
                end - 1
            } else {
                end
            };
            let line = string_of(&v, from, stop);
            assert(line@ == strip_cr(v@.subrange(from as int, end as int)));
            out.push(line);
            assert(out.deep_view() == before.push(line@));
            from = end + 1;
        }
    }
    out
}

/// Splits `s` into its tokens: the maximal runs of characters that are not
/// white space, in order.
pub fn split_whitespace(s: &str) -> (out: Vec<String>)
    ensures
        out.deep_view() == tokens_of(s@),
        forall|i: int| 0 <= i < out.len() ==> is_token(#[trigger] out[i]@),
{
    proof {
        lemma_tokens_are_tokens(s@, 0);
    }
    let v = chars_of(s);
    let mut out: Vec<String> = Vec::new();
    let mut from: usize = 0;
    while from < v.len()
        invariant
            from <= v.len(),
            v@ == s@,
            out.deep_view() + tokens_from(v@, from as int) == tokens_of(v@),
        decreases v.len() - from,
    {
        if is_whitespace(v[from]) {
            from += 1;
        } else {
            let mut end: usize = from + 1;
            while end < v.len() && !is_whitespace(v[end])
                invariant
                    from < end <= v.len(),
                    token_end(v@, end as int) == token_end(v@, from + 1),
                decreases v.len() - end,
            {
                end += 1;
            }
            let ghost before = out.deep_view();
            let token = string_of(&v, from, end);
            out.push(token);
            assert(out.deep_view() == before.push(token@));
            from = end;
        }
    }
    assert forall|i: int| 0 <= i < out.len() implies is_token(#[trigger] out[i]@) by {
        assert(out.deep_view()[i] == out[i]@);
    }
    out
}

/// `s` without the white space at its start and at its end.
pub fn trim(s: &str) -> (out: String)
    ensures
        out@ == trimmed(s@),
        out@.len() > 0 ==> !is_space(out@[0]) && !is_space(out@.last()),
{
    proof {
        lemma_trimmed(s@);
    }
    let v = chars_of(s);
    let mut start: usize = 0;
    while start < v.len() && is_whitespace(v[start])
        invariant
            start <= v.len(),
            token_start(v@, start as int) == token_start(v@, 0),
        decreases v.len() - start,
    {
        start += 1;
    }
    let mut end: usize = v.len();
    assert(v@.take(v.len() as int) == v@);
    while end > 0 && is_whitespace(v[end - 1])
        invariant
            end <= v.len(),
            trimmed_len(v@.take(end as int)) == trimmed_len(v@),
        decreases end,
    {
        assert(v@.take(end as int).drop_last() == v@.take(end - 1));
        end -= 1;
    }
    if start < end {
        string_of(&v, start, end)
    } else {
        String::new()
    }
}

} // verus!
