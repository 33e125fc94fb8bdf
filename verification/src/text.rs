//! Text as sequences of characters: white space, trimming, lines, joining.
//!
//! Everything here is stated over `Seq<char>`, the view of `str` and `String`.

use vstd::prelude::*;

verus! {

/// White space: the code points that carry the Unicode property `White_Space`.
pub open spec fn is_whitespace(c: char) -> bool {
    let u: u32 = c as u32;
    ||| (0x09 <= u && u <= 0x0D)
    ||| u == 0x20
    ||| u == 0x85
    ||| u == 0xA0
    ||| u == 0x1680
    ||| (0x2000 <= u && u <= 0x200A)
    ||| u == 0x2028
    ||| u == 0x2029
    ||| u == 0x202F
    ||| u == 0x205F
    ||| u == 0x3000
}

/// `s` without its leading white space.
pub open spec fn trim_start(s: Seq<char>) -> Seq<char>
    decreases s.len(),
{
    if s.len() > 0 && is_whitespace(s.first()) {
        trim_start(s.drop_first())
    } else {
        s
    }
}

/// `s` without its trailing white space.
pub open spec fn trim_end(s: Seq<char>) -> Seq<char>
    decreases s.len(),
{
    if s.len() > 0 && is_whitespace(s.last()) {
        trim_end(s.drop_last())
    } else {
        s
    }
}

/// `s` without the white space that surrounds it.
pub open spec fn trim(s: Seq<char>) -> Seq<char> {
    trim_end(trim_start(s))
}

/// The number of characters that precede the first line feed of `s`, or the
/// length of `s` when it holds no line feed.
pub open spec fn line_len(s: Seq<char>) -> nat
    decreases s.len(),
{
    if s.len() == 0 || s.first() == '\n' {
        0
    } else {
        1 + line_len(s.drop_first())
    }
}

/// The lines of `s`: the pieces between its line feeds, in order. A text
/// with `k` line feeds has `k + 1` lines; the empty text has one empty line.
pub open spec fn lines(s: Seq<char>) -> Seq<Seq<char>>
    decreases s.len(),
{
    let n = line_len(s) as int;
    if n >= s.len() {
        seq![s]
    } else {
        seq![s.take(n)] + lines(s.skip(n + 1))
    }
}

/// The pieces of `parts` in order, with `sep` between each two neighbours.
pub open spec fn join(parts: Seq<Seq<char>>, sep: Seq<char>) -> Seq<char>
    decreases parts.len(),
{
    if parts.len() == 0 {
        Seq::empty()
    } else if parts.len() == 1 {
        parts[0]
    } else {
        join(parts.drop_last(), sep) + sep + parts.last()
    }
}

/// `line_len(s)` is the position of the first line feed of `s`.
pub proof fn lemma_line_len(s: Seq<char>, n: int)
    requires
        0 <= n <= s.len(),
        forall|i: int| 0 <= i < n ==> s[i] != '\n',
        n == s.len() || s[n] == '\n',
    ensures
        line_len(s) == n,
    decreases n,
{
    if n > 0 {
        let rest = s.drop_first();
        assert forall|i: int| 0 <= i < n - 1 implies rest[i] != '\n' by {
            assert(rest[i] == s[i + 1]);
        }
        lemma_line_len(rest, n - 1);
    }
}

/// The lines of a text that starts at `start` in `s`: its first line runs up
/// to `end`, the first line feed at or after `start`, and the others are the
/// lines of what follows that line feed.
pub proof fn lemma_lines_split(s: Seq<char>, start: int, end: int)
    requires
        0 <= start <= end <= s.len(),
        forall|i: int| start <= i < end ==> s[i] != '\n',
        end == s.len() || s[end] == '\n',
    ensures
        end == s.len() ==> lines(s.skip(start)) == seq![s.subrange(start, end)],
        end < s.len() ==> lines(s.skip(start)) == seq![s.subrange(start, end)] + lines(
            s.skip(end + 1),
        ),
{
    let t = s.skip(start);
    lemma_line_len(t, end - start);
    if end == s.len() {
        assert(t == s.subrange(start, end));
    } else {
        assert(t.take(end - start) == s.subrange(start, end));
        assert(t.skip(end - start + 1) == s.skip(end + 1));
    }
}

/// The line feed, which ends a line.
pub const LINE_FEED: &'static str = "\n";

/// Joining a piece and more pieces puts the separator behind the piece.
pub proof fn lemma_join_first(first: Seq<char>, rest: Seq<Seq<char>>, sep: Seq<char>)
    requires
        rest.len() > 0,
    ensures
        join(seq![first] + rest, sep) == first + sep + join(rest, sep),
    decreases rest.len(),
{
    let all = seq![first] + rest;
    assert(all.drop_last() == seq![first] + rest.drop_last());
    assert(all.last() == rest.last());
    if rest.len() == 1 {
        assert(all.drop_last() == seq![first]);
        assert(join(all.drop_last(), sep) == first);
        assert(join(rest, sep) == rest.last());
    } else {
        lemma_join_first(first, rest.drop_last(), sep);
        assert(first + sep + join(rest.drop_last(), sep) + sep + rest.last() == first + sep + (join(
            rest.drop_last(),
            sep,
        ) + sep + rest.last()));
    }
}

/// The lines of a text are what the line feeds part: no line holds a line
/// feed, and the lines joined by line feeds are the text.
pub proof fn lemma_lines(s: Seq<char>)
    ensures
        lines(s).len() >= 1,
        forall|k: int, i: int|
            0 <= k < lines(s).len() && 0 <= i < lines(s)[k].len() ==> #[trigger] lines(s)[k][i]
                != '\n',
        join(lines(s), LINE_FEED@) == s,
    decreases s.len(),
{
    reveal_strlit("\n");
    let n = line_len(s) as int;
    lemma_line_len_bounds(s);
    if n < s.len() {
        let head = s.take(n);
        let rest = lines(s.skip(n + 1));
        lemma_lines(s.skip(n + 1));
        lemma_join_first(head, rest, LINE_FEED@);
        assert(LINE_FEED@ == seq!['\n']);
        assert(head + seq!['\n'] + s.skip(n + 1) == s);
        assert forall|k: int, i: int|
            0 <= k < lines(s).len() && 0 <= i < lines(s)[k].len() implies #[trigger] lines(
            s,
        )[k][i] != '\n' by {
            if k > 0 {
                assert(lines(s)[k] == rest[k - 1]);
            }
        }
    } else {
        assert(join(seq![s], LINE_FEED@) == s);
    }
}

/// `line_len(s)` characters precede the first line feed of `s`.
pub proof fn lemma_line_len_bounds(s: Seq<char>)
    ensures
        line_len(s) <= s.len(),
        forall|i: int| 0 <= i < line_len(s) ==> s[i] != '\n',
        line_len(s) < s.len() ==> s[line_len(s) as int] == '\n',
    decreases s.len(),
{
    if s.len() > 0 && s.first() != '\n' {
        let rest = s.drop_first();
        lemma_line_len_bounds(rest);
        assert forall|i: int| 0 <= i < line_len(s) implies s[i] != '\n' by {
            if i > 0 {
                assert(rest[i - 1] == s[i]);
            }
        }
        if line_len(s) < s.len() {
            assert(rest[line_len(rest) as int] == s[line_len(s) as int]);
        }
    }
}

/// What trimming leaves is the middle of the text: there is white space
/// before it and behind it and nothing else, and it neither begins nor ends
/// with white space.
pub proof fn lemma_trim(s: Seq<char>) -> (bounds: (int, int))
    ensures
        0 <= bounds.0 <= bounds.1 <= s.len(),
        trim(s) == s.subrange(bounds.0, bounds.1),
        forall|i: int| 0 <= i < bounds.0 ==> is_whitespace(s[i]),
        forall|i: int| bounds.1 <= i < s.len() ==> is_whitespace(s[i]),
        trim(s).len() > 0 ==> !is_whitespace(trim(s).first()) && !is_whitespace(trim(s).last()),
{
    let a = lemma_trim_start(s);
    let t = trim_start(s);
    let b = lemma_trim_end(t);
    assert(t.take(b) == s.subrange(a, a + b));
    assert forall|i: int| a + b <= i < s.len() implies is_whitespace(s[i]) by {
        assert(t[i - a] == s[i]);
    }
    if b > 0 {
        assert(t.take(b).first() == t.first());
    }
    (a, a + b)
}

/// What `trim_start` drops is the white space at the start.
proof fn lemma_trim_start(s: Seq<char>) -> (a: int)
    ensures
        0 <= a <= s.len(),
        trim_start(s) == s.skip(a),
        forall|i: int| 0 <= i < a ==> is_whitespace(s[i]),
        a < s.len() ==> !is_whitespace(s[a]),
    decreases s.len(),
{
    if s.len() > 0 && is_whitespace(s.first()) {
        let rest = s.drop_first();
        let a = lemma_trim_start(rest);
        assert(rest.skip(a) == s.skip(a + 1));
        assert forall|i: int| 0 <= i < a + 1 implies is_whitespace(s[i]) by {
            if i > 0 {
                assert(rest[i - 1] == s[i]);
            }
        }
        if a + 1 < s.len() {
            assert(rest[a] == s[a + 1]);
        }
        a + 1
    } else {
        assert(s.skip(0) == s);
        0
    }
}

/// What `trim_end` drops is the white space at the end.
proof fn lemma_trim_end(s: Seq<char>) -> (b: int)
    ensures
        0 <= b <= s.len(),
        trim_end(s) == s.take(b),
        forall|i: int| b <= i < s.len() ==> is_whitespace(s[i]),
        b > 0 ==> !is_whitespace(s[b - 1]),
    decreases s.len(),
{
    if s.len() > 0 && is_whitespace(s.last()) {
        let front = s.drop_last();
        let b = lemma_trim_end(front);
        assert(front.take(b) == s.take(b));
        assert forall|i: int| b <= i < s.len() implies is_whitespace(s[i]) by {
            if i < front.len() {
                assert(front[i] == s[i]);
            }
        }
        if b > 0 {
            assert(front[b - 1] == s[b - 1]);
        }
        b
    } else {
        assert(s.take(s.len() as int) == s);
        s.len() as int
    }
}

/// Whether `c` is white space.
pub fn is_space(c: char) -> (b: bool)
    ensures
        b == is_whitespace(c),
{
    let u: u32 = c as u32;
    (0x09 <= u && u <= 0x0D) || u == 0x20 || u == 0x85 || u == 0xA0 || u == 0x1680 || (0x2000 <= u
        && u <= 0x200A) || u == 0x2028 || u == 0x2029 || u == 0x202F || u == 0x205F || u == 0x3000
}

/// The characters of `s`, in order.
pub fn chars_of(s: &str) -> (v: Vec<char>)
    ensures
        v@ == s@,
{
    let mut v: Vec<char> = Vec::new();
    for c in it: s.chars()
        invariant
            v@ == it.seq().take(it.index() as int),
    {
        v.push(c);
    }
    v
}

/// Trims the part of `v` from `from` up to `to`: returns the bounds of what
/// is left of it once the white space at both ends is gone.
pub(crate) fn trim_range(v: &Vec<char>, from: usize, to: usize) -> (r: (usize, usize))
    requires
        from <= to <= v.len(),
    ensures
        from <= r.0 <= r.1 <= to,
        v@.subrange(r.0 as int, r.1 as int) == trim(v@.subrange(from as int, to as int)),
{
    let mut a: usize = from;
    while a < to && is_space(v[a])
        invariant
            from <= a <= to <= v.len(),
            trim_start(v@.subrange(from as int, to as int)) == trim_start(
                v@.subrange(a as int, to as int),
            ),
        decreases to - a,
    {
        assert(v@.subrange(a as int, to as int).drop_first() == v@.subrange(a + 1, to as int));
        a += 1;
    }
    let mut b: usize = to;
    while b > a && is_space(v[b - 1])
        invariant
            a <= b <= to <= v.len(),
            trim_end(v@.subrange(a as int, to as int)) == trim_end(v@.subrange(a as int, b as int)),
        decreases b - a,
    {
        assert(v@.subrange(a as int, b as int).drop_last() == v@.subrange(a as int, b - 1));
        b -= 1;
    }
    (a, b)
}

} // verus!
