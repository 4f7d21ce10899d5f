//! Text handling shared by the rest of the crate: the characters of a
//! string, white space, and the lines of a decklist.

use vstd::prelude::*;

verus! {

/// Whether `c` is white space, as `char::is_whitespace` reports it.
pub uninterp spec fn white_space(c: char) -> bool;

/// `char::is_whitespace` is a function of the character alone; which
/// characters it accepts is left to the standard library.
pub assume_specification[ char::is_whitespace ](c: char) -> (b: bool)
    ensures
        b == white_space(c),
;

/// `String::push` appends the character to the end of the string.
pub assume_specification[ String::push ](s: &mut String, c: char)
    ensures
        final(s)@ == old(s)@.push(c),
;

/// `s` without its leading white space.
pub open spec fn trim_start(s: Seq<char>) -> Seq<char>
    decreases s.len(),
{
    if s.len() > 0 && white_space(s.first()) {
        trim_start(s.drop_first())
    } else {
        s
    }
}

/// `s` without its trailing white space.
pub open spec fn trim_end(s: Seq<char>) -> Seq<char>
    decreases s.len(),
{
    if s.len() > 0 && white_space(s.last()) {
        trim_end(s.drop_last())
    } else {
        s
    }
}

/// `s` without its leading and trailing white space.
pub open spec fn trimmed(s: Seq<char>) -> Seq<char> {
    trim_end(trim_start(s))
}

/// The lines of `text`. A line feed ends the current line and opens a new,
/// empty one; every other character extends the current line. The line feeds
/// themselves belong to no line.
pub open spec fn split_lines(text: Seq<char>) -> Seq<Seq<char>>
    decreases text.len(),
{
    if text.len() == 0 {
        seq![Seq::empty()]
    } else {
        let before = split_lines(text.drop_last());
        if text.last() == '\n' {
            before.push(Seq::empty())
        } else {
            before.drop_last().push(before.last().push(text.last()))
        }
    }
}

/// The lines among `lines` that carry an entry: every line trimmed, the
/// blank ones left out, the others in the order in which they stand.
pub open spec fn kept(lines: Seq<Seq<char>>) -> Seq<Seq<char>> {
    lines.map_values(|line: Seq<char>| trimmed(line)).filter(|line: Seq<char>| line.len() > 0)
}

/// The lines of `text` that carry an entry, trimmed and in order.
pub open spec fn content_lines(text: Seq<char>) -> Seq<Seq<char>> {
    kept(split_lines(text))
}

/// The positions, among `lines`, of the lines that are not blank, in
/// increasing order.
pub open spec fn kept_positions(lines: Seq<Seq<char>>) -> Seq<int>
    decreases lines.len(),
{
    if lines.len() == 0 {
        Seq::empty()
    } else if trimmed(lines.last()).len() > 0 {
        kept_positions(lines.drop_last()).push(lines.len() - 1)
    } else {
        kept_positions(lines.drop_last())
    }
}

/// The lines that carry an entry stand in the order of the lines they come
/// from: the one at place `i` is the trimmed line at the `i`-th position that
/// is not blank, those positions grow with `i`, and no line that is not blank
/// is passed over.
pub proof fn lemma_kept_keeps_order(lines: Seq<Seq<char>>)
    ensures
        kept(lines).len() == kept_positions(lines).len(),
        forall|i: int|
            0 <= i < kept(lines).len() ==> {
                &&& 0 <= #[trigger] kept_positions(lines)[i] < lines.len()
                &&& kept(lines)[i] == trimmed(lines[kept_positions(lines)[i]])
            },
        forall|i: int, j: int|
            0 <= i < j < kept(lines).len() ==> #[trigger] kept_positions(lines)[i]
                < #[trigger] kept_positions(lines)[j],
        forall|k: int|
            0 <= k < lines.len() && trimmed(#[trigger] lines[k]).len() > 0 ==> kept_positions(
                lines,
            ).contains(k),
    decreases lines.len(),
{
    if lines.len() == 0 {
        lemma_kept_empty();
    } else {
        let before = lines.drop_last();
        lemma_kept_keeps_order(before);
        assert(before.push(lines.last()) == lines);
        lemma_kept_push(before, lines.last());
        assert forall|k: int|
            0 <= k < lines.len() && trimmed(#[trigger] lines[k]).len() > 0 implies kept_positions(
            lines,
        ).contains(k) by {
            if k < lines.len() - 1 {
                let at: int = choose|at: int|
                    0 <= at < kept_positions(before).len() && kept_positions(before)[at] == k;
                assert(kept_positions(lines)[at] == k);
            } else {
                assert(kept_positions(lines)[kept_positions(lines).len() - 1] == k);
            }
        }
    }
}

/// The lines that carry an entry in two texts joined by a line feed are
/// those of the first text, then those of the second.
pub proof fn lemma_content_lines_join(a: Seq<char>, b: Seq<char>)
    ensures
        content_lines(a + seq!['\n'] + b) == content_lines(a) + content_lines(b),
{
    lemma_split_lines_join(a, b);
    lemma_kept_concat(split_lines(a), split_lines(b));
}

/// A blank line between two texts changes nothing in the lines that carry
/// an entry.
pub proof fn lemma_blank_line_is_ignored(before: Seq<char>, blank: Seq<char>, after: Seq<char>)
    requires
        !blank.contains('\n'),
        trimmed(blank).len() == 0,
    ensures
        content_lines(before + seq!['\n'] + blank + seq!['\n'] + after) == content_lines(
            before + seq!['\n'] + after,
        ),
{
    lemma_content_lines_join(before + seq!['\n'] + blank, after);
    lemma_content_lines_join(before, blank);
    lemma_content_lines_join(before, after);
    lemma_one_line(blank);
    lemma_kept_empty();
    lemma_kept_push(Seq::empty(), blank);
}

/// A text without a line feed is one line.
proof fn lemma_one_line(line: Seq<char>)
    requires
        !line.contains('\n'),
    ensures
        split_lines(line) == seq![line],
    decreases line.len(),
{
    if line.len() == 0 {
        assert(line == Seq::<char>::empty());
    } else {
        let front = line.drop_last();
        lemma_one_line(front);
        assert(front.push(line.last()) == line);
    }
}

/// A text has at least one line.
proof fn lemma_split_lines_nonempty(text: Seq<char>)
    ensures
        split_lines(text).len() > 0,
    decreases text.len(),
{
    if text.len() > 0 {
        lemma_split_lines_nonempty(text.drop_last());
    }
}

/// The lines of two texts joined by a line feed are the lines of the first
/// text, then those of the second.
proof fn lemma_split_lines_join(a: Seq<char>, b: Seq<char>)
    ensures
        split_lines(a + seq!['\n'] + b) == split_lines(a) + split_lines(b),
    decreases b.len(),
{
    let joined = a + seq!['\n'] + b;
    if b.len() == 0 {
        assert(joined.drop_last() == a);
    } else {
        let front = b.drop_last();
        lemma_split_lines_join(a, front);
        lemma_split_lines_nonempty(front);
        assert(joined.drop_last() == a + seq!['\n'] + front);
    }
}

/// No lines carry no entry.
proof fn lemma_kept_empty()
    ensures
        kept(Seq::empty()) == Seq::<Seq<char>>::empty(),
{
    reveal(Seq::filter);
}

/// One more line adds itself, trimmed, to the lines that carry an entry,
/// unless it is blank.
proof fn lemma_kept_push(lines: Seq<Seq<char>>, line: Seq<char>)
    ensures
        kept(lines.push(line)) == if trimmed(line).len() > 0 {
            kept(lines).push(trimmed(line))
        } else {
            kept(lines)
        },
{
    let trim_line = |line: Seq<char>| trimmed(line);
    let carries = |line: Seq<char>| line.len() > 0;
    lines.lemma_push_map_commute(trim_line, line);
    lines.map_values(trim_line).lemma_filter_push(trimmed(line), carries);
}

/// The lines that carry an entry among two runs of lines are those of the
/// first run, then those of the second.
proof fn lemma_kept_concat(a: Seq<Seq<char>>, b: Seq<Seq<char>>)
    ensures
        kept(a + b) == kept(a) + kept(b),
    decreases b.len(),
{
    if b.len() == 0 {
        lemma_kept_empty();
    } else {
        let front = b.drop_last();
        lemma_kept_concat(a, front);
        lemma_kept_push(a + front, b.last());
        lemma_kept_push(front, b.last());
        assert(front.push(b.last()) == b);
    }
}

/// The characters of `text`, in order.
pub fn chars_of(text: &str) -> (chars: Vec<char>)
    ensures
        chars@ == text@,
{
    let mut chars: Vec<char> = Vec::new();
    for c in it: text.chars()
        invariant
            chars@ == it.seq().take(it.index() as int),
            it.seq() == text@,
    {
        chars.push(c);
    }
    chars
}

/// The string made of `chars[from..to]`.
pub fn string_of(chars: &Vec<char>, from: usize, to: usize) -> (s: String)
    requires
        from <= to <= chars.len(),
    ensures
        s@ == chars@.subrange(from as int, to as int),
{
    let mut s = String::new();
    let mut i: usize = from;
    while i < to
        invariant
            from <= i <= to <= chars.len(),
            s@ == chars@.subrange(from as int, i as int),
        decreases to - i,
    {
        s.push(chars[i]);
        i += 1;
    }
    s
}

/// The bounds of `chars[from..to]` once the white space at both its ends is
/// left out.
pub fn trim_bounds(chars: &Vec<char>, from: usize, to: usize) -> (bounds: (usize, usize))
    requires
        from <= to <= chars.len(),
    ensures
        from <= bounds.0 <= bounds.1 <= to,
        chars@.subrange(bounds.0 as int, bounds.1 as int) == trimmed(
            chars@.subrange(from as int, to as int),
        ),
{
    let mut a: usize = from;
    while a < to && chars[a].is_whitespace()
        invariant
            from <= a <= to <= chars.len(),
            trim_start(chars@.subrange(from as int, to as int)) == trim_start(
                chars@.subrange(a as int, to as int),
            ),
        decreases to - a,
    {
        assert(chars@.subrange(a as int, to as int).drop_first() == chars@.subrange(
            a + 1,
            to as int,
        ));
        a += 1;
    }
    let mut b: usize = to;
    while b > a && chars[b - 1].is_whitespace()
        invariant
            a <= b <= to <= chars.len(),
            trim_end(chars@.subrange(a as int, to as int)) == trim_end(
                chars@.subrange(a as int, b as int),
            ),
        decreases b,
    {
        assert(chars@.subrange(a as int, b as int).drop_last() == chars@.subrange(
            a as int,
            b - 1,
        ));
        b -= 1;
    }
    (a, b)
}

/// Appends to `lines` the line `chars[from..to]`, trimmed, unless it is
/// blank.
fn keep_line(lines: &mut Vec<String>, chars: &Vec<char>, from: usize, to: usize)
    requires
        from <= to <= chars.len(),
    ensures
        final(lines).deep_view() == if trimmed(chars@.subrange(from as int, to as int)).len()
            > 0 {
            old(lines).deep_view().push(trimmed(chars@.subrange(from as int, to as int)))
        } else {
            old(lines).deep_view()
        },
{
    let (a, b): (usize, usize) = trim_bounds(chars, from, to);
    if a < b {
        let line = string_of(chars, a, b);
        lines.push(line);
    }
}

/// The lines of `text` that carry an entry, trimmed and in order.
pub fn lines_of(text: &str) -> (lines: Vec<String>)
    ensures
        lines.deep_view() == content_lines(text@),
{
    let chars = chars_of(text);
    let n: usize = chars.len();
    let mut lines: Vec<String> = Vec::new();
    let mut start: usize = 0;
    let mut i: usize = 0;
    let ghost done: Seq<Seq<char>> = Seq::empty();
    proof {
        lemma_kept_empty();
        assert(chars@.take(0) == Seq::<char>::empty());
    }
    while i < n
        invariant
            n == chars.len(),
            start <= i <= n,
            split_lines(chars@.take(i as int)) == done.push(
                chars@.subrange(start as int, i as int),
            ),
            lines.deep_view() == kept(done),
        decreases n - i,
    {
        let ghost line = chars@.subrange(start as int, i as int);
        proof {
            assert(chars@.take(i + 1).drop_last() == chars@.take(i as int));
            assert(chars@.subrange(start as int, i + 1) == line.push(chars@[i as int]));
            assert(chars@.subrange(i + 1, i + 1) == Seq::<char>::empty());
        }
        if chars[i] == '\n' {
            keep_line(&mut lines, &chars, start, i);
            proof {
                lemma_kept_push(done, line);
                done = done.push(line);
            }
            start = i + 1;
        }
        i += 1;
    }
    keep_line(&mut lines, &chars, start, n);
    proof {
        lemma_kept_push(done, chars@.subrange(start as int, n as int));
        assert(chars@.take(n as int) == chars@);
    }
    lines
}

} // verus!
