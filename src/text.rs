//! Text model: content as a sequence of chars, its lines, and substring search.

use vstd::prelude::*;
use vstd::std_specs::iter::IteratorSpec;

verus! {

broadcast use vstd::string::group_string_axioms;

/// `needle` occurs in `hay` as a contiguous run of chars.
pub open spec fn contains(hay: Seq<char>, needle: Seq<char>) -> bool {
    exists|i: int|
        0 <= i && i + needle.len() <= hay.len() && #[trigger] hay.subrange(i, i + needle.len())
            == needle
}

/// Index of the first line feed in `s[i..to)`, or `to` when there is none.
pub open spec fn line_end(s: Seq<char>, i: int, to: int) -> int
    decreases to - i,
{
    if i >= to {
        to
    } else if s[i] == '\n' {
        i
    } else {
        line_end(s, i + 1, to)
    }
}

/// End of the text of a line that starts at `from` and whose break (or the end
/// of the range) is at `k`: a carriage return just before a line feed is not
/// part of the line.
pub open spec fn line_stop(s: Seq<char>, from: int, k: int, to: int) -> int {
    if k < to && k > from && s[k - 1] == '\r' {
        k - 1
    } else {
        k
    }
}

/// The lines of `s[from..to)`, as `str::lines` yields them: split at each line
/// feed, a carriage return before it dropped, and no empty line after a final
/// line feed.
pub open spec fn lines_in(s: Seq<char>, from: int, to: int) -> Seq<Seq<char>>
    decreases to - from,
    via lines_in_decreases
{
    if from >= to {
        Seq::empty()
    } else {
        let k = line_end(s, from, to);
        let line = s.subrange(from, line_stop(s, from, k, to));
        if k < to {
            seq![line] + lines_in(s, k + 1, to)
        } else {
            seq![line]
        }
    }
}

#[via_fn]
proof fn lines_in_decreases(s: Seq<char>, from: int, to: int) {
    if from < to {
        lemma_line_end_bounds(s, from, to);
    }
}

/// The lines of the whole text.
pub open spec fn lines_of(s: Seq<char>) -> Seq<Seq<char>> {
    lines_in(s, 0, s.len() as int)
}

/// `m` is a place where no line is cut: the start, the end, or just after a
/// line feed.
pub open spec fn is_line_boundary(s: Seq<char>, m: int) -> bool {
    0 <= m <= s.len() && (m == 0 || m == s.len() || s[m - 1] == '\n')
}

pub proof fn lemma_line_end_bounds(s: Seq<char>, i: int, to: int)
    requires
        i <= to,
    ensures
        i <= line_end(s, i, to) <= to,
        line_end(s, i, to) < to ==> s[line_end(s, i, to)] == '\n',
        forall|j: int| i <= j < line_end(s, i, to) ==> s[j] != '\n',
    decreases to - i,
{
    if i < to && s[i] != '\n' {
        lemma_line_end_bounds(s, i + 1, to);
    }
}

/// A line feed in `s[i..m)` ends the line the same way in `s[i..to)`.
pub proof fn lemma_line_end_prefix(s: Seq<char>, i: int, m: int, to: int)
    requires
        i <= m <= to <= s.len(),
        line_end(s, i, to) < m,
    ensures
        line_end(s, i, m) == line_end(s, i, to),
    decreases to - i,
{
    lemma_line_end_bounds(s, i, to);
    if i < to && s[i] != '\n' {
        lemma_line_end_bounds(s, i + 1, to);
        lemma_line_end_prefix(s, i + 1, m, to);
    }
}

/// Cutting at a line boundary splits the lines without losing or repeating one.
pub proof fn lemma_lines_split(s: Seq<char>, from: int, m: int, to: int)
    requires
        0 <= from <= m <= to <= s.len(),
        m == from || m == to || s[m - 1] == '\n',
    ensures
        lines_in(s, from, to) == lines_in(s, from, m) + lines_in(s, m, to),
    decreases m - from,
{
    if m == from {
        assert(lines_in(s, from, m) =~= Seq::<Seq<char>>::empty());
        assert(lines_in(s, from, to) =~= lines_in(s, from, m) + lines_in(s, m, to));
    } else if m == to {
        assert(lines_in(s, m, to) =~= Seq::<Seq<char>>::empty());
        assert(lines_in(s, from, to) =~= lines_in(s, from, m) + lines_in(s, m, to));
    } else {
        let k = line_end(s, from, to);
        lemma_line_end_bounds(s, from, to);
        assert(k <= m - 1) by {
            if k > m - 1 {
                assert(s[m - 1] != '\n');
            }
        }
        lemma_line_end_prefix(s, from, m, to);
        assert(line_stop(s, from, k, m) == line_stop(s, from, k, to));
        lemma_lines_split(s, k + 1, m, to);
        assert(lines_in(s, from, to) =~= lines_in(s, from, m) + lines_in(s, m, to));
    }
}

/// Relies on `String::push`: the char is appended at the end.
#[verifier::external_body]
fn push_char(s: &mut String, c: char)
    ensures
        final(s)@ == old(s)@.push(c),
{
    s.push(c)
}

/// The chars of `s`, in order.
pub fn chars_of(s: &str) -> (r: Vec<char>)
    ensures
        r@ == s@,
{
    let mut it = s.chars();
    let mut out: Vec<char> = Vec::new();
    loop
        invariant
            out@ + it.remaining() == s@,
            it.decrease() is Some,
        ensures
            out@ == s@,
        decreases it.decrease()->0,
    {
        match it.next() {
            Some(c) => {
                out.push(c);
            },
            None => {
                assert(out@ =~= s@);
                break ;
            },
        }
    }
    out
}

/// The chars `s[from..to)` as a `String`.
pub fn string_of(s: &Vec<char>, from: usize, to: usize) -> (r: String)
    requires
        from <= to <= s@.len(),
    ensures
        r@ == s@.subrange(from as int, to as int),
{
    let mut out = String::new();
    let mut i = from;
    while i < to
        invariant
            from <= i <= to <= s@.len(),
            out@ == s@.subrange(from as int, i as int),
        decreases to - i,
    {
        push_char(&mut out, s[i]);
        i = i + 1;
        assert(out@ =~= s@.subrange(from as int, i as int));
    }
    out
}

/// Whether `needle` occurs in `hay[from..to)`.
pub fn contains_in(hay: &Vec<char>, from: usize, to: usize, needle: &Vec<char>) -> (r: bool)
    requires
        from <= to <= hay@.len(),
    ensures
        r == contains(hay@.subrange(from as int, to as int), needle@),
{
    let ghost sub = hay@.subrange(from as int, to as int);
    let n = needle.len();
    if n > to - from {
        assert(!contains(sub, needle@));
        return false;
    }
    let mut i = from;
    while i <= to - n
        invariant
            from <= i <= to - n + 1,
            n == needle@.len(),
            n <= to - from,
            to <= hay@.len(),
            sub == hay@.subrange(from as int, to as int),
            forall|p: int|
                0 <= p < i - from ==> #[trigger] sub.subrange(p, p + n) != needle@,
        decreases to - n + 1 - i,
    {
        let mut j: usize = 0;
        let mut same = true;
        while j < n
            invariant
                0 <= j <= n,
                n == needle@.len(),
                from <= i <= to - n,
                to <= hay@.len(),
                same == (forall|q: int| 0 <= q < j ==> hay@[i + q] == needle@[q]),
            decreases n - j,
        {
            if hay[i + j] != needle[j] {
                same = false;
            }
            j = j + 1;
        }
        if same {
            assert(sub.subrange(i - from, i - from + n) =~= needle@);
            return true;
        }
        assert(sub.subrange(i - from, i - from + n) != needle@) by {
            let q = choose|q: int| 0 <= q < n && hay@[i + q] != needle@[q];
            assert(sub.subrange(i - from, i - from + n)[q] == hay@[i + q]);
        }
        i = i + 1;
    }
    false
}

} // verus!

verus! {

/// The first line feed at or after `i` is at `k` (or there is none before `to`).
pub proof fn lemma_line_end_at(s: Seq<char>, i: int, k: int, to: int)
    requires
        i <= k <= to <= s.len(),
        forall|j: int| i <= j < k ==> s[j] != '\n',
        k == to || s[k] == '\n',
    ensures
        line_end(s, i, to) == k,
    decreases k - i,
{
    if i < k {
        lemma_line_end_at(s, i + 1, k, to);
    }
}

/// Each line takes at least one char.
pub proof fn lemma_lines_len(s: Seq<char>, from: int, to: int)
    requires
        0 <= from,
    ensures
        lines_in(s, from, to).len() <= if from <= to { to - from } else { 0 },
    decreases to - from,
{
    if from < to {
        let k = line_end(s, from, to);
        lemma_line_end_bounds(s, from, to);
        if k < to {
            lemma_lines_len(s, k + 1, to);
        }
    }
}

} // verus!
