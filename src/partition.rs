//! Splitting content into line-aligned chunks, one per worker.

use vstd::prelude::*;
use crate::text::{is_line_boundary, lines_in, lines_of, lemma_lines_split};

verus! {

/// The chars `[start, end)` of the content, given to one worker.
#[derive(Debug, Clone, Copy, PartialEq, Eq, Structural)]
pub struct Chunk {
    pub start: usize,
    pub end: usize,
}

/// `cs` cuts `s` into consecutive chunks that cover it from start to end, each
/// ending at a line boundary, so no line is split between two chunks.
pub open spec fn is_partition(s: Seq<char>, cs: Seq<Chunk>) -> bool {
    &&& cs.len() > 0
    &&& cs[0].start == 0
    &&& cs.last().end == s.len()
    &&& forall|i: int|
        0 <= i < cs.len() ==> #[trigger] cs[i].start <= cs[i].end && is_line_boundary(
            s,
            cs[i].end as int,
        )
    &&& forall|i: int| 0 <= i < cs.len() - 1 ==> #[trigger] cs[i].end == cs[i + 1].start
}

/// The first line boundary at or after `p`.
pub open spec fn boundary_from(s: Seq<char>, p: int) -> int
    decreases s.len() - p,
{
    if p <= 0 || p >= s.len() || s[p - 1] == '\n' {
        p
    } else {
        boundary_from(s, p + 1)
    }
}

/// Where chunk `i` of `workers` ends when it starts at `start`: it takes an
/// even share of what is left and grows to the next line boundary.
pub open spec fn share_end(s: Seq<char>, start: int, i: int, workers: int) -> int {
    boundary_from(s, start + (s.len() - start) / (workers - i))
}

/// The lines of each chunk, chunk after chunk.
pub open spec fn lines_of_chunks(s: Seq<char>, cs: Seq<Chunk>) -> Seq<Seq<char>>
    decreases cs.len(),
{
    if cs.len() == 0 {
        Seq::empty()
    } else {
        lines_of_chunks(s, cs.drop_last()) + lines_in(s, cs.last().start as int, cs.last().end as int)
    }
}

proof fn lemma_chunks_prefix(s: Seq<char>, cs: Seq<Chunk>, k: int)
    requires
        is_partition(s, cs),
        1 <= k <= cs.len(),
    ensures
        lines_of_chunks(s, cs.take(k)) == lines_in(s, 0, cs[k - 1].end as int),
    decreases k,
{
    let p = cs.take(k);
    assert(p.drop_last() =~= cs.take(k - 1));
    if k == 1 {
        assert(p.drop_last() =~= Seq::<Chunk>::empty());
        assert(p.last() == cs[0]);
        assert(lines_of_chunks(s, p.drop_last()) =~= Seq::<Seq<char>>::empty());
        assert(lines_of_chunks(s, p) =~= lines_in(s, 0, cs[0].end as int));
    } else {
        lemma_chunks_prefix(s, cs, k - 1);
        let m = cs[k - 2].end as int;
        assert(cs[k - 2].end == cs[k - 1].start);
        assert(cs[k - 1].start <= cs[k - 1].end);
        assert(is_line_boundary(s, m));
        lemma_lines_split(s, 0, m, cs[k - 1].end as int);
    }
}

/// Every line of the content is scanned once, in order: the lines of the
/// chunks of a partition, chunk after chunk, are the lines of the content.
pub proof fn lemma_partition_keeps_lines(s: Seq<char>, cs: Seq<Chunk>)
    requires
        is_partition(s, cs),
    ensures
        lines_of_chunks(s, cs) == lines_of(s),
{
    lemma_chunks_prefix(s, cs, cs.len() as int);
    assert(cs.take(cs.len() as int) =~= cs);
}

/// Cuts `content` into `workers` line-aligned chunks. Each chunk takes an even
/// share of what is left, then grows to the end of the line it stops in; where
/// there are fewer lines than workers the last chunks are empty.
pub fn partition(content: &Vec<char>, workers: usize) -> (r: Vec<Chunk>)
    requires
        workers >= 1,
    ensures
        r@.len() == workers,
        is_partition(content@, r@),
        forall|i: int|
            0 <= i < workers - 1 ==> #[trigger] r@[i].end == share_end(
                content@,
                r@[i].start as int,
                i,
                workers as int,
            ),
{
    let n = content.len();
    let mut out: Vec<Chunk> = Vec::new();
    let mut start: usize = 0;
    let mut i: usize = 0;
    while i < workers - 1
        invariant
            n == content@.len(),
            workers >= 1,
            i <= workers - 1,
            out@.len() == i,
            start <= n,
            is_line_boundary(content@, start as int),
            i == 0 ==> start == 0,
            i > 0 ==> out@[0].start == 0 && out@.last().end == start,
            forall|j: int|
                0 <= j < i ==> #[trigger] out@[j].start <= out@[j].end && is_line_boundary(
                    content@,
                    out@[j].end as int,
                ),
            forall|j: int| 0 <= j < i - 1 ==> #[trigger] out@[j].end == out@[j + 1].start,
            forall|j: int|
                0 <= j < i ==> #[trigger] out@[j].end == share_end(
                    content@,
                    out@[j].start as int,
                    j,
                    workers as int,
                ),
        decreases workers - 1 - i,
    {
        let left = workers - i;
        let rest = n - start;
        let share = rest / left;
        assert(share <= rest) by (nonlinear_arith)
            requires
                left >= 1,
                share == rest / left,
        ;
        let mut end = start + share;
        while end > 0 && end < n && content[end - 1] != '\n'
            invariant
                n == content@.len(),
                start <= end <= n,
                boundary_from(content@, end as int) == share_end(
                    content@,
                    start as int,
                    i as int,
                    workers as int,
                ),
            decreases n - end,
        {
            end = end + 1;
        }
        out.push(Chunk { start, end });
        start = end;
        i = i + 1;
    }
    out.push(Chunk { start, end: n });
    out
}

} // verus!
