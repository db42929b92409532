//! The worker: scans one chunk line by line.

use vstd::prelude::*;
use crate::partition::Chunk;
use crate::report::{PartialResult, process};
use crate::tally::{tally_of, lemma_tally_bounded, lemma_tally_concat, lemma_tally_empty};
use crate::text::{
    lines_in, line_stop, lemma_lines_split, lemma_line_end_at, lemma_line_end_prefix,
    lemma_lines_len,
};

verus! {

/// Counts the lines of `content[chunk.start..chunk.end)` by level and collects,
/// in order, those that hold `filter`.
pub fn scan_chunk(content: &Vec<char>, chunk: &Chunk, filter: &Vec<char>) -> (r: PartialResult)
    requires
        chunk.start <= chunk.end <= content@.len(),
    ensures
        r@ == tally_of(lines_in(content@, chunk.start as int, chunk.end as int), filter@),
{
    let ghost s = content@;
    let start = chunk.start;
    let end = chunk.end;
    let mut acc = PartialResult::new();
    let mut pos = start;
    proof {
        lemma_tally_empty(filter@);
    }
    while pos < end
        invariant
            s == content@,
            start <= pos <= end <= s.len(),
            pos == start || pos == end || s[pos - 1] == '\n',
            acc@ == tally_of(lines_in(s, start as int, pos as int), filter@),
        decreases end - pos,
    {
        let mut k = pos;
        while k < end && content[k] != '\n'
            invariant
                pos <= k <= end <= s.len(),
                s == content@,
                forall|j: int| pos <= j < k ==> s[j] != '\n',
            decreases end - k,
        {
            k = k + 1;
        }
        let stop = if k < end && k > pos && content[k - 1] == '\r' {
            k - 1
        } else {
            k
        };
        let next = if k < end {
            k + 1
        } else {
            end
        };
        proof {
            let line = s.subrange(pos as int, stop as int);
            lemma_line_end_at(s, pos as int, k as int, end as int);
            if k < end {
                lemma_line_end_prefix(s, pos as int, next as int, end as int);
                assert(lines_in(s, next as int, next as int) =~= Seq::<Seq<char>>::empty());
            }
            assert(stop == line_stop(s, pos as int, k as int, next as int));
            assert(lines_in(s, pos as int, next as int) =~= seq![line]);
            lemma_lines_split(s, start as int, pos as int, next as int);
            lemma_tally_concat(lines_in(s, start as int, pos as int), seq![line], filter@);
            lemma_lines_len(s, start as int, pos as int);
            lemma_tally_bounded(lines_in(s, start as int, pos as int), filter@);
        }
        process(content, pos, stop, filter, &mut acc);
        pos = next;
    }
    acc
}

} // verus!
