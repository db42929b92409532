//! Properties of the engine that relate several runs or hold of every input.

use vstd::prelude::*;
use crate::engine::{chunk_tallies, run_outcome, lemma_merged_chunks, valid_filter};
use crate::level::{LogLevel, level_of, token};
use crate::partition::{Chunk, is_partition, lemma_partition_keeps_lines};
use crate::tally::{Tally, tally_of, merged, lines_at, lemma_tally_empty};
use crate::text::lines_of;

verus! {

/// The lines whose level is recognised.
pub open spec fn recognized(lines: Seq<Seq<char>>) -> Seq<Seq<char>> {
    lines.filter(|l: Seq<char>| level_of(l) is Some)
}

proof fn lemma_recognized_counts(lines: Seq<Seq<char>>)
    ensures
        lines_at(lines, LogLevel::Error).len() + lines_at(lines, LogLevel::Warning).len()
            + lines_at(lines, LogLevel::Info).len() + lines_at(lines, LogLevel::Debug).len()
            == recognized(lines).len(),
    decreases lines.len(),
{
    reveal(Seq::filter);
    if lines.len() > 0 {
        lemma_recognized_counts(lines.drop_last());
    }
}

/// Count conservation: whatever the partition, and so whatever the worker
/// count, the four level counts of the merged report add up to the number of
/// lines whose level is recognised.
pub proof fn lemma_count_conservation(s: Seq<char>, cs: Seq<Chunk>, filter: Seq<char>)
    requires
        is_partition(s, cs),
    ensures
        ({
            let t = merged(chunk_tallies(s, cs, filter));
            t.error + t.warning + t.info + t.debug == recognized(lines_of(s)).len()
        }),
{
    lemma_merged_chunks(s, cs, filter);
    lemma_partition_keeps_lines(s, cs);
    lemma_recognized_counts(lines_of(s));
}

/// Count conservation at the engine: a run with any non-zero worker count and
/// an absent or usable filter succeeds, and its four level counts add up to the
/// number of lines whose level is recognised.
pub proof fn lemma_run_count_conservation(
    threads: Option<u128>,
    content: Seq<char>,
    log_level: Option<Seq<char>>,
)
    requires
        threads != Some(0u128),
        log_level is None || valid_filter(log_level->0),
    ensures
        run_outcome(threads, content, log_level) is Ok,
        ({
            let t = run_outcome(threads, content, log_level)->Ok_0;
            t.error + t.warning + t.info + t.debug == recognized(lines_of(content)).len()
        }),
{
    lemma_recognized_counts(lines_of(content));
}

/// Worker-count invariance at the engine: runs with any two non-zero worker
/// counts (or the default) on the same content and filter give the same result.
pub proof fn lemma_run_worker_invariance(
    t1: Option<u128>,
    t2: Option<u128>,
    content: Seq<char>,
    log_level: Option<Seq<char>>,
)
    requires
        t1 != Some(0u128),
        t2 != Some(0u128),
    ensures
        run_outcome(t1, content, log_level) == run_outcome(t2, content, log_level),
{
}

/// Chunk-count invariance: two partitions of the same content, with any
/// numbers of chunks, merge into the same report, counts and filtered lines in
/// the same order.
pub proof fn lemma_chunk_count_invariance(
    s: Seq<char>,
    cs1: Seq<Chunk>,
    cs2: Seq<Chunk>,
    filter: Seq<char>,
)
    requires
        is_partition(s, cs1),
        is_partition(s, cs2),
    ensures
        merged(chunk_tallies(s, cs1, filter)) == merged(chunk_tallies(s, cs2, filter)),
{
    lemma_merged_chunks(s, cs1, filter);
    lemma_partition_keeps_lines(s, cs1);
    lemma_merged_chunks(s, cs2, filter);
    lemma_partition_keeps_lines(s, cs2);
}

/// Empty input: empty content has no lines, so every count is zero and no line
/// is filtered, under any filter.
pub proof fn lemma_empty_content(filter: Seq<char>)
    ensures
        tally_of(lines_of(Seq::empty()), filter) == Tally::zero(),
{
    assert(lines_of(Seq::<char>::empty()) =~= Seq::<Seq<char>>::empty());
    lemma_tally_empty(filter);
}

/// Default filter: a run without a filter token is a run with the Error
/// token, for any worker count and content.
pub proof fn lemma_default_filter(threads: Option<u128>, content: Seq<char>, explicit: Seq<char>)
    requires
        explicit == token(LogLevel::Error),
    ensures
        run_outcome(threads, content, None) == run_outcome(threads, content, Some(explicit)),
{
    assert(valid_filter(explicit)) by {
        if explicit.contains('\n') {
            let i = choose|i: int| 0 <= i < explicit.len() && explicit[i] == '\n';
            assert(explicit[i] != '\n');
        }
    }
}

} // verus!
