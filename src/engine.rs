//! The engine: validates the configuration, partitions the content, scans the
//! chunks in parallel and merges their results in chunk order.

use vstd::prelude::*;
use rayon::iter::{IndexedParallelIterator, IntoParallelRefIterator, ParallelIterator};
use crate::level::{LogLevel, token};
use crate::partition::{Chunk, partition, lines_of_chunks, lemma_partition_keeps_lines};
use crate::report::{FinalReport, PartialResult};
use crate::tally::{Tally, tally_of, merged, lemma_tally_concat, lemma_tally_bounded, lemma_tally_empty};
use crate::text::{chars_of, lines_in, lines_of, lemma_lines_len};
use crate::worker::scan_chunk;

verus! {

/// Why a run was refused before any chunk was scanned.
#[derive(Debug, Clone, Copy, PartialEq, Eq, Structural)]
pub enum ConfigError {
    /// The worker count is zero.
    InvalidWorkerCount,
    /// The filter token is empty or holds a line feed, so it cannot select a line.
    InvalidFilter,
}

/// The tallies of the chunks, in chunk order.
pub open spec fn chunk_tallies(s: Seq<char>, cs: Seq<Chunk>, filter: Seq<char>) -> Seq<Tally> {
    cs.map_values(|c: Chunk| tally_of(lines_in(s, c.start as int, c.end as int), filter))
}

/// The views of partial results, in order.
pub open spec fn views(parts: Seq<PartialResult>) -> Seq<Tally> {
    parts.map_values(|p: PartialResult| p@)
}

/// A filter token can select a line: it is not empty and holds no line feed.
pub open spec fn valid_filter(f: Seq<char>) -> bool {
    f.len() > 0 && !f.contains('\n')
}

/// The filter token in force: the one given, or the Error token.
pub open spec fn filter_or_default(log_level: Option<Seq<char>>) -> Seq<char> {
    match log_level {
        Some(f) => f,
        None => token(LogLevel::Error),
    }
}

/// What a run on `content` returns: a configuration error, or the tally of all
/// its lines under the filter in force. The worker count, where valid, does not
/// change the result.
pub open spec fn run_outcome(
    threads: Option<u128>,
    content: Seq<char>,
    log_level: Option<Seq<char>>,
) -> Result<Tally, ConfigError> {
    if threads == Some(0u128) {
        Err(ConfigError::InvalidWorkerCount)
    } else if log_level is Some && !valid_filter(log_level->0) {
        Err(ConfigError::InvalidFilter)
    } else {
        Ok(tally_of(lines_of(content), filter_or_default(log_level)))
    }
}

proof fn lemma_merged_prefix_le(ts: Seq<Tally>, k: int)
    requires
        0 <= k <= ts.len(),
    ensures
        merged(ts.take(k)).error <= merged(ts).error,
        merged(ts.take(k)).warning <= merged(ts).warning,
        merged(ts.take(k)).info <= merged(ts).info,
        merged(ts.take(k)).debug <= merged(ts).debug,
        merged(ts.take(k)).filtered_count <= merged(ts).filtered_count,
    decreases ts.len(),
{
    if k == ts.len() {
        assert(ts.take(k) =~= ts);
    } else {
        assert(ts.drop_last().take(k) =~= ts.take(k));
        lemma_merged_prefix_le(ts.drop_last(), k);
    }
}

/// Merging the chunk tallies gives the tally of the lines of all chunks.
pub proof fn lemma_merged_chunks(s: Seq<char>, cs: Seq<Chunk>, filter: Seq<char>)
    ensures
        merged(chunk_tallies(s, cs, filter)) == tally_of(lines_of_chunks(s, cs), filter),
    decreases cs.len(),
{
    if cs.len() == 0 {
        lemma_tally_empty(filter);
    } else {
        let c = cs.last();
        assert(chunk_tallies(s, cs, filter).drop_last() =~= chunk_tallies(s, cs.drop_last(), filter));
        lemma_merged_chunks(s, cs.drop_last(), filter);
        lemma_tally_concat(
            lines_of_chunks(s, cs.drop_last()),
            lines_in(s, c.start as int, c.end as int),
            filter,
        );
    }
}

/// Merges the partial results in the order given: counts are summed level by
/// level, and the filtered lines of each result follow those of the one before.
pub fn aggregate(parts: Vec<PartialResult>) -> (r: FinalReport)
    requires
        merged(views(parts@)).fits(),
    ensures
        r@ == merged(views(parts@)),
{
    let ghost all = views(parts@);
    let n = parts.len();
    let mut rest = parts;
    let mut report = FinalReport::new();
    let mut i: usize = 0;
    while i < n
        invariant
            n == all.len(),
            i <= n,
            merged(all).fits(),
            rest@.len() == n - i,
            views(rest@) == all.subrange(i as int, n as int),
            report@ == merged(all.take(i as int)),
        decreases n - i,
    {
        let ghost before = rest@;
        let mut part = rest.remove(0);
        proof {
            assert(views(before)[0] == part@);
            assert forall|j: int| 0 <= j < rest@.len() implies views(rest@)[j] == all.subrange(
                i + 1,
                n as int,
            )[j] by {
                assert(rest@[j] == before[j + 1]);
                assert(views(before)[j + 1] == all.subrange(i as int, n as int)[j + 1]);
            }
            assert(views(rest@) =~= all.subrange(i + 1, n as int));
            assert(all.take(i + 1).drop_last() =~= all.take(i as int));
            lemma_merged_prefix_le(all, i + 1);
        }
        report.merge(&mut part);
        i = i + 1;
    }
    assert(all.take(n as int) =~= all);
    report
}

#[verifier::external_type_specification]
#[verifier::external_body]
pub struct ExThreadPool(rayon::ThreadPool);

#[verifier::external_type_specification]
#[verifier::external_body]
pub struct ExThreadPoolBuildError(rayon::ThreadPoolBuildError);

/// Relies on rayon's `ThreadPoolBuilder::num_threads` and `build`: a pool of
/// `threads` worker threads, or an error where the threads cannot be started.
#[verifier::external_body]
fn build_pool(threads: usize) -> (r: Result<rayon::ThreadPool, rayon::ThreadPoolBuildError>)
    requires
        threads >= 1,
{
    rayon::ThreadPoolBuilder::new().num_threads(threads).build()
}

/// Relies on rayon's `ThreadPool::install` with `par_iter` over a slice, `map`
/// and `collect_into_vec`: each chunk is scanned by `scan_chunk` on a thread of
/// `pool`, and the results are collected in chunk order.
#[verifier::external_body]
fn scan_in_pool(
    pool: &rayon::ThreadPool,
    content: &Vec<char>,
    chunks: &Vec<Chunk>,
    filter: &Vec<char>,
) -> (r: Vec<PartialResult>)
    requires
        forall|i: int|
            0 <= i < chunks@.len() ==> #[trigger] chunks@[i].start <= chunks@[i].end
                <= content@.len(),
    ensures
        views(r@) == chunk_tallies(content@, chunks@, filter@),
{
    let mut out = Vec::new();
    pool.install(
        || chunks.par_iter().map(|c| scan_chunk(content, c, filter)).collect_into_vec(&mut out),
    );
    out
}

/// Scans the chunks one after another, on the calling thread.
pub fn scan_in_turn(content: &Vec<char>, chunks: &Vec<Chunk>, filter: &Vec<char>) -> (r: Vec<
    PartialResult,
>)
    requires
        forall|i: int|
            0 <= i < chunks@.len() ==> #[trigger] chunks@[i].start <= chunks@[i].end
                <= content@.len(),
    ensures
        views(r@) == chunk_tallies(content@, chunks@, filter@),
{
    let mut out: Vec<PartialResult> = Vec::new();
    let mut i: usize = 0;
    while i < chunks.len()
        invariant
            i <= chunks@.len(),
            out@.len() == i,
            forall|j: int|
                0 <= j < chunks@.len() ==> #[trigger] chunks@[j].start <= chunks@[j].end
                    <= content@.len(),
            forall|j: int|
                0 <= j < i ==> #[trigger] out@[j]@ == tally_of(
                    lines_in(content@, chunks@[j].start as int, chunks@[j].end as int),
                    filter@,
                ),
        decreases chunks@.len() - i,
    {
        out.push(scan_chunk(content, &chunks[i], filter));
        i = i + 1;
    }
    assert(views(out@) =~= chunk_tallies(content@, chunks@, filter@));
    out
}

/// Relies on `num_cpus::get`: the number of logical CPUs this process may
/// use, documented to be at least one.
#[verifier::external_body]
fn available_cpus() -> (r: usize)
    ensures
        r >= 1,
{
    num_cpus::get()
}

/// Counts the lines of `content` by level and collects those that hold the
/// filter token (the Error token where none is given). The content is cut into
/// one chunk per worker, `threads` of them (one per available CPU where none is
/// given), but never more chunks than chars, and the chunks are scanned on a
/// pool of that many threads; where the pool cannot be started they are
/// scanned in turn, with the same result.
pub fn spread_tasks(threads: Option<u128>, content: &str, log_level: Option<String>) -> (r: Result<
    FinalReport,
    ConfigError,
>)
    ensures
        match r {
            Ok(report) => run_outcome(threads, content@, log_level.deep_view()) == Ok::<
                Tally,
                ConfigError,
            >(report@),
            Err(e) => run_outcome(threads, content@, log_level.deep_view()) == Err::<
                Tally,
                ConfigError,
            >(e),
        },
{
    if threads == Some(0u128) {
        return Err(ConfigError::InvalidWorkerCount);
    }
    let filter: Vec<char> = match &log_level {
        Some(f) => {
            let f = chars_of(f.as_str());
            if !is_valid_filter(&f) {
                return Err(ConfigError::InvalidFilter);
            }
            f
        },
        None => LogLevel::Error.token_chars(),
    };
    let chars = chars_of(content);
    let most: usize = if chars.len() == 0 {
        1
    } else {
        chars.len()
    };
    let workers: usize = match threads {
        Some(t) => if t > most as u128 {
            most
        } else {
            t as usize
        },
        None => {
            let n = available_cpus();
            if n > most {
                most
            } else {
                n
            }
        },
    };
    let chunks = partition(&chars, workers);
    let parts = match build_pool(workers) {
        Ok(pool) => scan_in_pool(&pool, &chars, &chunks, &filter),
        Err(_) => scan_in_turn(&chars, &chunks, &filter),
    };
    proof {
        lemma_merged_chunks(chars@, chunks@, filter@);
        lemma_partition_keeps_lines(chars@, chunks@);
        lemma_lines_len(chars@, 0, chars@.len() as int);
        lemma_tally_bounded(lines_of(chars@), filter@);
    }
    Ok(aggregate(parts))
}

/// Whether a filter token can select a line.
pub fn is_valid_filter(f: &Vec<char>) -> (r: bool)
    ensures
        r == valid_filter(f@),
{
    if f.len() == 0 {
        return false;
    }
    let mut i: usize = 0;
    while i < f.len()
        invariant
            i <= f@.len(),
            forall|j: int| 0 <= j < i ==> f@[j] != '\n',
        decreases f@.len() - i,
    {
        if f[i] == '\n' {
            assert(f@.contains('\n'));
            return false;
        }
        i = i + 1;
    }
    true
}

} // verus!
