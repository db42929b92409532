//! The executable results: one worker's partial result and the merged report.

use vstd::prelude::*;
use crate::level::{LogLevel, check_log_levels};
use crate::tally::{Tally, tally_of, lemma_tally_one};
use crate::text::{contains_in, string_of};

verus! {

/// The number of lines counted under each level.
#[derive(Debug, Clone, Copy, PartialEq, Eq)]
pub struct LevelCounts {
    pub error: u128,
    pub warning: u128,
    pub info: u128,
    pub debug: u128,
}

impl LevelCounts {
    /// All four counts at zero.
    pub fn new() -> (r: LevelCounts)
        ensures
            r.error == 0 && r.warning == 0 && r.info == 0 && r.debug == 0,
    {
        LevelCounts { error: 0, warning: 0, info: 0, debug: 0 }
    }

    pub open spec fn spec_get(&self, level: LogLevel) -> u128 {
        match level {
            LogLevel::Error => self.error,
            LogLevel::Warning => self.warning,
            LogLevel::Info => self.info,
            LogLevel::Debug => self.debug,
        }
    }

    /// The count of one level.
    pub fn get(&self, level: LogLevel) -> (r: u128)
        ensures
            r == self.spec_get(level),
    {
        match level {
            LogLevel::Error => self.error,
            LogLevel::Warning => self.warning,
            LogLevel::Info => self.info,
            LogLevel::Debug => self.debug,
        }
    }

    /// The sum of the four counts.
    pub fn total(&self) -> (r: u128)
        requires
            self.error + self.warning + self.info + self.debug <= u128::MAX,
        ensures
            r == self.error + self.warning + self.info + self.debug,
    {
        self.error + self.warning + self.info + self.debug
    }
}

/// What one worker found in its chunk.
#[derive(Debug, PartialEq, Eq)]
pub struct PartialResult {
    pub counts: LevelCounts,
    pub filtered_count: u128,
    pub filtered_lines: Vec<String>,
}

/// The file-wide result: the partial results of all chunks, merged in chunk order.
#[derive(Debug, PartialEq, Eq)]
pub struct FinalReport {
    pub counts: LevelCounts,
    pub filtered_count: u128,
    pub filtered_lines: Vec<String>,
}

/// The counts as a tally, with the given filtered lines.
pub open spec fn tally_view(
    counts: LevelCounts,
    filtered_count: u128,
    filtered_lines: Seq<Seq<char>>,
) -> Tally {
    Tally {
        error: counts.error as nat,
        warning: counts.warning as nat,
        info: counts.info as nat,
        debug: counts.debug as nat,
        filtered_count: filtered_count as nat,
        filtered_lines,
    }
}

/// The text of each string, in order.
pub proof fn lemma_strings_view(v: Vec<String>)
    ensures
        v.deep_view() =~= v@.map_values(|s: String| s@),
{
}

/// Room for one more line in every count.
pub open spec fn has_room(t: Tally) -> bool {
    t.error < u128::MAX && t.warning < u128::MAX && t.info < u128::MAX && t.debug < u128::MAX
        && t.filtered_count < u128::MAX
}

impl View for PartialResult {
    type V = Tally;

    open spec fn view(&self) -> Tally {
        tally_view(self.counts, self.filtered_count, self.filtered_lines.deep_view())
    }
}

impl View for FinalReport {
    type V = Tally;

    open spec fn view(&self) -> Tally {
        tally_view(self.counts, self.filtered_count, self.filtered_lines.deep_view())
    }
}

impl PartialResult {
    /// A result with nothing found yet.
    pub fn new() -> (r: PartialResult)
        ensures
            r@ == Tally::zero(),
    {
        let r = PartialResult { counts: LevelCounts::new(), filtered_count: 0, filtered_lines: Vec::new() };
        assert(r@.filtered_lines =~= Seq::<Seq<char>>::empty());
        r
    }
}

impl FinalReport {
    /// A report of no lines.
    pub fn new() -> (r: FinalReport)
        ensures
            r@ == Tally::zero(),
    {
        let r = FinalReport { counts: LevelCounts::new(), filtered_count: 0, filtered_lines: Vec::new() };
        assert(r@.filtered_lines =~= Seq::<Seq<char>>::empty());
        r
    }

    /// Adds one partial result after those merged so far: counts are summed
    /// level by level and its filtered lines come after the present ones.
    pub fn merge(&mut self, part: &mut PartialResult)
        requires
            old(self)@.add(old(part)@).fits(),
        ensures
            final(self)@ == old(self)@.add(old(part)@),
    {
        self.counts.error = self.counts.error + part.counts.error;
        self.counts.warning = self.counts.warning + part.counts.warning;
        self.counts.info = self.counts.info + part.counts.info;
        self.counts.debug = self.counts.debug + part.counts.debug;
        self.filtered_count = self.filtered_count + part.filtered_count;
        self.filtered_lines.append(&mut part.filtered_lines);
        proof {
            lemma_strings_view(self.filtered_lines);
            lemma_strings_view(old(self).filtered_lines);
            lemma_strings_view(old(part).filtered_lines);
            assert(self.filtered_lines.deep_view() =~= old(self).filtered_lines.deep_view()
                + old(part).filtered_lines.deep_view());
        }
    }
}

/// Adds the line `content[from..to)` to `acc`: its level's count goes up by
/// one, and where it is not empty and holds `filter` the line is appended to
/// the filtered lines.
pub fn process(
    content: &Vec<char>,
    from: usize,
    to: usize,
    filter: &Vec<char>,
    acc: &mut PartialResult,
)
    requires
        from <= to <= content@.len(),
        has_room(old(acc)@),
    ensures
        final(acc)@ == old(acc)@.add(
            tally_of(seq![content@.subrange(from as int, to as int)], filter@),
        ),
{
    let ghost line = content@.subrange(from as int, to as int);
    proof {
        lemma_tally_one(line, filter@);
    }
    if from < to && contains_in(content, from, to, filter) {
        acc.filtered_count = acc.filtered_count + 1;
        let s = string_of(content, from, to);
        acc.filtered_lines.push(s);
        proof {
            lemma_strings_view(acc.filtered_lines);
            lemma_strings_view(old(acc).filtered_lines);
            assert(acc.filtered_lines.deep_view() =~= old(acc).filtered_lines.deep_view() + seq![
                line,
            ]);
        }
    } else {
        assert(acc.filtered_lines.deep_view() =~= old(acc).filtered_lines.deep_view() + Seq::<
            Seq<char>,
        >::empty());
    }
    match check_log_levels(content, from, to) {
        Some(LogLevel::Error) => {
            acc.counts.error = acc.counts.error + 1;
        },
        Some(LogLevel::Warning) => {
            acc.counts.warning = acc.counts.warning + 1;
        },
        Some(LogLevel::Info) => {
            acc.counts.info = acc.counts.info + 1;
        },
        Some(LogLevel::Debug) => {
            acc.counts.debug = acc.counts.debug + 1;
        },
        None => {},
    }
    assert(acc@ =~= old(acc)@.add(tally_of(seq![line], filter@)));
}

} // verus!
