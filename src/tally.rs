//! Per-level counts and filtered lines: what one worker finds in its chunk, and
//! the file-wide report that the partial results merge into.

use vstd::prelude::*;
use crate::level::{LogLevel, level_of};
use crate::text::contains;

verus! {

/// What a set of lines amounts to: a count per level, and the lines that hold
/// the filter token, in order, with their number.
pub struct Tally {
    pub error: nat,
    pub warning: nat,
    pub info: nat,
    pub debug: nat,
    pub filtered_count: nat,
    pub filtered_lines: Seq<Seq<char>>,
}

impl Tally {
    pub open spec fn zero() -> Tally {
        Tally {
            error: 0,
            warning: 0,
            info: 0,
            debug: 0,
            filtered_count: 0,
            filtered_lines: Seq::empty(),
        }
    }

    /// Counts added level by level, filtered lines of `self` before those of `o`.
    pub open spec fn add(self, o: Tally) -> Tally {
        Tally {
            error: self.error + o.error,
            warning: self.warning + o.warning,
            info: self.info + o.info,
            debug: self.debug + o.debug,
            filtered_count: self.filtered_count + o.filtered_count,
            filtered_lines: self.filtered_lines + o.filtered_lines,
        }
    }

    pub open spec fn count(self, level: LogLevel) -> nat {
        match level {
            LogLevel::Error => self.error,
            LogLevel::Warning => self.warning,
            LogLevel::Info => self.info,
            LogLevel::Debug => self.debug,
        }
    }

    /// Every count, and the number of filtered lines, fits in a `u128`.
    pub open spec fn fits(self) -> bool {
        self.error <= u128::MAX && self.warning <= u128::MAX && self.info <= u128::MAX
            && self.debug <= u128::MAX && self.filtered_count <= u128::MAX
    }
}

/// The lines counted under `level`.
pub open spec fn lines_at(lines: Seq<Seq<char>>, level: LogLevel) -> Seq<Seq<char>> {
    lines.filter(|l: Seq<char>| level_of(l) == Some(level))
}

/// A line is selected by the filter when it is not empty and holds the token.
pub open spec fn selected(line: Seq<char>, filter: Seq<char>) -> bool {
    line.len() > 0 && contains(line, filter)
}

/// The non-empty lines that hold `filter`, in order.
pub open spec fn matching(lines: Seq<Seq<char>>, filter: Seq<char>) -> Seq<Seq<char>> {
    lines.filter(|l: Seq<char>| selected(l, filter))
}

/// The tally of a sequence of lines under a filter token.
pub open spec fn tally_of(lines: Seq<Seq<char>>, filter: Seq<char>) -> Tally {
    Tally {
        error: lines_at(lines, LogLevel::Error).len(),
        warning: lines_at(lines, LogLevel::Warning).len(),
        info: lines_at(lines, LogLevel::Info).len(),
        debug: lines_at(lines, LogLevel::Debug).len(),
        filtered_count: matching(lines, filter).len(),
        filtered_lines: matching(lines, filter),
    }
}

/// The tally of tallies, merged in order.
pub open spec fn merged(ts: Seq<Tally>) -> Tally
    decreases ts.len(),
{
    if ts.len() == 0 {
        Tally::zero()
    } else {
        merged(ts.drop_last()).add(ts.last())
    }
}

/// Tallies of two runs of lines add up to the tally of the two together.
pub proof fn lemma_tally_concat(a: Seq<Seq<char>>, b: Seq<Seq<char>>, filter: Seq<char>)
    ensures
        tally_of(a + b, filter) == tally_of(a, filter).add(tally_of(b, filter)),
{
    broadcast use Seq::filter_distributes_over_add;

    assert(lines_at(a + b, LogLevel::Error) == lines_at(a, LogLevel::Error) + lines_at(
        b,
        LogLevel::Error,
    ));
    assert(lines_at(a + b, LogLevel::Warning) == lines_at(a, LogLevel::Warning) + lines_at(
        b,
        LogLevel::Warning,
    ));
    assert(lines_at(a + b, LogLevel::Info) == lines_at(a, LogLevel::Info) + lines_at(
        b,
        LogLevel::Info,
    ));
    assert(lines_at(a + b, LogLevel::Debug) == lines_at(a, LogLevel::Debug) + lines_at(
        b,
        LogLevel::Debug,
    ));
    assert(matching(a + b, filter) == matching(a, filter) + matching(b, filter));
}

/// The tally of no lines is zero.
pub proof fn lemma_tally_empty(filter: Seq<char>)
    ensures
        tally_of(Seq::empty(), filter) == Tally::zero(),
{
    reveal(Seq::filter);
    assert(tally_of(Seq::empty(), filter) =~= Tally::zero());
}

/// The tally of one line.
pub proof fn lemma_tally_one(line: Seq<char>, filter: Seq<char>)
    ensures
        tally_of(seq![line], filter).count(LogLevel::Error) == (if level_of(line) == Some(
            LogLevel::Error,
        ) {
            1nat
        } else {
            0
        }),
        tally_of(seq![line], filter).count(LogLevel::Warning) == (if level_of(line) == Some(
            LogLevel::Warning,
        ) {
            1nat
        } else {
            0
        }),
        tally_of(seq![line], filter).count(LogLevel::Info) == (if level_of(line) == Some(
            LogLevel::Info,
        ) {
            1nat
        } else {
            0
        }),
        tally_of(seq![line], filter).count(LogLevel::Debug) == (if level_of(line) == Some(
            LogLevel::Debug,
        ) {
            1nat
        } else {
            0
        }),
        tally_of(seq![line], filter).filtered_lines == (if selected(line, filter) {
            seq![line]
        } else {
            Seq::empty()
        }),
{
    reveal_with_fuel(Seq::filter, 2);
    let s = seq![line];
    assert(s.drop_last() =~= Seq::<Seq<char>>::empty());
}

} // verus!

verus! {

/// No count exceeds the number of lines.
pub proof fn lemma_tally_bounded(lines: Seq<Seq<char>>, filter: Seq<char>)
    ensures
        tally_of(lines, filter).error <= lines.len(),
        tally_of(lines, filter).warning <= lines.len(),
        tally_of(lines, filter).info <= lines.len(),
        tally_of(lines, filter).debug <= lines.len(),
        tally_of(lines, filter).filtered_count <= lines.len(),
{
    lines.lemma_filter_len(|l: Seq<char>| level_of(l) == Some(LogLevel::Error));
    lines.lemma_filter_len(|l: Seq<char>| level_of(l) == Some(LogLevel::Warning));
    lines.lemma_filter_len(|l: Seq<char>| level_of(l) == Some(LogLevel::Info));
    lines.lemma_filter_len(|l: Seq<char>| level_of(l) == Some(LogLevel::Debug));
    lines.lemma_filter_len(|l: Seq<char>| selected(l, filter));
}

} // verus!
