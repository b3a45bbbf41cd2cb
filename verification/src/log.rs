use vstd::prelude::*;

verus! {

/// Severity of a log record, most severe first.
#[derive(Debug, Copy, Clone, PartialEq, Eq, Structural)]
pub enum Level {
    Error,
    Warn,
    Info,
    Debug,
    Trace,
}

/// The least severe level that is logged, or `Off` for none.
#[derive(Debug, Copy, Clone, PartialEq, Eq, Structural)]
pub enum LevelFilter {
    Off,
    Error,
    Warn,
    Info,
    Debug,
    Trace,
}

/// Rank of a level: 1 for `Error` up to 5 for `Trace`.
pub open spec fn level_rank(level: Level) -> int {
    match level {
        Level::Error => 1,
        Level::Warn => 2,
        Level::Info => 3,
        Level::Debug => 4,
        Level::Trace => 5,
    }
}

/// Rank of a filter: 0 for `Off` up to 5 for `Trace`.
pub open spec fn filter_rank(filter: LevelFilter) -> int {
    match filter {
        LevelFilter::Off => 0,
        LevelFilter::Error => 1,
        LevelFilter::Warn => 2,
        LevelFilter::Info => 3,
        LevelFilter::Debug => 4,
        LevelFilter::Trace => 5,
    }
}

/// Whether a filter lets records of a level through: `Off` none, and each
/// other filter records of its own level and of every more severe one (the
/// levels from most to least severe are Error, Warn, Info, Debug, Trace).
pub open spec fn lets_through(filter: LevelFilter, level: Level) -> bool {
    match filter {
        LevelFilter::Off => false,
        LevelFilter::Error => level == Level::Error,
        LevelFilter::Warn => level == Level::Error || level == Level::Warn,
        LevelFilter::Info => level != Level::Debug && level != Level::Trace,
        LevelFilter::Debug => level != Level::Trace,
        LevelFilter::Trace => true,
    }
}

/// Comparing ranks lets a record through exactly when its level is at least
/// as severe as the filter's level.
pub proof fn lemma_rank_order_is_severity(level: Level, filter: LevelFilter)
    ensures
        (level_rank(level) <= filter_rank(filter)) == lets_through(filter, level),
{
}

/// Ranks rise strictly from the most severe level to the least severe one,
/// and each level has the rank of the filter of the same name.
pub proof fn lemma_ranks_ordered()
    ensures
        level_rank(Level::Error) < level_rank(Level::Warn) < level_rank(Level::Info) < level_rank(
            Level::Debug,
        ) < level_rank(Level::Trace),
        level_rank(Level::Error) == filter_rank(LevelFilter::Error),
        level_rank(Level::Warn) == filter_rank(LevelFilter::Warn),
        level_rank(Level::Info) == filter_rank(LevelFilter::Info),
        level_rank(Level::Debug) == filter_rank(LevelFilter::Debug),
        level_rank(Level::Trace) == filter_rank(LevelFilter::Trace),
        filter_rank(LevelFilter::Off) < level_rank(Level::Error),
{
}

fn level_code(level: Level) -> (r: u8)
    ensures
        r == level_rank(level),
{
    match level {
        Level::Error => 1,
        Level::Warn => 2,
        Level::Info => 3,
        Level::Debug => 4,
        Level::Trace => 5,
    }
}

fn filter_code(filter: LevelFilter) -> (r: u8)
    ensures
        r == filter_rank(filter),
{
    match filter {
        LevelFilter::Off => 0,
        LevelFilter::Error => 1,
        LevelFilter::Warn => 2,
        LevelFilter::Info => 3,
        LevelFilter::Debug => 4,
        LevelFilter::Trace => 5,
    }
}

/// The proxy's log sink: records go to standard output, prefixed with the
/// time and the current log scope.
pub struct Logger;

impl Logger {
    /// Whether a record of `level` is logged under the filter `max_level`:
    /// when it is at least as severe as the filter lets through.
    pub fn enabled(&self, level: Level, max_level: LevelFilter) -> (r: bool)
        ensures
            r == (level_rank(level) <= filter_rank(max_level)),
            r == lets_through(max_level, level),
    {
        proof {
            lemma_rank_order_is_severity(level, max_level);
        }
        level_code(level) <= filter_code(max_level)
    }
}

} // verus!
