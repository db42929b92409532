//! The run configuration as plain values: what a command line asks for.

use vstd::prelude::*;
use crate::engine::{ConfigError, run_outcome, spread_tasks};
use crate::report::FinalReport;
use crate::tally::Tally;

verus! {

/// The operations the tool offers.
#[derive(Debug)]
pub enum EntityType {
    /// Write a file of random log lines.
    Generate(GenerateCommand),
    /// Count and filter the lines of a log file.
    Process(ProcessCommand),
}

/// Options of the generate operation.
#[derive(Debug)]
pub struct GenerateCommand {
    /// Name of the file to write; a default name where absent.
    pub filename: Option<String>,
    /// Number of lines to write; a default number where absent.
    pub lines: Option<u32>,
}

/// Options of the process operation.
#[derive(Debug)]
pub struct ProcessCommand {
    /// Path of the log file.
    pub file: String,
    /// Number of workers; one per available CPU where absent.
    pub threads: Option<u128>,
    /// Filter token; the Error token where absent.
    pub log_level: Option<String>,
}

/// The whole command line: one operation.
#[allow(non_camel_case_types)]
#[derive(Debug)]
pub struct Concurrent_Log_Processor {
    pub entity_type: EntityType,
}

impl ProcessCommand {
    /// Runs the engine on `content`, the text of `self.file`, with the worker
    /// count and filter token of this command.
    pub fn run(&self, content: &str) -> (r: Result<FinalReport, ConfigError>)
        ensures
            match r {
                Ok(report) => run_outcome(self.threads, content@, self.log_level.deep_view())
                    == Ok::<Tally, ConfigError>(report@),
                Err(e) => run_outcome(self.threads, content@, self.log_level.deep_view()) == Err::<
                    Tally,
                    ConfigError,
                >(e),
            },
    {
        let log_level = match &self.log_level {
            Some(f) => Some(f.clone()),
            None => None,
        };
        spread_tasks(self.threads, content, log_level)
    }
}

} // verus!
