//! The commands: their arguments, rules and state.
pub mod args;
pub mod auto_encode;
pub mod crf_search;
pub mod encode;
pub mod print_completions;
pub mod rules;
pub mod sample_encode;
pub mod score;
pub mod worker;
pub mod worker_protocol;
pub mod worker_transfer;

use vstd::prelude::*;

verus! {

/// A command of the program.
#[derive(Debug, Clone, Copy, PartialEq, Eq, Structural)]
pub enum CommandKind {
    SampleEncode,
    Vmaf,
    Xpsnr,
    Encode,
    CrfSearch,
    AutoEncode,
    PrintCompletions,
    Worker,
}

impl CommandKind {
    /// Whether a command takes samples, and with them the flag that keeps
    /// temporary files.
    pub open spec fn samples(self) -> bool {
        self == CommandKind::SampleEncode || self == CommandKind::CrfSearch || self
            == CommandKind::AutoEncode
    }

    /// Whether temporary files are kept: only commands that take samples can be
    /// told so.
    pub fn keep_temp_files(self, keep: bool) -> (r: bool)
        ensures
            r == (self.samples() && keep),
    {
        match self {
            Self::SampleEncode => keep,
            Self::CrfSearch => keep,
            Self::AutoEncode => keep,
            _ => false,
        }
    }
}

/// How much a command says.
#[derive(Debug, Clone, Copy, PartialEq, Eq, Structural)]
pub enum Level {
    Error,
    Warn,
    Info,
    Debug,
    Trace,
}

/// What is printed while a search goes on.
#[derive(Debug, Clone, Copy, PartialEq, Eq, Structural)]
pub struct PrintedResults {
    /// The result of each sample.
    pub samples: bool,
    /// The result of each run.
    pub runs: bool,
}

/// What a crf search prints: runs always, samples once it says more than
/// errors.
pub fn search_prints(level: Option<Level>) -> (r: PrintedResults)
    ensures
        r.runs,
        r.samples == (level is Some && level != Some(Level::Error)),
{
    let samples = match level {
        None => false,
        Some(Level::Error) => false,
        Some(_) => true,
    };
    PrintedResults { samples, runs: true }
}

/// What an automatic encode prints: runs once it says more than errors, samples
/// once it says more than warnings.
pub fn auto_encode_prints(level: Option<Level>) -> (r: PrintedResults)
    ensures
        r.runs == (level is Some && level != Some(Level::Error)),
        r.samples == (r.runs && level != Some(Level::Warn)),
{
    match level {
        None => PrintedResults { samples: false, runs: false },
        Some(Level::Error) => PrintedResults { samples: false, runs: false },
        Some(Level::Warn) => PrintedResults { samples: false, runs: true },
        Some(_) => PrintedResults { samples: true, runs: true },
    }
}

} // verus!
