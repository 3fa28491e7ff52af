use vstd::prelude::*;
use crate::plan::TestSelection;
use crate::types::OutputMode;

verus! {

/// The parsed command line: global options and one command.
#[derive(Debug, Clone)]
pub struct Cli {
    pub json: bool,
    pub db: String,
    pub verbose: bool,
    pub command: Commands,
}

/// The commands of the tool.
#[derive(Debug, Clone)]
pub enum Commands {
    List,
    Info {
        drive: String,
    },
    Test {
        mount: String,
        capacity: bool,
        speed: bool,
        badblock: bool,
        thermal: Option<u64>,
        all: bool,
        no_save: bool,
        export_html: Option<String>,
        test_size_mb: u64,
    },
    Report {
        action: ReportAction,
    },
}

/// What the `report` command does with the saved reports.
#[derive(Debug, Clone)]
pub enum ReportAction {
    List,
    Show {
        id: String,
    },
    Export {
        id: String,
        html: String,
    },
    Delete {
        id: String,
    },
}

impl Cli {
    /// JSON output with `--json`, human-readable output otherwise.
    pub fn output_mode(&self) -> (m: OutputMode)
        ensures
            m == (if self.json {
                OutputMode::Json
            } else {
                OutputMode::Human
            }),
    {
        if self.json {
            OutputMode::Json
        } else {
            OutputMode::Human
        }
    }

    /// The tests that a `test` command selects (`None` for another command).
    pub fn test_selection(&self) -> (s: Option<TestSelection>)
        ensures
            match self.command {
                Commands::Test { capacity, speed, badblock, thermal, all, .. } => s == Some(
                    TestSelection {
                        capacity: capacity || all,
                        speed: speed || all,
                        badblock: badblock || all,
                        thermal: if all {
                            Some(crate::plan::DEFAULT_THERMAL_SECS)
                        } else {
                            thermal
                        },
                    },
                ),
                _ => s is None,
            },
    {
        match &self.command {
            Commands::Test { capacity, speed, badblock, thermal, all, .. } => Some(
                TestSelection::from_flags(*capacity, *speed, *badblock, *thermal, *all),
            ),
            _ => None,
        }
    }
}

} // verus!
