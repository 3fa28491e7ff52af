use vstd::prelude::*;

verus! {

/// One line of the list of saved reports.
#[derive(Debug, Clone)]
pub struct ReportSummary {
    pub id: String,
    pub drive_name: String,
    pub test_date: String,
    pub total_score: u32,
}

/// How command results are printed: for people, or as a JSON envelope.
#[derive(Debug, Clone, Copy, PartialEq, Eq, Structural)]
pub enum OutputMode {
    Human,
    Json,
}

/// A request from the desktop front end to test a drive.
#[derive(Debug, Clone)]
pub struct TestConfig {
    pub drive_path: String,
    pub mount_point: String,
    pub test_capacity: bool,
    pub test_speed: bool,
    pub test_badblock: bool,
    pub destructive: bool,
    pub test_size_mb: Option<u64>,
}

impl TestConfig {
    /// Size of the speed test in MiB: the one asked for, else 1024.
    pub fn speed_test_size_mb(&self) -> (mb: u64)
        ensures
            mb == match self.test_size_mb {
                Some(v) => v,
                None => 1024u64,
            },
    {
        match self.test_size_mb {
            Some(v) => v,
            None => 1024,
        }
    }
}

} // verus!
