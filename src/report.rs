//! The periodic summary report: its text and where it is written. Reading
//! the logs and writing the file is the host's part.

use vstd::prelude::*;
use crate::config::{join_path, log_root, path_join, Config};
use crate::text::{decimal, decimal_of};

verus! {

/// Builds summary reports from a configuration.
pub struct SummaryReporter<'a> {
    config: &'a Config,
}

/// The file name used when the configuration sets none.
pub open spec fn default_report_name() -> Seq<char> {
    "activity_summary_report.txt"@
}

/// The days a report covers: the configured interval, one unless set.
pub open spec fn interval_days(c: Config) -> u32 {
    match c.summary_report {
        Some(s) => match s.interval_days {
            Some(d) => d,
            None => 1,
        },
        None => 1,
    }
}

/// The report's file name.
pub open spec fn report_name(c: Config) -> Seq<char> {
    match c.summary_report {
        Some(s) => match s.output_file {
            Some(f) => f@,
            None => default_report_name(),
        },
        None => default_report_name(),
    }
}

/// The text of a report made at `now` with the given counts of log records.
pub open spec fn report_body(now: Seq<char>, days: u32, key_count: u64, window_count: u64) -> Seq<
    char,
> {
    "Activity Summary Report\nDate: "@ + now + "\nInterval: Last "@ + decimal_of(days as nat)
        + " day(s)\n--------------------------\nKey log entries: "@ + decimal_of(key_count as nat)
        + "\nWindow log entries: "@ + decimal_of(window_count as nat) + "\n"@
}

impl<'a> SummaryReporter<'a> {
    /// The configuration the reporter reads.
    pub closed spec fn settings(&self) -> Config {
        *self.config
    }

    /// A reporter over `config`.
    pub fn new(config: &'a Config) -> (r: SummaryReporter<'a>)
        ensures
            r.settings() == *config,
    {
        SummaryReporter { config }
    }

    /// Whether reports are written at all.
    pub fn enabled(&self) -> (r: bool)
        ensures
            r == (self.settings().summary_report matches Some(s) && s.enabled == Some(true)),
    {
        self.config.summary_report_enabled()
    }

    /// The text of a report made at `now` (a wall-clock stamp) with the
    /// given numbers of key and window log records.
    pub fn report_text(&self, now: &str, key_count: u64, window_count: u64) -> (r: String)
        ensures
            r@ == report_body(now@, interval_days(self.settings()), key_count, window_count),
    {
        let days = self.config.summary_report_interval_days();
        let mut out = String::from_str("Activity Summary Report\nDate: ");
        out.append(now);
        out.append("\nInterval: Last ");
        out.append(decimal(days as u64).as_str());
        out.append(" day(s)\n--------------------------\nKey log entries: ");
        out.append(decimal(key_count).as_str());
        out.append("\nWindow log entries: ");
        out.append(decimal(window_count).as_str());
        out.append("\n");
        out
    }

    /// The report's file name.
    pub fn report_file_name(&self) -> (r: String)
        ensures
            r@ == report_name(self.settings()),
    {
        match self.config.summary_report_output_file() {
            Some(f) => String::from_str(f),
            None => String::from_str("activity_summary_report.txt"),
        }
    }

    /// Where the report is written: its file name under the log root.
    pub fn report_path(&self, temp_dir: &str) -> (r: String)
        ensures
            r@ == path_join(log_root(self.settings(), temp_dir@), report_name(self.settings())),
    {
        let root = self.config.log_directory_path(temp_dir);
        let name = self.report_file_name();
        join_path(root.as_str(), name.as_str())
    }
}

} // verus!
