//! The configuration snapshot: read once at start-up and handed to the
//! engine and the query interface. Changing the stored file does not change
//! a running engine's copy.

use vstd::prelude::*;
use crate::text::{lower_of, lowercase};

verus! {

/// Optional hot key bindings, such as `Ctrl+Shift+P`.
pub struct HotkeyConfig {
    pub pause_resume: Option<String>,
    pub screenshot: Option<String>,
}

/// Which events raise a desktop notification.
pub struct NotificationConfig {
    pub on_start: Option<bool>,
    pub on_stop: Option<bool>,
    pub on_error: Option<bool>,
}

/// Settings of the periodic summary report.
pub struct SummaryReportConfig {
    pub enabled: Option<bool>,
    pub interval_days: Option<u32>,
    pub output_file: Option<String>,
}

/// The configuration snapshot.
pub struct Config {
    pub key_log_file: String,
    pub window_log_file: String,
    /// The log root; the reserved value `temp` (in any case) stands for an
    /// `activity_logger` directory under the platform's temporary directory.
    pub log_dir: String,
    pub inactivity_timeout_secs: u64,
    pub screenshot_enabled: Option<bool>,
    pub screenshot_interval_secs: Option<u64>,
    pub screenshot_resolution: Option<(u32, u32)>,
    pub hotkeys: Option<HotkeyConfig>,
    pub notification: Option<NotificationConfig>,
    pub summary_report: Option<SummaryReportConfig>,
}

/// `name` placed under the directory `base`, with `/` between them; an
/// absolute `name` stands alone, as does any name under an empty base.
pub open spec fn path_join(base: Seq<char>, name: Seq<char>) -> Seq<char> {
    if name.len() > 0 && name[0] == '/' {
        name
    } else if base.len() == 0 {
        name
    } else if base.last() == '/' {
        base + name
    } else {
        base + seq!['/'] + name
    }
}

/// Places `name` under the directory `base`.
pub fn join_path(base: &str, name: &str) -> (r: String)
    ensures
        r@ == path_join(base@, name@),
{
    let nb = crate::text::chars_of(name);
    if nb.len() > 0 && nb[0] == '/' {
        return String::from_str(name);
    }
    let bb = crate::text::chars_of(base);
    if bb.len() == 0 {
        return String::from_str(name);
    }
    let mut out = String::from_str(base);
    if bb[bb.len() - 1] != '/' {
        out.append("/");
        proof {
            reveal_strlit("/");
        }
        assert("/"@ =~= seq!['/']);
    }
    out.append(name);
    out
}

/// The value of an optional string.
pub open spec fn opt_text(o: Option<String>) -> Option<Seq<char>> {
    match o {
        Some(t) => Some(t@),
        None => None,
    }
}

/// The value of an optional string slice.
pub open spec fn opt_str(o: Option<&str>) -> Option<Seq<char>> {
    match o {
        Some(t) => Some(t@),
        None => None,
    }
}

/// The log root of `c`, given the platform's temporary directory.
pub open spec fn log_root(c: Config, temp_dir: Seq<char>) -> Seq<char> {
    if lower_of(c.log_dir@) == "temp"@ {
        path_join(temp_dir, "activity_logger"@)
    } else {
        c.log_dir@
    }
}

impl Config {
    /// The log root, given the platform's temporary directory.
    fn resolved_log_dir(&self, temp_dir: &str) -> (r: String)
        ensures
            r@ == log_root(*self, temp_dir@),
    {
        let lower = lowercase(self.log_dir.as_str());
        let temp = String::from_str("temp");
        if lower == temp {
            join_path(temp_dir, "activity_logger")
        } else {
            self.log_dir.clone()
        }
    }

    /// The key log file, under the log root.
    pub fn full_key_log_path(&self, temp_dir: &str) -> (r: String)
        ensures
            r@ == path_join(log_root(*self, temp_dir@), self.key_log_file@),
    {
        let root = self.resolved_log_dir(temp_dir);
        join_path(root.as_str(), self.key_log_file.as_str())
    }

    /// The window log file, under the log root.
    pub fn active_window_log_path(&self, temp_dir: &str) -> (r: String)
        ensures
            r@ == path_join(log_root(*self, temp_dir@), self.window_log_file@),
    {
        let root = self.resolved_log_dir(temp_dir);
        join_path(root.as_str(), self.window_log_file.as_str())
    }

    /// The log root.
    pub fn log_directory_path(&self, temp_dir: &str) -> (r: String)
        ensures
            r@ == log_root(*self, temp_dir@),
    {
        self.resolved_log_dir(temp_dir)
    }

    /// The inactivity timeout, in seconds.
    pub fn timeout_secs(&self) -> (r: u64)
        ensures
            r == self.inactivity_timeout_secs,
    {
        self.inactivity_timeout_secs
    }

    /// Whether flushes take a screenshot; on unless set off.
    pub fn ss_capture_flag(&self) -> (r: bool)
        ensures
            r == (self.screenshot_enabled != Some(false)),
    {
        match self.screenshot_enabled {
            Some(b) => b,
            None => true,
        }
    }

    /// The size screenshots are scaled to, if any.
    pub fn screen_capture_resolution(&self) -> (r: Option<(u32, u32)>)
        ensures
            r == self.screenshot_resolution,
    {
        self.screenshot_resolution
    }

    /// The pause/resume hot key, if bound.
    pub fn hotkey_pause_resume(&self) -> (r: Option<&str>)
        ensures
            opt_str(r) == match self.hotkeys {
                Some(h) => opt_text(h.pause_resume),
                None => None,
            },
    {
        match &self.hotkeys {
            Some(h) => match &h.pause_resume {
                Some(p) => Some(p.as_str()),
                None => None,
            },
            None => None,
        }
    }

    /// The screenshot hot key, if bound.
    pub fn hotkey_screenshot(&self) -> (r: Option<&str>)
        ensures
            opt_str(r) == match self.hotkeys {
                Some(h) => opt_text(h.screenshot),
                None => None,
            },
    {
        match &self.hotkeys {
            Some(h) => match &h.screenshot {
                Some(p) => Some(p.as_str()),
                None => None,
            },
            None => None,
        }
    }

    /// Whether start-up raises a notification; off unless set.
    pub fn notify_on_start(&self) -> (r: bool)
        ensures
            r == (self.notification matches Some(n) && n.on_start == Some(true)),
    {
        match &self.notification {
            Some(n) => match n.on_start {
                Some(b) => b,
                None => false,
            },
            None => false,
        }
    }

    /// Whether stopping raises a notification; off unless set.
    pub fn notify_on_stop(&self) -> (r: bool)
        ensures
            r == (self.notification matches Some(n) && n.on_stop == Some(true)),
    {
        match &self.notification {
            Some(n) => match n.on_stop {
                Some(b) => b,
                None => false,
            },
            None => false,
        }
    }

    /// Whether an error raises a notification; on unless set off.
    pub fn notify_on_error(&self) -> (r: bool)
        ensures
            r == !(self.notification matches Some(n) && n.on_error == Some(false)),
    {
        match &self.notification {
            Some(n) => match n.on_error {
                Some(b) => b,
                None => true,
            },
            None => true,
        }
    }

    /// Whether the summary report is written; off unless set.
    pub fn summary_report_enabled(&self) -> (r: bool)
        ensures
            r == (self.summary_report matches Some(s) && s.enabled == Some(true)),
    {
        match &self.summary_report {
            Some(s) => match s.enabled {
                Some(b) => b,
                None => false,
            },
            None => false,
        }
    }

    /// The days a summary report covers; one unless set.
    pub fn summary_report_interval_days(&self) -> (r: u32)
        ensures
            r == match self.summary_report {
                Some(s) => match s.interval_days {
                    Some(d) => d,
                    None => 1,
                },
                None => 1,
            },
    {
        match &self.summary_report {
            Some(s) => match s.interval_days {
                Some(d) => d,
                None => 1,
            },
            None => 1,
        }
    }

    /// The summary report's file name, if set.
    pub fn summary_report_output_file(&self) -> (r: Option<&str>)
        ensures
            opt_str(r) == match self.summary_report {
                Some(s) => opt_text(s.output_file),
                None => None,
            },
    {
        match &self.summary_report {
            Some(s) => match &s.output_file {
                Some(p) => Some(p.as_str()),
                None => None,
            },
            None => None,
        }
    }
}

} // verus!
