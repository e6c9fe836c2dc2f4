//! What the system tray shows and asks for.

use vstd::prelude::*;
use crate::config::{Config, HotkeyConfig, NotificationConfig, SummaryReportConfig};
use crate::text::{decimal, decimal_of};

verus! {

/// A request from the tray menu to the main thread.
pub enum TrayMessage {
    Quit,
    ShowLogs,
    OpenConfig,
}

/// How a flag reads in the settings text.
pub open spec fn bool_text(b: bool) -> Seq<char> {
    if b {
        "true"@
    } else {
        "false"@
    }
}

/// One line of the settings text.
pub open spec fn field(label: Seq<char>, value: Seq<char>) -> Seq<char> {
    label + value + "\n"@
}

/// A line that is there only when `value` is.
pub open spec fn opt_field(label: Seq<char>, value: Option<String>) -> Seq<char> {
    match value {
        Some(v) => field(label, v@),
        None => Seq::empty(),
    }
}

/// The flag, or `false` when unset.
pub open spec fn flag(b: Option<bool>) -> bool {
    b == Some(true)
}

/// The settings text's lines on the log files and capture.
pub open spec fn basics_text(c: Config) -> Seq<char> {
    field("Key Log File: "@, c.key_log_file@) + field("Window Log File: "@, c.window_log_file@)
        + field("Log Dir: "@, c.log_dir@) + field(
        "Inactivity Timeout: "@,
        decimal_of(c.inactivity_timeout_secs as nat) + "s"@,
    ) + field("Screenshot Enabled: "@, bool_text(flag(c.screenshot_enabled))) + field(
        "Screenshot Interval: "@,
        decimal_of(
            match c.screenshot_interval_secs {
                Some(n) => n as nat,
                None => 0,
            },
        ) + "s"@,
    ) + match c.screenshot_resolution {
        Some((w, h)) => field(
            "Screenshot Resolution: "@,
            decimal_of(w as nat) + "x"@ + decimal_of(h as nat),
        ),
        None => Seq::empty(),
    }
}

/// The settings text's hot key section.
pub open spec fn hotkeys_text(h: Option<HotkeyConfig>) -> Seq<char> {
    match h {
        Some(h) => "Hotkeys:\n"@ + opt_field("  Pause/Resume: "@, h.pause_resume) + opt_field(
            "  Screenshot: "@,
            h.screenshot,
        ),
        None => Seq::empty(),
    }
}

/// The settings text's notification section.
pub open spec fn notification_text(n: Option<NotificationConfig>) -> Seq<char> {
    match n {
        Some(n) => "Notifications:\n"@ + field("  On Start: "@, bool_text(flag(n.on_start)))
            + field("  On Stop: "@, bool_text(flag(n.on_stop))) + field(
            "  On Error: "@,
            bool_text(flag(n.on_error)),
        ),
        None => Seq::empty(),
    }
}

/// The settings text's summary report section.
pub open spec fn report_text(r: Option<SummaryReportConfig>) -> Seq<char> {
    match r {
        Some(r) => "Summary Report:\n"@ + field("  Enabled: "@, bool_text(flag(r.enabled))) + field(
            "  Interval Days: "@,
            decimal_of(
                match r.interval_days {
                    Some(d) => d as nat,
                    None => 0,
                },
            ),
        ) + opt_field("  Output File: "@, r.output_file),
        None => Seq::empty(),
    }
}

/// The settings text of a configuration, one setting per line.
pub open spec fn summary_text(c: Config) -> Seq<char> {
    basics_text(c) + hotkeys_text(c.hotkeys) + notification_text(c.notification) + report_text(
        c.summary_report,
    )
}

/// Appends one line of the settings text.
fn push_field(out: &mut String, label: &str, value: &str)
    ensures
        final(out)@ == old(out)@ + field(label@, value@),
{
    out.append(label);
    out.append(value);
    out.append("\n");
    assert(final(out)@ =~= old(out)@ + field(label@, value@));
}

fn bool_string(b: bool) -> (r: &'static str)
    ensures
        r@ == bool_text(b),
{
    if b {
        "true"
    } else {
        "false"
    }
}

fn flag_of(b: Option<bool>) -> (r: bool)
    ensures
        r == flag(b),
{
    match b {
        Some(v) => v,
        None => false,
    }
}

fn basics_summary(c: &Config) -> (r: String)
    ensures
        r@ == basics_text(*c),
{
    let mut out = String::new();
    push_field(&mut out, "Key Log File: ", c.key_log_file.as_str());
    push_field(&mut out, "Window Log File: ", c.window_log_file.as_str());
    push_field(&mut out, "Log Dir: ", c.log_dir.as_str());
    let mut t = decimal(c.inactivity_timeout_secs);
    t.append("s");
    push_field(&mut out, "Inactivity Timeout: ", t.as_str());
    push_field(&mut out, "Screenshot Enabled: ", bool_string(flag_of(c.screenshot_enabled)));
    let interval: u64 = match c.screenshot_interval_secs {
        Some(n) => n,
        None => 0,
    };
    let mut i = decimal(interval);
    i.append("s");
    push_field(&mut out, "Screenshot Interval: ", i.as_str());
    let ghost before = out@;
    match c.screenshot_resolution {
        Some((w, h)) => {
            let mut d = decimal(w as u64);
            d.append("x");
            d.append(decimal(h as u64).as_str());
            push_field(&mut out, "Screenshot Resolution: ", d.as_str());
        },
        None => {},
    }
    assert(out@ =~= basics_text(*c));
    out
}

fn hotkeys_summary(h: &Option<HotkeyConfig>) -> (r: String)
    ensures
        r@ == hotkeys_text(*h),
{
    let mut out = String::new();
    match h {
        Some(h) => {
            out.append("Hotkeys:\n");
            let ghost a = out@;
            match &h.pause_resume {
                Some(p) => push_field(&mut out, "  Pause/Resume: ", p.as_str()),
                None => {},
            }
            assert(out@ =~= a + opt_field("  Pause/Resume: "@, h.pause_resume));
            let ghost b = out@;
            match &h.screenshot {
                Some(p) => push_field(&mut out, "  Screenshot: ", p.as_str()),
                None => {},
            }
            assert(out@ =~= b + opt_field("  Screenshot: "@, h.screenshot));
        },
        None => {},
    }
    assert(out@ =~= hotkeys_text(*h));
    out
}

fn notification_summary(n: &Option<NotificationConfig>) -> (r: String)
    ensures
        r@ == notification_text(*n),
{
    let mut out = String::new();
    match n {
        Some(n) => {
            out.append("Notifications:\n");
            push_field(&mut out, "  On Start: ", bool_string(flag_of(n.on_start)));
            push_field(&mut out, "  On Stop: ", bool_string(flag_of(n.on_stop)));
            push_field(&mut out, "  On Error: ", bool_string(flag_of(n.on_error)));
        },
        None => {},
    }
    assert(out@ =~= notification_text(*n));
    out
}

fn report_summary(r: &Option<SummaryReportConfig>) -> (res: String)
    ensures
        res@ == report_text(*r),
{
    let mut out = String::new();
    match r {
        Some(r) => {
            out.append("Summary Report:\n");
            push_field(&mut out, "  Enabled: ", bool_string(flag_of(r.enabled)));
            let days: u32 = match r.interval_days {
                Some(d) => d,
                None => 0,
            };
            push_field(&mut out, "  Interval Days: ", decimal(days as u64).as_str());
            let ghost b = out@;
            match &r.output_file {
                Some(p) => push_field(&mut out, "  Output File: ", p.as_str()),
                None => {},
            }
            assert(out@ =~= b + opt_field("  Output File: "@, r.output_file));
        },
        None => {},
    }
    assert(out@ =~= report_text(*r));
    out
}

/// The current settings as text, for display.
pub fn config_summary(config: &Config) -> (r: String)
    ensures
        r@ == summary_text(*config),
{
    let mut out = basics_summary(config);
    out.append(hotkeys_summary(&config.hotkeys).as_str());
    out.append(notification_summary(&config.notification).as_str());
    out.append(report_summary(&config.summary_report).as_str());
    assert(out@ =~= summary_text(*config));
    out
}

} // verus!
