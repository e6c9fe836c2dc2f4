//! Which events raise a desktop notification, and with what text. Showing
//! it is the host's part.

use vstd::prelude::*;
use crate::config::Config;

verus! {

/// An event that may be announced.
pub enum NotificationType {
    Start,
    Stop,
    Error(String),
}

/// A notification to show.
pub struct Notice {
    pub summary: String,
    pub body: String,
    /// A category hint for the platform, if any.
    pub hint: Option<String>,
}

/// Decides notifications from a configuration.
pub struct Notifier<'a> {
    config: &'a Config,
}

/// Whether the configuration announces start-up (off unless set).
pub open spec fn on_start(c: Config) -> bool {
    c.notification matches Some(n) && n.on_start == Some(true)
}

/// Whether the configuration announces stopping (off unless set).
pub open spec fn on_stop(c: Config) -> bool {
    c.notification matches Some(n) && n.on_stop == Some(true)
}

/// Whether the configuration announces errors (on unless set off).
pub open spec fn on_error(c: Config) -> bool {
    !(c.notification matches Some(n) && n.on_error == Some(false))
}

impl<'a> Notifier<'a> {
    /// The configuration the notifier reads.
    pub closed spec fn settings(&self) -> Config {
        *self.config
    }

    /// A notifier over `config`.
    pub fn new(config: &'a Config) -> (r: Notifier<'a>)
        ensures
            r.settings() == *config,
    {
        Notifier { config }
    }

    /// The notification an event raises, if the configuration asks for one.
    pub fn notify(&self, notification_type: NotificationType) -> (r: Option<Notice>)
        ensures
            match notification_type {
                NotificationType::Start => if on_start(self.settings()) {
                    r matches Some(n) && n.summary@ == "Activity Logger"@ && n.body@
                        == "Logging started"@ && n.hint is None
                } else {
                    r is None
                },
                NotificationType::Stop => if on_stop(self.settings()) {
                    r matches Some(n) && n.summary@ == "Activity Logger"@ && n.body@
                        == "Logging stopped"@ && n.hint is None
                } else {
                    r is None
                },
                NotificationType::Error(msg) => if on_error(self.settings()) {
                    r matches Some(n) && n.summary@ == "Activity Logger Error"@ && n.body@ == msg@
                        && (n.hint matches Some(h) && h@ == "error"@)
                } else {
                    r is None
                },
            },
    {
        match notification_type {
            NotificationType::Start => {
                if self.config.notify_on_start() {
                    Some(
                        Notice {
                            summary: String::from_str("Activity Logger"),
                            body: String::from_str("Logging started"),
                            hint: None,
                        },
                    )
                } else {
                    None
                }
            },
            NotificationType::Stop => {
                if self.config.notify_on_stop() {
                    Some(
                        Notice {
                            summary: String::from_str("Activity Logger"),
                            body: String::from_str("Logging stopped"),
                            hint: None,
                        },
                    )
                } else {
                    None
                }
            },
            NotificationType::Error(msg) => {
                if self.config.notify_on_error() {
                    Some(
                        Notice {
                            summary: String::from_str("Activity Logger Error"),
                            body: msg,
                            hint: Some(String::from_str("error")),
                        },
                    )
                } else {
                    None
                }
            },
        }
    }
}

} // verus!
