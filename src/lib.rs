//! Activity capture and logging engine: the debounce state machine that turns
//! polled key and window signals into log records, the record format of the
//! two line-oriented logs, the screenshot pipeline, and the pure parts of the
//! local query and maintenance interface.

pub mod api;
pub mod config;
pub mod engine;
pub mod hotkey;
pub mod notification;
pub mod probe;
pub mod records;
pub mod report;
pub mod screenshot;
pub mod text;
pub mod tray;
