//! Server log entries and how their level is shown.
use vstd::prelude::*;

use crate::text::str_eq;
use crate::time::UtcDateTime;
use crate::Color;

verus! {

/// Log entries shown on each page.
pub const LOG_PAGE_SIZE: u32 = 50;

/// A server log entry.
#[derive(Debug, Clone, PartialEq, Eq)]
pub struct LogEntry {
    pub timestamp: UtcDateTime,
    pub level: String,
    pub message: String,
}

/// The badge colour of a log level: red for errors, yellow for warnings,
/// green for information, blue for debugging and gray otherwise.
pub open spec fn spec_level_color(level: Seq<char>) -> Color {
    if level == "ERROR"@ {
        Color::Red
    } else if level == "WARN"@ {
        Color::Yellow
    } else if level == "INFO"@ {
        Color::Green
    } else if level == "DEBUG"@ {
        Color::Blue
    } else {
        Color::Gray
    }
}

impl LogEntry {
    /// The badge colour of the entry's level.
    pub fn level_color(&self) -> (r: Color)
        ensures
            r == spec_level_color(self.level@),
    {
        let level = self.level.as_str();
        if str_eq(level, "ERROR") {
            Color::Red
        } else if str_eq(level, "WARN") {
            Color::Yellow
        } else if str_eq(level, "INFO") {
            Color::Green
        } else if str_eq(level, "DEBUG") {
            Color::Blue
        } else {
            Color::Gray
        }
    }
}

} // verus!
