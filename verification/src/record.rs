//! The parsed log record: one line's worth of structured data.

use vstd::prelude::*;

use crate::level::Level;

verus! {

/// One parsed log line: a millisecond-precision epoch timestamp, a numeric
/// severity, a message that may span several lines, and an optional logger
/// name.  A record lives only from parse to render.
pub struct Record {
    pub time_ms: i64,
    pub level: Level,
    pub msg: String,
    pub name: Option<String>,
}

/// The mathematical content of a record.
pub struct RecordView {
    pub time_ms: int,
    pub level: int,
    pub msg: Seq<char>,
    pub name: Option<Seq<char>>,
}

/// The view of an optional text.
pub open spec fn opt_text_view(o: Option<String>) -> Option<Seq<char>> {
    match o {
        Some(s) => Some(s@),
        None => None,
    }
}

impl View for Record {
    type V = RecordView;

    open spec fn view(&self) -> RecordView {
        RecordView {
            time_ms: self.time_ms as int,
            level: self.level.0 as int,
            msg: self.msg@,
            name: opt_text_view(self.name),
        }
    }
}

} // verus!
