//! Severity levels: the numeric codes carried by log lines, their display
//! names and their color buckets.

use vstd::prelude::*;

verus! {

/// A numeric severity level, as carried in the `level` field of a log line.
/// Any integer is accepted; values without a conventional name render with
/// an empty name but still fall into a color bucket.
#[derive(Clone, Copy, PartialEq, Eq, Structural, Debug)]
pub struct Level(pub i32);

/// The colors the renderer emits, one per severity bucket plus the two used
/// for the header and the logger name.
#[derive(Clone, Copy, PartialEq, Eq, Structural, Debug)]
pub enum Color {
    Blue,
    BrightWhite,
    Yellow,
    Red,
    White,
    Green,
}

/// The name shown for a level: the six conventional severities at their
/// conventional codes, the empty name for every other value.
pub open spec fn level_name(v: int) -> Seq<char> {
    if v == 10 {
        "trace"@
    } else if v == 20 {
        "debug"@
    } else if v == 30 {
        "info"@
    } else if v == 40 {
        "warn"@
    } else if v == 50 {
        "error"@
    } else if v == 60 {
        "fatal"@
    } else {
        ""@
    }
}

/// The color bucket of a level: 0 through 20 muted (blue, trace and debug),
/// 21 through 30 neutral (bright white, info), 31 through 40 warning
/// (yellow), and everything else — above 40 or negative — alert (red).
pub open spec fn level_color(v: int) -> Color {
    if 0 <= v && v <= 20 {
        Color::Blue
    } else if 21 <= v && v <= 30 {
        Color::BrightWhite
    } else if 31 <= v && v <= 40 {
        Color::Yellow
    } else {
        Color::Red
    }
}

impl Level {
    /// The display name of this level, exactly `level_name` of its code.
    pub fn name(&self) -> (r: &'static str)
        ensures
            r@ == level_name(self.0 as int),
    {
        match self.0 {
            10 => "trace",
            20 => "debug",
            30 => "info",
            40 => "warn",
            50 => "error",
            60 => "fatal",
            _ => "",
        }
    }

    /// The color of this level, exactly `level_color` of its code.
    pub fn color(&self) -> (r: Color)
        ensures
            r == level_color(self.0 as int),
    {
        if 0 <= self.0 && self.0 <= 20 {
            Color::Blue
        } else if 21 <= self.0 && self.0 <= 30 {
            Color::BrightWhite
        } else if 31 <= self.0 && self.0 <= 40 {
            Color::Yellow
        } else {
            Color::Red
        }
    }
}

} // verus!
