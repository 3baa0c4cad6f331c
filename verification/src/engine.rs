//! The follow engine: a state machine that delivers every complete line
//! appended to a file exactly once and in order, surviving rotation (the file
//! at the watched path being replaced by a new one).
//!
//! The engine holds no file handle itself.  The surrounding program reads the
//! file, observes events (a line of so many bytes, end of file, a reopen that
//! succeeded or failed) and feeds them to [`LogWatcher::watch`], which updates
//! the cursor state and answers with the action to carry out next.

use vstd::prelude::*;

verus! {

/// When a watch begins on a file larger than this, the cursor starts this
/// many bytes before the end, so only the tail of the file is shown.
pub const LOOKBACK_BYTES: u64 = 1024;

/// Identity of the file currently open at the watched path: its creation
/// timestamp as seconds and nanoseconds since the Unix epoch.  Two files that
/// successively occupy the same path are told apart by this value alone.
#[derive(Clone, Copy, PartialEq, Eq, Structural, Debug)]
pub struct Fingerprint {
    pub secs: u64,
    pub nanos: u32,
}

/// Phase of the engine.  `Following` is the ordinary read loop.  `Draining`
/// means rotation was detected: the remaining lines of the old file are being
/// delivered before the engine cuts over to the new file, whose fingerprint
/// is carried in `next`.
#[derive(Clone, Copy, PartialEq, Eq, Structural, Debug)]
pub enum Mode {
    Following,
    Draining { next: Fingerprint },
}

/// What the surrounding read loop observed.
///
/// `Line` reports a complete line read at the cursor, `consumed` bytes long
/// including its newline.  `Eof` reports that a read at the cursor returned
/// no new bytes.  `ReadFault` reports a failed read (for example an invalid
/// byte sequence).  The remaining three report the outcome of a reopen
/// attempt at the watched path: it succeeded and the file there has the given
/// fingerprint, the path was not found, or opening (or reading metadata)
/// failed some other way.
#[derive(Clone, Copy, PartialEq, Eq, Structural, Debug)]
pub enum Event {
    Line { consumed: u64 },
    Eof,
    ReadFault,
    Opened { created: Fingerprint },
    NotFound,
    OpenFault,
}

/// What the surrounding loop must do next.
///
/// - `Deliver`: hand the line just read (newline stripped) to the callback,
///   then continue reading at the advanced cursor.
/// - `Report`: print the read error as a diagnostic and keep reading.
/// - `TryReopen`: attempt to open the watched path anew.
/// - `SleepReopen`: wait one second, then attempt the reopen again.
/// - `SleepResume`: the reopened file is the same one; wait one second, keep
///   the old handle and keep reading at the unchanged cursor.
/// - `Drain`: the reopened file is a different one; keep the new handle
///   aside and keep reading the old handle until its end.
/// - `CutOver`: the old file is drained; switch to the new handle and read
///   it from the start.
#[derive(Clone, Copy, PartialEq, Eq, Structural, Debug)]
pub enum Action {
    Deliver,
    Report,
    TryReopen,
    SleepReopen,
    SleepResume,
    Drain,
    CutOver,
}

/// Cursor state of one watched path.
///
/// `pos` counts the bytes of the currently open file already delivered to the
/// callback; `created` is the fingerprint of that file; `mode` is the phase.
pub struct LogWatcher {
    pub pos: u64,
    pub created: Fingerprint,
    pub mode: Mode,
}

/// Where the cursor starts on a file of length `len`: at the beginning for
/// files of up to `LOOKBACK_BYTES` bytes, else `LOOKBACK_BYTES` before the end.
pub open spec fn initial_cursor(len: u64) -> int {
    if len > LOOKBACK_BYTES { len - LOOKBACK_BYTES } else { 0 }
}

/// The only event that changes state in a way that could overflow: a line may
/// not push the cursor past `u64::MAX`.
pub open spec fn event_ok(s: LogWatcher, ev: Event) -> bool {
    ev matches Event::Line { consumed } ==> s.pos + consumed <= u64::MAX
}

/// The transition function of the engine: the state after `ev` is observed
/// in state `s`.
pub open spec fn step(s: LogWatcher, ev: Event) -> LogWatcher {
    match ev {
        Event::Line { consumed } => LogWatcher { pos: (s.pos + consumed) as u64, ..s },
        Event::Eof => match s.mode {
            Mode::Following => s,
            Mode::Draining { next } => LogWatcher {
                pos: 0,
                created: next,
                mode: Mode::Following,
            },
        },
        Event::ReadFault => s,
        Event::Opened { created } => match s.mode {
            Mode::Following => if created == s.created {
                s
            } else {
                LogWatcher { mode: Mode::Draining { next: created }, ..s }
            },
            Mode::Draining { .. } => s,
        },
        Event::NotFound => s,
        Event::OpenFault => s,
    }
}

/// The output function of the engine: the action answered when `ev` is
/// observed in state `s`.
pub open spec fn step_action(s: LogWatcher, ev: Event) -> Action {
    match ev {
        Event::Line { .. } => Action::Deliver,
        Event::Eof => match s.mode {
            Mode::Following => Action::TryReopen,
            Mode::Draining { .. } => Action::CutOver,
        },
        Event::ReadFault => Action::Report,
        Event::Opened { created } => match s.mode {
            Mode::Following => if created == s.created {
                Action::SleepResume
            } else {
                Action::Drain
            },
            Mode::Draining { .. } => Action::SleepResume,
        },
        Event::NotFound => Action::SleepReopen,
        Event::OpenFault => Action::SleepReopen,
    }
}

impl LogWatcher {
    /// Begin watching a file that was observed with length `file_len` and
    /// creation fingerprint `created`.  The cursor starts at the beginning
    /// for files of up to `LOOKBACK_BYTES` bytes, else `LOOKBACK_BYTES`
    /// before the end, so the first lines shown are the tail of an already
    /// large file.
    pub fn register(file_len: u64, created: Fingerprint) -> (w: LogWatcher)
        ensures
            w.pos == initial_cursor(file_len),
            w.created == created,
            w.mode == Mode::Following,
    {
        let pos: u64 = if file_len > LOOKBACK_BYTES { file_len - LOOKBACK_BYTES } else { 0 };
        LogWatcher { pos, created, mode: Mode::Following }
    }

    /// Feed one observed event to the engine.  The new state is exactly
    /// `step` of the old state and the returned action exactly `step_action`:
    /// a delivered line advances the cursor by precisely the bytes consumed,
    /// end of file while following asks for a reopen, end of file while
    /// draining cuts over to the new file at byte 0, a reopen of the same
    /// file leaves the cursor untouched, and a reopen of a different file
    /// starts the drain.
    pub fn watch(&mut self, ev: Event) -> (a: Action)
        requires
            event_ok(*old(self), ev),
        ensures
            *final(self) == step(*old(self), ev),
            a == step_action(*old(self), ev),
    {
        match ev {
            Event::Line { consumed } => {
                self.pos = self.pos + consumed;
                Action::Deliver
            },
            Event::Eof => match self.mode {
                Mode::Following => Action::TryReopen,
                Mode::Draining { next } => {
                    self.pos = 0;
                    self.created = next;
                    self.mode = Mode::Following;
                    Action::CutOver
                },
            },
            Event::ReadFault => Action::Report,
            Event::Opened { created } => match self.mode {
                Mode::Following => {
                    if created.secs == self.created.secs && created.nanos == self.created.nanos {
                        Action::SleepResume
                    } else {
                        self.mode = Mode::Draining { next: created };
                        Action::Drain
                    }
                },
                Mode::Draining { .. } => Action::SleepResume,
            },
            Event::NotFound => Action::SleepReopen,
            Event::OpenFault => Action::SleepReopen,
        }
    }
}

} // verus!
