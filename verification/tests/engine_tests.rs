use logview::engine::{Action, Event, Fingerprint, LogWatcher, Mode};

fn fp(secs: u64) -> Fingerprint {
    Fingerprint { secs, nanos: 0 }
}

#[test]
fn register_small_file_starts_at_zero() {
    let w = LogWatcher::register(0, fp(1));
    assert_eq!(w.pos, 0);
    let w = LogWatcher::register(100, fp(1));
    assert_eq!(w.pos, 0);
    let w = LogWatcher::register(1024, fp(1));
    assert_eq!(w.pos, 0);
}

#[test]
fn register_large_file_starts_near_end() {
    let w = LogWatcher::register(1025, fp(1));
    assert_eq!(w.pos, 1);
    let w = LogWatcher::register(5000, fp(1));
    assert_eq!(w.pos, 3976);
    assert_eq!(w.created, fp(1));
    assert_eq!(w.mode, Mode::Following);
}

#[test]
fn line_advances_cursor_exactly() {
    let mut w = LogWatcher::register(0, fp(1));
    let a = w.watch(Event::Line { consumed: 10 });
    assert_eq!(a, Action::Deliver);
    assert_eq!(w.pos, 10);
    let a = w.watch(Event::Line { consumed: 3 });
    assert_eq!(a, Action::Deliver);
    assert_eq!(w.pos, 13);
    assert_eq!(w.mode, Mode::Following);
}

#[test]
fn eof_while_following_asks_reopen() {
    let mut w = LogWatcher::register(0, fp(1));
    let a = w.watch(Event::Eof);
    assert_eq!(a, Action::TryReopen);
    assert_eq!(w.pos, 0);
    assert_eq!(w.mode, Mode::Following);
}

#[test]
fn reopen_same_file_sleeps_and_resumes() {
    let mut w = LogWatcher::register(2000, fp(7));
    assert_eq!(w.pos, 976);
    w.watch(Event::Eof);
    let a = w.watch(Event::Opened { created: fp(7) });
    assert_eq!(a, Action::SleepResume);
    assert_eq!(w.pos, 976);
    assert_eq!(w.created, fp(7));
    assert_eq!(w.mode, Mode::Following);
}

#[test]
fn missing_file_retries() {
    let mut w = LogWatcher::register(0, fp(1));
    w.watch(Event::Eof);
    let a = w.watch(Event::NotFound);
    assert_eq!(a, Action::SleepReopen);
    let a = w.watch(Event::OpenFault);
    assert_eq!(a, Action::SleepReopen);
    assert_eq!(w.pos, 0);
    assert_eq!(w.mode, Mode::Following);
}

#[test]
fn read_fault_reports_and_continues() {
    let mut w = LogWatcher::register(0, fp(1));
    w.watch(Event::Line { consumed: 5 });
    let a = w.watch(Event::ReadFault);
    assert_eq!(a, Action::Report);
    assert_eq!(w.pos, 5);
    assert_eq!(w.mode, Mode::Following);
}

#[test]
fn rotation_drains_old_file_then_cuts_over() {
    let mut w = LogWatcher::register(0, fp(1));
    // two lines of the old file are read and delivered
    assert_eq!(w.watch(Event::Line { consumed: 20 }), Action::Deliver);
    assert_eq!(w.watch(Event::Line { consumed: 10 }), Action::Deliver);
    assert_eq!(w.pos, 30);
    // end of file; a reopen finds a different file: drain the old one
    assert_eq!(w.watch(Event::Eof), Action::TryReopen);
    let a = w.watch(Event::Opened { created: fp(2) });
    assert_eq!(a, Action::Drain);
    assert_eq!(w.mode, Mode::Draining { next: fp(2) });
    assert_eq!(w.created, fp(1));
    // the old file still held two complete lines; they are delivered first,
    // continuing at the old cursor
    assert_eq!(w.watch(Event::Line { consumed: 7 }), Action::Deliver);
    assert_eq!(w.pos, 37);
    assert_eq!(w.watch(Event::Line { consumed: 4 }), Action::Deliver);
    assert_eq!(w.pos, 41);
    // the old file is exhausted: cut over to the new file at byte 0
    let a = w.watch(Event::Eof);
    assert_eq!(a, Action::CutOver);
    assert_eq!(w.pos, 0);
    assert_eq!(w.created, fp(2));
    assert_eq!(w.mode, Mode::Following);
    // reading now continues in the new file
    assert_eq!(w.watch(Event::Line { consumed: 9 }), Action::Deliver);
    assert_eq!(w.pos, 9);
}

#[test]
fn rotation_with_subsecond_fingerprint_difference() {
    let mut w = LogWatcher::register(0, Fingerprint { secs: 5, nanos: 1 });
    w.watch(Event::Eof);
    let a = w.watch(Event::Opened { created: Fingerprint { secs: 5, nanos: 2 } });
    assert_eq!(a, Action::Drain);
}

#[test]
fn appends_across_polling_cycles_deliver_exactly_once_in_order() {
    let mut w = LogWatcher::register(0, fp(1));
    let mut delivered: Vec<(u64, u64)> = Vec::new();
    let events = [
        Event::Line { consumed: 5 },
        Event::Eof,
        Event::Opened { created: fp(1) },
        Event::Line { consumed: 3 },
        Event::Eof,
        Event::NotFound,
        Event::Opened { created: fp(1) },
        Event::Line { consumed: 2 },
    ];
    for ev in events {
        let before = w.pos;
        if w.watch(ev) == Action::Deliver {
            delivered.push((before, w.pos));
        }
    }
    // one delivery per appended line, in order, each starting exactly where
    // the previous one ended: no line twice, no line skipped
    assert_eq!(delivered, vec![(0, 5), (5, 8), (8, 10)]);
    assert_eq!(w.pos, 10);
    assert_eq!(w.mode, Mode::Following);
}
