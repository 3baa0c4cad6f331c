//! Trace-level guarantees of the follow engine.
//!
//! A run of the engine is modelled as a sequence of observed events folded
//! through the transition function `step`.  Each `Line` event gives rise to
//! one delivery, identified by the half-open byte interval it covered and the
//! generation (how many cutovers had happened) of the file it came from.  The
//! proofs here show that deliveries tile the watched files without gap or
//! overlap: nothing is delivered twice, nothing is skipped, rotation drains
//! the old file before the new one is read from byte 0.

use vstd::prelude::*;

use crate::engine::{Event, LogWatcher, Mode, Fingerprint, step, step_action, event_ok};
use crate::engine::Action;

verus! {

/// One delivered line: the bytes `[start, end)` of the file of generation
/// `gen` (the initial file has the starting generation; every cutover
/// increases it by one).
pub struct Delivery {
    pub gen: int,
    pub start: int,
    pub end: int,
}

/// The state after an entire event sequence has been observed.
pub open spec fn run(s: LogWatcher, evs: Seq<Event>) -> LogWatcher
    decreases evs.len(),
{
    if evs.len() == 0 {
        s
    } else {
        run(step(s, evs[0]), evs.drop_first())
    }
}

/// Every event of the sequence is observed in a state where it cannot
/// overflow the cursor.
pub open spec fn trace_ok(s: LogWatcher, evs: Seq<Event>) -> bool
    decreases evs.len(),
{
    evs.len() == 0 || (event_ok(s, evs[0]) && trace_ok(step(s, evs[0]), evs.drop_first()))
}

/// Whether observing `ev` in state `s` is the cutover: the end of the drained
/// old file, after which reading continues in the next file.
pub open spec fn cuts_over(s: LogWatcher, ev: Event) -> bool {
    ev is Eof && s.mode is Draining
}

/// The deliveries produced while the event sequence is observed, in order,
/// starting from generation `gen`.
pub open spec fn deliveries(s: LogWatcher, evs: Seq<Event>, gen: int) -> Seq<Delivery>
    decreases evs.len(),
{
    if evs.len() == 0 {
        Seq::empty()
    } else {
        let head: Seq<Delivery> = match evs[0] {
            Event::Line { consumed } => seq![
                Delivery { gen, start: s.pos as int, end: s.pos + consumed },
            ],
            _ => Seq::empty(),
        };
        let next_gen: int = if cuts_over(s, evs[0]) {
            gen + 1
        } else {
            gen
        };
        head + deliveries(step(s, evs[0]), evs.drop_first(), next_gen)
    }
}

/// The byte lengths of the lines reported by the event sequence, in order.
pub open spec fn line_lengths(evs: Seq<Event>) -> Seq<int>
    decreases evs.len(),
{
    if evs.len() == 0 {
        Seq::empty()
    } else {
        let head: Seq<int> = match evs[0] {
            Event::Line { consumed } => seq![consumed as int],
            _ => Seq::empty(),
        };
        head + line_lengths(evs.drop_first())
    }
}

/// Two successive deliveries fit together: within one file the next line
/// starts exactly where the last one ended, and the first line of a later
/// file starts at byte 0.
pub open spec fn fits_after(a: Delivery, b: Delivery) -> bool {
    if b.gen == a.gen {
        b.start == a.end
    } else {
        b.start == 0
    }
}

/// Every line appended is delivered exactly once: over any event sequence,
/// the engine produces one delivery per `Line` event, in event order, and
/// the i-th delivery covers exactly the bytes the i-th line consumed —
/// however many end-of-file probes, failed reopens, same-file reopens or
/// rotations are interleaved.
pub proof fn lemma_one_delivery_per_line(s: LogWatcher, evs: Seq<Event>, gen: int)
    ensures
        deliveries(s, evs, gen).len() == line_lengths(evs).len(),
        forall|i: int|
            0 <= i < deliveries(s, evs, gen).len() ==> #[trigger] deliveries(s, evs, gen)[i].end
                - deliveries(s, evs, gen)[i].start == line_lengths(evs)[i],
    decreases evs.len(),
{
    if evs.len() > 0 {
        lemma_one_delivery_per_line(step(s, evs[0]), evs.drop_first(), if cuts_over(s, evs[0]) { gen + 1 } else { gen });
    }
}

/// No byte is delivered twice and no complete line is skipped: over any
/// admissible event sequence, the deliveries tile the files.  Generations
/// never decrease; the first delivery starts at the current cursor (or at
/// byte 0 if a cutover happened first); and each following delivery starts
/// exactly where the previous one ended, or at byte 0 of a later file.
pub proof fn lemma_deliveries_tile(s: LogWatcher, evs: Seq<Event>, gen: int)
    requires
        trace_ok(s, evs),
    ensures
        forall|i: int| 0 <= i < deliveries(s, evs, gen).len() ==> #[trigger] deliveries(
            s,
            evs,
            gen,
        )[i].gen >= gen,
        deliveries(s, evs, gen).len() > 0 ==> (if deliveries(s, evs, gen)[0].gen == gen {
            deliveries(s, evs, gen)[0].start == s.pos
        } else {
            deliveries(s, evs, gen)[0].start == 0
        }),
        forall|i: int|
            0 <= i && i + 1 < deliveries(s, evs, gen).len() ==> fits_after(
                #[trigger] deliveries(s, evs, gen)[i],
                deliveries(s, evs, gen)[i + 1],
            ),
        forall|i: int|
            0 <= i && i + 1 < deliveries(s, evs, gen).len() ==> #[trigger] deliveries(
                s,
                evs,
                gen,
            )[i].gen <= deliveries(s, evs, gen)[i + 1].gen,
    decreases evs.len(),
{
    if evs.len() > 0 {
        let s2 = step(s, evs[0]);
        let gen2: int = if cuts_over(s, evs[0]) { gen + 1 } else { gen };
        let ds = deliveries(s, evs, gen);
        let rest = deliveries(s2, evs.drop_first(), gen2);
        lemma_deliveries_tile(s2, evs.drop_first(), gen2);
        match evs[0] {
            Event::Line { consumed } => {
                let d0 = Delivery { gen, start: s.pos as int, end: s.pos + consumed };
                assert(ds == seq![d0] + rest);
                assert(ds.len() == 1 + rest.len());
                assert(s2.pos == s.pos + consumed);
                assert forall|i: int| 0 <= i && i + 1 < ds.len() implies fits_after(
                    #[trigger] ds[i],
                    ds[i + 1],
                ) && ds[i].gen <= ds[i + 1].gen by {
                    assert((seq![d0] + rest)[i + 1] == rest[i]);
                    assert(ds[i + 1] == rest[i]);
                    if i == 0 {
                        assert((seq![d0] + rest)[0] == d0);
                        assert(ds[0] == d0);
                        if rest[0].gen == gen {
                            assert(rest[0].start == s2.pos);
                        } else {
                            assert(rest[0].start == 0);
                        }
                    } else {
                        assert((seq![d0] + rest)[i] == rest[i - 1]);
                        assert(ds[i] == rest[i - 1]);
                        assert(fits_after(rest[i - 1], rest[i]));
                    }
                }
                assert forall|i: int| 0 <= i < ds.len() implies #[trigger] ds[i].gen >= gen by {
                    if i > 0 {
                        assert((seq![d0] + rest)[i] == rest[i - 1]);
                        assert(ds[i] == rest[i - 1]);
                        assert(rest[i - 1].gen >= gen2);
                    } else {
                        assert((seq![d0] + rest)[0] == d0);
                        assert(ds[0] == d0);
                    }
                }
            },
            _ => {
                assert(ds == rest);
                assert forall|i: int| 0 <= i < ds.len() implies #[trigger] ds[i].gen >= gen by {
                    assert(ds[i] == rest[i]);
                    assert(rest[i].gen >= gen2);
                }
                if ds.len() > 0 {
                    assert(ds[0] == rest[0]);
                    if cuts_over(s, evs[0]) {
                        assert(s2.pos == 0);
                        if ds[0].gen == gen {
                            assert(rest[0].gen >= gen2);
                            assert(false);
                        } else {
                            if rest[0].gen == gen2 {
                                assert(rest[0].start == s2.pos);
                            } else {
                                assert(rest[0].start == 0);
                            }
                        }
                    } else {
                        assert(s2.pos == s.pos);
                    }
                }
                assert forall|i: int| 0 <= i && i + 1 < ds.len() implies fits_after(
                    #[trigger] ds[i],
                    ds[i + 1],
                ) && ds[i].gen <= ds[i + 1].gen by {
                    assert(ds[i] == rest[i]);
                    assert(ds[i + 1] == rest[i + 1]);
                    assert(fits_after(rest[i], rest[i + 1]));
                }
            },
        }
    }
}

/// The deliveries of a run of `Line` events from cursor `start`: line after
/// line, each beginning where the one before ended.
pub open spec fn intervals(gen: int, start: int, lens: Seq<int>) -> Seq<Delivery>
    decreases lens.len(),
{
    if lens.len() == 0 {
        Seq::empty()
    } else {
        seq![Delivery { gen, start, end: start + lens[0] }] + intervals(
            gen,
            start + lens[0],
            lens.drop_first(),
        )
    }
}

/// Rotation drains the old file first, then cuts over: if, in the ordinary
/// following phase, a reopen finds a file with a different fingerprint while
/// the old file still holds unread complete lines, the engine delivers
/// exactly those lines — from the old file, continuing at the old cursor —
/// and only then attaches to the new file, with the cursor reset to byte 0
/// and the fingerprint updated.
pub proof fn lemma_rotation_drains_then_cuts(
    s: LogWatcher,
    created: Fingerprint,
    line_evs: Seq<Event>,
    gen: int,
)
    requires
        s.mode is Following,
        created != s.created,
        forall|i: int| 0 <= i < line_evs.len() ==> #[trigger] line_evs[i] is Line,
        trace_ok(s, seq![Event::Opened { created }] + line_evs + seq![Event::Eof]),
    ensures
        run(s, seq![Event::Opened { created }] + line_evs + seq![Event::Eof]) == (LogWatcher {
            pos: 0,
            created,
            mode: Mode::Following,
        }),
        deliveries(s, seq![Event::Opened { created }] + line_evs + seq![Event::Eof], gen)
            == intervals(gen, s.pos as int, line_lengths(line_evs)),
{
    let evs = seq![Event::Opened { created }] + line_evs + seq![Event::Eof];
    let drained = LogWatcher { mode: Mode::Draining { next: created }, ..s };
    assert(evs[0] == Event::Opened { created });
    assert(step(s, evs[0]) == drained);
    assert(evs.drop_first() =~= line_evs + seq![Event::Eof]);
    lemma_drain_runs(drained, created, line_evs, gen);
    assert(deliveries(s, evs, gen) =~= deliveries(drained, line_evs + seq![Event::Eof], gen));
}

/// The draining phase delivers the remaining lines of the old file in order
/// and ends, on the old file's end, with the cutover to the new file.
proof fn lemma_drain_runs(s: LogWatcher, created: Fingerprint, line_evs: Seq<Event>, gen: int)
    requires
        s.mode == (Mode::Draining { next: created }),
        forall|i: int| 0 <= i < line_evs.len() ==> #[trigger] line_evs[i] is Line,
        trace_ok(s, line_evs + seq![Event::Eof]),
    ensures
        run(s, line_evs + seq![Event::Eof]) == (LogWatcher {
            pos: 0,
            created,
            mode: Mode::Following,
        }),
        deliveries(s, line_evs + seq![Event::Eof], gen) == intervals(
            gen,
            s.pos as int,
            line_lengths(line_evs),
        ),
    decreases line_evs.len(),
{
    let evs = line_evs + seq![Event::Eof];
    if line_evs.len() == 0 {
        assert(evs =~= seq![Event::Eof]);
        assert(evs[0] == Event::Eof);
        assert(cuts_over(s, Event::Eof));
        let tail = evs.drop_first();
        assert(tail =~= Seq::<Event>::empty());
        assert(run(step(s, Event::Eof), tail) == step(s, Event::Eof));
        assert(deliveries(step(s, Event::Eof), tail, gen + 1) =~= Seq::<Delivery>::empty());
        assert(deliveries(s, evs, gen) =~= Seq::<Delivery>::empty());
        assert(line_lengths(line_evs) =~= Seq::<int>::empty());
        assert(intervals(gen, s.pos as int, line_lengths(line_evs)) =~= Seq::<Delivery>::empty());
    } else {
        let ev0 = line_evs[0];
        assert(line_evs[0] is Line);
        assert(evs[0] == ev0);
        let consumed = ev0->Line_consumed;
        assert(ev0 == (Event::Line { consumed }));
        assert(event_ok(s, ev0));
        let s2 = step(s, ev0);
        assert(s2.pos == s.pos + consumed);
        assert(s2.mode == (Mode::Draining { next: created }));
        assert(evs.drop_first() =~= line_evs.drop_first() + seq![Event::Eof]);
        assert(forall|i: int|
            0 <= i < line_evs.drop_first().len() ==> #[trigger] line_evs.drop_first()[i]
                is Line) by {
            assert(forall|i: int|
                0 <= i < line_evs.drop_first().len() ==> line_evs.drop_first()[i]
                    == #[trigger] line_evs[i + 1]);
        }
        assert(trace_ok(s2, line_evs.drop_first() + seq![Event::Eof]));
        lemma_drain_runs(s2, created, line_evs.drop_first(), gen);
        assert(line_lengths(line_evs) =~= seq![consumed as int] + line_lengths(
            line_evs.drop_first(),
        ));
        let d0 = Delivery { gen, start: s.pos as int, end: s.pos + consumed };
        assert(!cuts_over(s, ev0));
        assert(deliveries(s, evs, gen) == seq![d0] + deliveries(s2, evs.drop_first(), gen));
        assert(deliveries(s2, evs.drop_first(), gen) == intervals(
            gen,
            s2.pos as int,
            line_lengths(line_evs.drop_first()),
        ));
        assert(line_lengths(line_evs)[0] == consumed as int);
        assert(line_lengths(line_evs).drop_first() =~= line_lengths(line_evs.drop_first()));
        assert(intervals(gen, s.pos as int, line_lengths(line_evs)) == seq![d0] + intervals(
            gen,
            s.pos + consumed,
            line_lengths(line_evs.drop_first()),
        ));
        assert(run(s, evs) == run(s2, evs.drop_first()));
    }
}

/// After the cutover the engine reads the new file from its beginning: any
/// deliveries of a later generation begin at byte 0 (first clause of
/// `fits_after` chains from `lemma_deliveries_tile`), and the action answered
/// at the cutover tells the surrounding loop to switch handles.
pub proof fn lemma_cutover_action(s: LogWatcher, next: Fingerprint)
    requires
        s.mode == (Mode::Draining { next }),
    ensures
        step_action(s, Event::Eof) == Action::CutOver,
        step(s, Event::Eof).pos == 0,
        step(s, Event::Eof).created == next,
        step(s, Event::Eof).mode == Mode::Following,
{
}

} // verus!
