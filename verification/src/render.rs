//! Rendering a [`Record`] as terminal text.
//!
//! A record renders as a header — timestamp, level name and, when present,
//! the logger name — followed by its message.  A single-line message shares
//! the header's line; a message with embedded newlines becomes a braced
//! block with each message line indented.  Coloring is an explicit choice of
//! the caller: when it is on, the header is white, the logger name green and
//! the message takes the level's color, as plain ANSI escapes.

use vstd::prelude::*;

use crate::level::{level_color, level_name, Color};
use crate::parse::parse_spec;
use crate::parse::parse_line;
use crate::record::{Record, RecordView};
use crate::text::{find_from, first_at, lemma_first_at_is, split_lines};
use crate::timefmt::{format_timestamp, millis_to_secs, secs_of_millis, timestamp_text};
use vstd::string::StrSliceExecFns;
use vstd::string::StringExecFns;

verus! {

/// The two-digit ANSI code of each color.
pub open spec fn color_code_text(c: Color) -> Seq<char> {
    match c {
        Color::Blue => "34"@,
        Color::BrightWhite => "97"@,
        Color::Yellow => "33"@,
        Color::Red => "31"@,
        Color::White => "37"@,
        Color::Green => "32"@,
    }
}

/// The ANSI code of a color, as text.
fn color_code(c: Color) -> (r: &'static str)
    ensures
        r@ == color_code_text(c),
{
    match c {
        Color::Blue => "34",
        Color::BrightWhite => "97",
        Color::Yellow => "33",
        Color::Red => "31",
        Color::White => "37",
        Color::Green => "32",
    }
}

/// `s` wrapped in the ANSI escape for `c` when coloring is on; bare `s`
/// otherwise.
pub open spec fn paint_spec(s: Seq<char>, c: Color, on: bool) -> Seq<char> {
    if on {
        "\u{1b}["@ + color_code_text(c) + "m"@ + s + "\u{1b}[0m"@
    } else {
        s
    }
}

/// Append `s`, painted, to `out`.
fn paint_onto(out: &mut String, s: &str, c: Color, on: bool)
    ensures
        final (out)@ == old(out)@ + paint_spec(s@, c, on),
{
    if on {
        out.append("\u{1b}[");
        out.append(color_code(c));
        out.append("m");
        out.append(s);
        out.append("\u{1b}[0m");
        proof {
            assert(out@ =~= old(out)@ + paint_spec(s@, c, on));
        }
    } else {
        out.append(s);
    }
}

/// The timestamp text shown for a record: chrono's calendar text for its
/// whole epoch seconds, or a placeholder of the same width when those
/// seconds lie outside chrono's range.
pub open spec fn shown_time(ms: int) -> Seq<char> {
    match timestamp_text(secs_of_millis(ms)) {
        Some(t) => t,
        None => "????-??-?? ??:??:??"@,
    }
}

/// The timestamp text for a millisecond timestamp: exactly `shown_time`.
fn time_text_of(ms: i64) -> (r: String)
    ensures
        r@ == shown_time(ms as int),
{
    match format_timestamp(millis_to_secs(ms)) {
        Some(t) => t,
        None => String::from_str("????-??-?? ??:??:??"),
    }
}

/// The logger-name segment of the header: nothing, or the name in
/// parentheses, painted green.
pub open spec fn name_part_spec(name: Option<Seq<char>>, on: bool) -> Seq<char> {
    match name {
        None => Seq::empty(),
        Some(n) => paint_spec(" ("@ + n + ")"@, Color::Green, on),
    }
}

/// The header of a record: its timestamp and level name painted white, then
/// the logger-name segment.
pub open spec fn header_spec(rec: RecordView, on: bool) -> Seq<char> {
    paint_spec(shown_time(rec.time_ms) + " "@ + level_name(rec.level), Color::White, on)
        + name_part_spec(rec.name, on)
}

/// One indented line of a braced message block.
pub open spec fn line_block_spec(l: Seq<char>, c: Color, on: bool) -> Seq<char> {
    "        "@ + paint_spec(l, c, on) + "\n"@
}

/// The indented lines of a braced message block, in order.
pub open spec fn body_spec(lines: Seq<Seq<char>>, c: Color, on: bool) -> Seq<char>
    decreases lines.len(),
{
    if lines.len() == 0 {
        Seq::empty()
    } else {
        line_block_spec(lines[0], c, on) + body_spec(lines.drop_first(), c, on)
    }
}

/// The message part of a render: on one line with the header when the
/// message holds no newline, else a braced block of its lines, each painted
/// in the level's color.
pub open spec fn message_spec(rec: RecordView, on: bool) -> Seq<char> {
    let c = level_color(rec.level);
    if split_lines(rec.msg).len() <= 1 {
        " "@ + paint_spec(rec.msg, c, on) + "\n"@
    } else {
        paint_spec(" {"@, Color::White, on) + "\n"@ + body_spec(split_lines(rec.msg), c, on)
            + paint_spec("}"@, Color::White, on) + "\n"@
    }
}

/// The full render of a record: header, then message, ending in a newline.
pub open spec fn render_spec(rec: RecordView, on: bool) -> Seq<char> {
    header_spec(rec, on) + message_spec(rec, on)
}

/// Split a text at its newlines, keeping every (possibly empty) segment.
fn split_msg(s: &str) -> (out: Vec<String>)
    ensures
        out@.map_values(|l: String| l@) == split_lines(s@),
{
    let n = s.unicode_len();
    let mut out: Vec<String> = Vec::new();
    let mut start: usize = 0;
    proof {
        assert(out@.map_values(|l: String| l@) =~= Seq::<Seq<char>>::empty());
        assert(s@.skip(0) =~= s@);
        assert(split_lines(s@) =~= out@.map_values(|l: String| l@) + split_lines(s@.skip(0)));
    }
    loop
        invariant
            start <= n == s@.len(),
            split_lines(s@) == out@.map_values(|l: String| l@) + split_lines(s@.skip(start as int)),
        decreases n - start,
    {
        let d = find_from(s, start, '\n');
        proof {
            assert forall|i: int| 0 <= i < d - start implies s@.skip(start as int)[i] != '\n' by {
                assert(s@.skip(start as int)[i] == s@[i + start]);
            }
            if d < n {
                assert(s@.skip(start as int)[d - start] == s@[d as int]);
            }
            lemma_first_at_is(s@.skip(start as int), '\n', d - start);
        }
        let seg = String::from_str(s.substring_char(start, d));
        proof {
            assert(s@.skip(start as int).take(d - start) =~= s@.subrange(start as int, d as int));
        }
        let ghost before = out@.map_values(|l: String| l@);
        out.push(seg);
        proof {
            assert(out@.map_values(|l: String| l@) =~= before + seq![seg@]);
        }
        if d < n {
            proof {
                assert(split_lines(s@.skip(start as int)) == seq![
                    s@.skip(start as int).take(d - start),
                ] + split_lines(s@.skip(start as int).skip(d - start + 1)));
                assert(s@.skip(start as int).skip(d - start + 1) =~= s@.skip(d + 1));
                assert(split_lines(s@) =~= out@.map_values(|l: String| l@) + split_lines(
                    s@.skip(d + 1),
                ));
            }
            start = d + 1;
        } else {
            proof {
                assert(first_at(s@.skip(start as int), '\n') >= s@.skip(start as int).len());
                assert(split_lines(s@.skip(start as int)) == seq![s@.skip(start as int)]);
                assert(s@.skip(start as int).take(d - start) =~= s@.skip(start as int));
                assert(split_lines(s@) =~= out@.map_values(|l: String| l@));
            }
            return out;
        }
    }
}

/// Appending a block for the next line extends the body by that block.
proof fn lemma_body_spec_snoc(lines: Seq<Seq<char>>, c: Color, on: bool, i: int)
    requires
        0 <= i < lines.len(),
    ensures
        body_spec(lines.take(i + 1), c, on) == body_spec(lines.take(i), c, on) + line_block_spec(
            lines[i],
            c,
            on,
        ),
    decreases i,
{
    if i == 0 {
        assert(lines.take(1).drop_first() =~= lines.take(0));
        assert(lines.take(0) =~= Seq::<Seq<char>>::empty());
        assert(lines.take(1)[0] == lines[0]);
        assert(body_spec(lines.take(1), c, on) =~= body_spec(lines.take(0), c, on)
            + line_block_spec(lines[0], c, on));
    } else {
        let t = lines.drop_first();
        lemma_body_spec_snoc(t, c, on, i - 1);
        assert(lines.take(i + 1)[0] == lines[0]);
        assert(lines.take(i)[0] == lines[0]);
        assert(lines.take(i + 1).len() == i + 1);
        assert(lines.take(i + 1).drop_first() =~= t.take(i));
        assert(lines.take(i).drop_first() =~= t.take(i - 1));
        assert(t[i - 1] == lines[i]);
        assert(body_spec(lines.take(i + 1), c, on) == line_block_spec(lines[0], c, on) + body_spec(
            t.take(i),
            c,
            on,
        ));
        assert(body_spec(lines.take(i), c, on) == line_block_spec(lines[0], c, on) + body_spec(
            t.take(i - 1),
            c,
            on,
        ));
        assert(body_spec(lines.take(i + 1), c, on) =~= body_spec(lines.take(i), c, on)
            + line_block_spec(lines[i], c, on));
    }
}

/// Render one record as terminal text: exactly `render_spec` of the record,
/// with coloring as asked.
#[verifier::rlimit(100)]
pub fn render_record(rec: &Record, color_on: bool) -> (out: String)
    ensures
        out@ == render_spec(rec@, color_on),
{
    let mut out = String::new();
    let mut head = time_text_of(rec.time_ms);
    head.append(" ");
    head.append(rec.level.name());
    paint_onto(&mut out, head.as_str(), Color::White, color_on);
    match &rec.name {
        None => {},
        Some(n) => {
            let mut np = String::from_str(" (");
            np.append(n.as_str());
            np.append(")");
            paint_onto(&mut out, np.as_str(), Color::Green, color_on);
            proof {
                assert(np@ =~= " ("@ + n@ + ")"@);
            }
        },
    }
    proof {
        assert(out@ =~= header_spec(rec@, color_on));
    }
    let c = rec.level.color();
    let lines = split_msg(rec.msg.as_str());
    let ghost lv = lines@.map_values(|l: String| l@);
    if lines.len() <= 1 {
        out.append(" ");
        paint_onto(&mut out, rec.msg.as_str(), c, color_on);
        out.append("\n");
        proof {
            assert(out@ =~= render_spec(rec@, color_on));
        }
    } else {
        paint_onto(&mut out, " {", Color::White, color_on);
        out.append("\n");
        let ghost after_open = out@;
        let mut i: usize = 0;
        while i < lines.len()
            invariant
                i <= lines.len(),
                lv == lines@.map_values(|l: String| l@),
                out@ == after_open + body_spec(lv.take(i as int), c, color_on),
            decreases lines.len() - i,
        {
            out.append("        ");
            paint_onto(&mut out, lines[i].as_str(), c, color_on);
            out.append("\n");
            proof {
                lemma_body_spec_snoc(lv, c, color_on, i as int);
                assert(lv[i as int] == lines@[i as int]@);
                assert(out@ =~= after_open + body_spec(lv.take(i + 1), c, color_on));
            }
            i = i + 1;
        }
        proof {
            assert(lv.take(lines@.len() as int) =~= lv);
        }
        paint_onto(&mut out, "}", Color::White, color_on);
        out.append("\n");
        proof {
            assert(out@ =~= render_spec(rec@, color_on));
        }
    }
    out
}

/// The renders of the well-formed lines among `lines`, in order — what
/// one-shot mode prints for a whole file: exactly one render per line that
/// parses as a record, in file order, and nothing for any other line.
pub open spec fn render_all_spec(lines: Seq<Seq<char>>, on: bool) -> Seq<Seq<char>>
    decreases lines.len(),
{
    if lines.len() == 0 {
        Seq::empty()
    } else {
        let head: Seq<Seq<char>> = match parse_spec(lines[0]) {
            Some(rec) => seq![render_spec(rec, on)],
            None => Seq::empty(),
        };
        head + render_all_spec(lines.drop_first(), on)
    }
}

/// One more input line extends the output by its render, or by nothing when
/// it is malformed.
proof fn lemma_render_all_snoc(lines: Seq<Seq<char>>, on: bool, i: int)
    requires
        0 <= i < lines.len(),
    ensures
        render_all_spec(lines.take(i + 1), on) == render_all_spec(lines.take(i), on) + (match parse_spec(
            lines[i],
        ) {
            Some(rec) => seq![render_spec(rec, on)],
            None => Seq::<Seq<char>>::empty(),
        }),
    decreases i,
{
    let tail: Seq<Seq<char>> = match parse_spec(lines[i]) {
        Some(rec) => seq![render_spec(rec, on)],
        None => Seq::<Seq<char>>::empty(),
    };
    if i == 0 {
        assert(lines.take(1).drop_first() =~= lines.take(0));
        assert(lines.take(0) =~= Seq::<Seq<char>>::empty());
        assert(lines.take(1)[0] == lines[0]);
        assert(render_all_spec(lines.take(1), on) =~= render_all_spec(lines.take(0), on) + tail);
    } else {
        let t = lines.drop_first();
        lemma_render_all_snoc(t, on, i - 1);
        assert(lines.take(i + 1)[0] == lines[0]);
        assert(lines.take(i)[0] == lines[0]);
        assert(lines.take(i + 1).drop_first() =~= t.take(i));
        assert(lines.take(i).drop_first() =~= t.take(i - 1));
        assert(t[i - 1] == lines[i]);
        assert(render_all_spec(lines.take(i + 1), on) =~= render_all_spec(lines.take(i), on)
            + tail);
    }
}

/// Render a whole file's worth of lines, one-shot: exactly one render per
/// well-formed line, in order; malformed lines yield nothing and disturb
/// nothing.
pub fn render_lines(lines: &Vec<String>, color_on: bool) -> (out: Vec<String>)
    ensures
        out@.map_values(|l: String| l@) == render_all_spec(
            lines@.map_values(|l: String| l@),
            color_on,
        ),
{
    let ghost lv = lines@.map_values(|l: String| l@);
    let mut out: Vec<String> = Vec::new();
    let mut i: usize = 0;
    while i < lines.len()
        invariant
            i <= lines.len(),
            lv == lines@.map_values(|l: String| l@),
            out@.map_values(|l: String| l@) == render_all_spec(lv.take(i as int), color_on),
        decreases lines.len() - i,
    {
        let ghost before = out@.map_values(|l: String| l@);
        match parse_line(lines[i].as_str()) {
            None => {},
            Some(rec) => {
                let rendered = render_record(&rec, color_on);
                out.push(rendered);
                proof {
                    assert(out@.map_values(|l: String| l@) =~= before + seq![
                        render_spec(rec@, color_on),
                    ]);
                }
            },
        }
        proof {
            lemma_render_all_snoc(lv, color_on, i as int);
            assert(lv[i as int] == lines@[i as int]@);
        }
        i = i + 1;
    }
    proof {
        assert(lv.take(lines@.len() as int) =~= lv);
    }
    out
}

/// How many lines of a file are well-formed records.
pub open spec fn well_formed_count(lines: Seq<Seq<char>>) -> int
    decreases lines.len(),
{
    if lines.len() == 0 {
        0
    } else {
        (if parse_spec(lines[0]) is Some {
            1int
        } else {
            0int
        }) + well_formed_count(lines.drop_first())
    }
}

/// One-shot mode renders exactly once per well-formed line: the output of
/// `render_all_spec` has one entry for each line that parses as a record,
/// however many malformed lines stand between them.
pub proof fn lemma_render_all_count(lines: Seq<Seq<char>>, on: bool)
    ensures
        render_all_spec(lines, on).len() == well_formed_count(lines),
    decreases lines.len(),
{
    if lines.len() > 0 {
        lemma_render_all_count(lines.drop_first(), on);
    }
}

} // verus!
