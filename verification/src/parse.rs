//! Decoding one line of text into a [`Record`].
//!
//! A line is one JSON object with a numeric `time` (epoch milliseconds,
//! possibly fractional), an integer `level`, a string `msg` and an optional
//! string `name`.  serde_json reads the JSON; the numeric time is then taken
//! from its textual form by a verified scan, so that a fractional timestamp
//! is truncated to whole milliseconds exactly as specified.  A line that
//! does not fit this shape yields nothing — malformed lines are dropped,
//! never an error.

use vstd::prelude::*;

use crate::level::Level;
use crate::record::{opt_text_view, Record, RecordView};
use crate::text::{all_digits, digit_val, digits_val, first_at, is_digit};
use crate::text::{lemma_digits_val_nonneg, lemma_digits_val_step, lemma_first_at_is};
use crate::text::find_from;

verus! {

/// The magnitude of the smallest `i64`, `2^63`: the first digit-string value
/// that no longer fits a positive `i64`, and the last that still fits a
/// negative one.
pub const DIGIT_LIMIT: u64 = 9223372036854775808;

/// What serde_json yields for one log line: the four fields of a well-shaped
/// line — the `time` number in its textual form, the `level` integer, the
/// `msg` text and the optional `name` — or nothing for any other line.
pub uninterp spec fn decoded_of(line: Seq<char>) -> Option<
    (Seq<char>, int, Seq<char>, Option<Seq<char>>),
>;

/// The four fields of a well-shaped log line, still raw: the time number is
/// kept as text so its value can be read exactly.
pub(crate) struct RawFields {
    pub time_text: String,
    pub level: i64,
    pub msg: String,
    pub name: Option<String>,
}

/// Relies on `serde_json::from_str` and the `Value` accessors `get`,
/// `as_number`, `as_i64`, `as_str` and `is_null`: yields the fields of a
/// line that parses as a JSON object whose `time` is a number, `level` an
/// integer, `msg` a string and `name` absent, null or a string (the number's
/// text is `Number`'s display form), and nothing for every other line.
#[verifier::external_body]
pub(crate) fn decode_fields(line: &str) -> (r: Option<RawFields>)
    ensures
        r is Some <==> decoded_of(line@) is Some,
        r matches Some(f) ==> decoded_of(line@) == Some(
            (f.time_text@, f.level as int, f.msg@, opt_text_view(f.name)),
        ),
{
    let v: serde_json::Value = serde_json::from_str(line).ok()?;
    let time_text = v.get("time")?.as_number()?.to_string();
    let level = v.get("level")?.as_i64()?;
    let msg = v.get("msg")?.as_str()?.to_string();
    let name = match v.get("name") {
        None => None,
        Some(n) if n.is_null() => None,
        Some(n) => Some(n.as_str()?.to_string()),
    };
    Some(RawFields { time_text, level, msg, name })
}

/// The millisecond value encoded by the textual form of a JSON number
/// without exponent: an optional minus sign, a nonempty run of digits, and
/// optionally a dot followed by a nonempty run of digits.  The fraction is
/// truncated toward zero.  A form with an exponent, any other shape, or an
/// integer part beyond `i64` yields nothing.
pub open spec fn millis_of_text(s: Seq<char>) -> Option<int> {
    let neg = s.len() > 0 && s[0] == '-';
    let body = if neg {
        s.drop_first()
    } else {
        s
    };
    let d = first_at(body, '.');
    let intpart = body.take(d);
    let ok = 0 < intpart.len() && all_digits(intpart) && (d >= body.len() || (d + 1 < body.len()
        && all_digits(body.skip(d + 1))));
    if ok {
        let v = if neg {
            -digits_val(intpart)
        } else {
            digits_val(intpart)
        };
        if i64::MIN <= v <= i64::MAX {
            Some(v)
        } else {
            None
        }
    } else {
        None
    }
}

/// Scan the digits of `s` between `from` and `to`, accumulating their value.
/// Yields nothing if a non-digit occurs; otherwise the value, with a flag
/// set when the value exceeds `DIGIT_LIMIT` (in which case the accumulator
/// is meaningless).
fn scan_digits(s: &str, from: usize, to: usize) -> (r: Option<(u64, bool)>)
    requires
        from <= to <= s@.len(),
    ensures
        r is Some <==> all_digits(s@.subrange(from as int, to as int)),
        r matches Some(p) ==> {
            let ds = s@.subrange(from as int, to as int);
            &&& (!p.1 ==> p.0 as int == digits_val(ds) && p.0 <= DIGIT_LIMIT)
            &&& (p.1 ==> digits_val(ds) > DIGIT_LIMIT)
        },
{
    let ghost ds = s@.subrange(from as int, to as int);
    let mut acc: u64 = 0;
    let mut big = false;
    let mut k = from;
    while k < to
        invariant
            from <= k <= to <= s@.len(),
            ds == s@.subrange(from as int, to as int),
            all_digits(ds.take(k - from)),
            !big ==> acc as int == digits_val(ds.take(k - from)) && acc <= DIGIT_LIMIT,
            big ==> digits_val(ds.take(k - from)) > DIGIT_LIMIT,
        decreases to - k,
    {
        let c = s.get_char(k);
        let u = c as u32;
        proof {
            assert(ds[k - from] == s@[k as int]);
        }
        if u < 48 || u > 57 {
            proof {
                assert(!is_digit(ds[k - from]));
            }
            return None;
        }
        let dv: u64 = (u - 48) as u64;
        proof {
            assert(is_digit(ds[k - from]));
            assert(dv as int == digit_val(ds[k - from]));
            assert(ds.take(k - from + 1).drop_last() =~= ds.take(k - from));
            lemma_digits_val_step(ds, k - from);
            if !big {
                lemma_digits_val_nonneg(ds.take(k - from));
            }
        }
        if big {
            proof {
                assert(digits_val(ds.take(k - from + 1)) == digits_val(ds.take(k - from)) * 10
                    + dv);
            }
        } else if acc > 922337203685477580 {
            big = true;
        } else {
            let next: u64 = acc * 10 + dv;
            if next > DIGIT_LIMIT {
                big = true;
            } else {
                acc = next;
            }
        }
        k = k + 1;
    }
    proof {
        assert(ds.take(to - from) =~= ds);
    }
    Some((acc, big))
}

/// Read the millisecond value of a JSON number's textual form: exactly
/// `millis_of_text`, as an `i64`.
pub fn parse_millis(s: &str) -> (r: Option<i64>)
    ensures
        r is Some <==> millis_of_text(s@) is Some,
        r matches Some(v) ==> millis_of_text(s@) == Some(v as int),
{
    let n = s.unicode_len();
    let neg = if n > 0 {
        s.get_char(0) == '-'
    } else {
        false
    };
    let start: usize = if neg {
        1
    } else {
        0
    };
    let ghost body = if neg { s@.drop_first() } else { s@ };
    let d = find_from(s, start, '.');
    proof {
        assert forall|i: int| 0 <= i < d - start implies body[i] != '.' by {
            assert(body[i] == s@[i + start]);
        }
        if d < n {
            assert(body[d - start] == s@[d as int]);
        }
        lemma_first_at_is(body, '.', d - start);
    }
    if d == start {
        // empty integer part (or empty input)
        return None;
    }
    if d < n && d + 1 >= n {
        // dot with nothing after it
        proof {
            assert(d - start < body.len());
            assert(d - start + 1 >= body.len());
        }
        return None;
    }
    if d < n {
        let frac = scan_digits(s, d + 1, n);
        proof {
            assert(body.skip(d - start + 1) =~= s@.subrange(d + 1, n as int));
        }
        if frac.is_none() {
            return None;
        }
    }
    proof {
        assert(body.take(d - start) =~= s@.subrange(start as int, d as int));
    }
    let got = scan_digits(s, start, d);
    let (acc, big) = match got {
        None => {
            return None;
        },
        Some(p) => p,
    };
    if big {
        return None;
    }
    if !neg && acc == DIGIT_LIMIT {
        return None;
    }
    if neg {
        let v: i64 = (-(acc as i128)) as i64;
        proof {
            assert(acc as int <= DIGIT_LIMIT);
            assert(v as int == -(acc as int));
        }
        Some(v)
    } else {
        Some(acc as i64)
    }
}

/// The record encoded by one line of input, if any: the serde_json decoding
/// of the line, its time read as truncated milliseconds, its level within
/// `i32`.  Anything else is no record.
pub open spec fn parse_spec(line: Seq<char>) -> Option<RecordView> {
    match decoded_of(line) {
        None => None,
        Some(f) => match millis_of_text(f.0) {
            None => None,
            Some(ms) => if i32::MIN <= f.1 <= i32::MAX {
                Some(RecordView { time_ms: ms, level: f.1, msg: f.2, name: f.3 })
            } else {
                None
            },
        },
    }
}

/// Decode one line of input into a record: exactly `parse_spec` of the line.
/// Yields nothing — and the caller drops the line silently — when the line
/// is not a well-shaped log record.
pub fn parse_line(line: &str) -> (r: Option<Record>)
    ensures
        r is Some <==> parse_spec(line@) is Some,
        r matches Some(rec) ==> parse_spec(line@) == Some(rec@),
{
    let f = match decode_fields(line) {
        None => {
            return None;
        },
        Some(f) => f,
    };
    let ms = match parse_millis(f.time_text.as_str()) {
        None => {
            return None;
        },
        Some(m) => m,
    };
    if f.level < -2147483648 || f.level > 2147483647 {
        return None;
    }
    Some(Record { time_ms: ms, level: Level(f.level as i32), msg: f.msg, name: f.name })
}

} // verus!
