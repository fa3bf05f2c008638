//! Reading a window's position out of what the measurement tool prints.
//!
//! The tool answers with a few labelled lines, such as
//!
//! ```text
//! Window 44040195
//!   Position: 1920,36 (screen: 0)
//!   Geometry: 1280x720
//! ```
//!
//! The position is taken from the first line that begins, after blanks, with
//! `Position:`. Behind the label it holds, after blanks, the x coordinate, a
//! comma and the y coordinate, each a decimal numeral that a minus sign may
//! precede. What follows the y coordinate is not looked at.

use vstd::prelude::*;
use crate::error::PlacementError;

verus! {

/// A space or a tab.
pub open spec fn is_blank(b: u8) -> bool {
    b == 0x20 || b == 0x09
}

/// A decimal digit.
pub open spec fn is_digit(b: u8) -> bool {
    0x30 <= b <= 0x39
}

/// The bytes of `Position:`.
pub open spec fn label() -> Seq<u8> {
    seq![0x50u8, 0x6f, 0x73, 0x69, 0x74, 0x69, 0x6f, 0x6e, 0x3a]
}

/// The first index at or behind `from` that holds no blank; the length of
/// the text if there is none.
pub open spec fn skip_blanks(text: Seq<u8>, from: int) -> int
    decreases text.len() - from,
{
    if 0 <= from < text.len() && is_blank(text[from]) {
        skip_blanks(text, from + 1)
    } else {
        from
    }
}

/// The first index at or behind `from` that holds no digit; the length of
/// the text if there is none.
pub open spec fn digits_end(text: Seq<u8>, from: int) -> int
    decreases text.len() - from,
{
    if 0 <= from < text.len() && is_digit(text[from]) {
        digits_end(text, from + 1)
    } else {
        from
    }
}

/// The number that the digits of `text` from `from` up to `to` spell.
pub open spec fn digits_value(text: Seq<u8>, from: int, to: int) -> int
    decreases to - from,
{
    if to <= from {
        0
    } else {
        digits_value(text, from, to - 1) * 10 + (text[to - 1] - 0x30)
    }
}

/// `word` stands in `text` at `at`.
pub open spec fn stands_at(text: Seq<u8>, at: int, word: Seq<u8>) -> bool {
    0 <= at && at + word.len() <= text.len() && text.subrange(at, at + word.len()) == word
}

/// A line of `text` starts at `at`, and it begins, after blanks, with the label.
pub open spec fn labelled(text: Seq<u8>, at: int) -> bool {
    &&& 0 <= at <= text.len()
    &&& at == 0 || text[at - 1] == 0x0a
    &&& stands_at(text, skip_blanks(text, at), label())
}

/// The start of the first labelled line of `text`.
#[verifier::opaque]
pub open spec fn first_labelled(text: Seq<u8>) -> Option<int> {
    if exists|at: int| labelled(text, at) {
        Some(choose|at: int| labelled(text, at) && forall|j: int| 0 <= j < at ==> !labelled(text, j))
    } else {
        None
    }
}

/// The numeral that stands in `text` at `at`: its value, and the index behind
/// its last digit. A numeral is an optional minus sign and one digit or more.
pub open spec fn number_at(text: Seq<u8>, at: int) -> Option<(int, int)> {
    let negative = 0 <= at < text.len() && text[at] == 0x2d;
    let start = if negative {
        at + 1
    } else {
        at
    };
    let end = digits_end(text, start);
    if end == start {
        None
    } else if negative {
        Some((-digits_value(text, start, end), end))
    } else {
        Some((digits_value(text, start, end), end))
    }
}

/// The coordinates that stand in `text` behind `from`: blanks, a numeral, a
/// comma and a numeral, both numerals 32-bit integers.
pub open spec fn coordinates_at(text: Seq<u8>, from: int) -> Option<(int, int)> {
    match number_at(text, skip_blanks(text, from)) {
        None => None,
        Some((x, comma)) => {
            if comma < text.len() && text[comma] == 0x2c {
                match number_at(text, comma + 1) {
                    None => None,
                    Some((y, _)) => {
                        if i32::MIN <= x <= i32::MAX && i32::MIN <= y <= i32::MAX {
                            Some((x, y))
                        } else {
                            None
                        }
                    },
                }
            } else {
                None
            }
        },
    }
}

/// The position that `text` reports: the coordinates behind the label of its
/// first labelled line, if it has such a line and the coordinates are well
/// formed.
pub open spec fn position_in(text: Seq<u8>) -> Option<(int, int)> {
    match first_labelled(text) {
        None => None,
        Some(line) => coordinates_at(text, skip_blanks(text, line) + label().len()),
    }
}

/// Skips blanks from `from`.
fn past_blanks(text: &[u8], from: usize) -> (at: usize)
    requires
        from <= text.len(),
    ensures
        at == skip_blanks(text@, from as int),
        from <= at <= text.len(),
{
    let mut at = from;
    while at < text.len() && (text[at] == 0x20 || text[at] == 0x09)
        invariant
            from <= at <= text.len(),
            skip_blanks(text@, from as int) == skip_blanks(text@, at as int),
        decreases text.len() - at,
    {
        at += 1;
    }
    at
}

/// Whether the label stands in `text` at `at`.
fn label_at(text: &[u8], at: usize) -> (found: bool)
    requires
        at <= text.len(),
    ensures
        found == stands_at(text@, at as int, label()),
{
    if text.len() - at < 9 {
        return false;
    }
    let found = text[at] == 0x50 && text[at + 1] == 0x6f && text[at + 2] == 0x73 && text[at + 3]
        == 0x69 && text[at + 4] == 0x74 && text[at + 5] == 0x69 && text[at + 6] == 0x6f && text[at
        + 7] == 0x6e && text[at + 8] == 0x3a;
    proof {
        let part = text@.subrange(at as int, at + 9);
        if found {
            assert(part =~= label());
        } else {
            assert(part[0] == text@[at as int]);
            assert(part[1] == text@[at + 1]);
            assert(part[2] == text@[at + 2]);
            assert(part[3] == text@[at + 3]);
            assert(part[4] == text@[at + 4]);
            assert(part[5] == text@[at + 5]);
            assert(part[6] == text@[at + 6]);
            assert(part[7] == text@[at + 7]);
            assert(part[8] == text@[at + 8]);
        }
    }
    found
}

/// Finds the start of the first labelled line.
fn find_labelled(text: &[u8]) -> (line: Option<usize>)
    ensures
        match line {
            Some(at) => first_labelled(text@) == Some(at as int) && skip_blanks(text@, at as int)
                + label().len() <= text.len(),
            None => first_labelled(text@) is None,
        },
{
    let mut line: usize = 0;
    loop
        invariant
            line <= text.len(),
            line == 0 || text@[line - 1] == 0x0a,
            forall|j: int| 0 <= j < line ==> !labelled(text@, j),
        decreases text.len() - line,
    {
        let at = past_blanks(text, line);
        if label_at(text, at) {
            proof {
                reveal(first_labelled);
                assert(labelled(text@, line as int));
                let chosen = choose|at: int|
                    labelled(text@, at) && forall|j: int| 0 <= j < at ==> !labelled(text@, j);
                assert(labelled(text@, chosen) && forall|j: int|
                    0 <= j < chosen ==> !labelled(text@, j));
                assert(chosen == line);
            }
            return Some(line);
        }
        let mut end = line;
        while end < text.len() && text[end] != 0x0a
            invariant
                line <= end <= text.len(),
                forall|j: int| line <= j < end ==> text@[j] != 0x0a,
            decreases text.len() - end,
        {
            end += 1;
        }
        if end >= text.len() {
            proof {
                reveal(first_labelled);
                assert forall|j: int| !labelled(text@, j) by {
                    if line < j <= text.len() {
                        assert(text@[j - 1] != 0x0a);
                    }
                }
            }
            return None;
        }
        proof {
            assert forall|j: int| 0 <= j < end + 1 implies !labelled(text@, j) by {
                if line < j {
                    assert(text@[j - 1] != 0x0a);
                }
            }
        }
        line = end + 1;
    }
}

/// A numeral that was read: where it ends, and its value where that is a
/// 32-bit integer.
struct Numeral {
    end: usize,
    value: Option<i32>,
}

/// A longer run of digits spells no smaller a number.
proof fn lemma_digits_value_grows(text: Seq<u8>, from: int, to: int)
    requires
        0 <= from <= to < text.len(),
        is_digit(text[to]),
        forall|j: int| from <= j < to ==> is_digit(text[j]),
    ensures
        0 <= digits_value(text, from, to),
        digits_value(text, from, to + 1) == digits_value(text, from, to) * 10 + (text[to] - 0x30),
        digits_value(text, from, to + 1) >= digits_value(text, from, to),
    decreases to - from,
{
    if from < to {
        lemma_digits_value_grows(text, from, to - 1);
    }
}

/// Reads the numeral that stands at `at`.
fn read_number(text: &[u8], at: usize) -> (numeral: Option<Numeral>)
    requires
        at <= text.len(),
    ensures
        match number_at(text@, at as int) {
            None => numeral is None,
            Some((value, end)) => numeral matches Some(n) && n.end == end && end <= text.len() && (
            if i32::MIN <= value <= i32::MAX {
                n.value == Some(value as i32)
            } else {
                n.value is None
            }),
        },
{
    let negative = at < text.len() && text[at] == 0x2d;
    let start: usize = if negative {
        at + 1
    } else {
        at
    };
    let mut end = start;
    let mut magnitude: u64 = 0;
    let mut over = false;
    while end < text.len() && 0x30 <= text[end] && text[end] <= 0x39
        invariant
            start <= end <= text.len(),
            digits_end(text@, start as int) == digits_end(text@, end as int),
            forall|j: int| start <= j < end ==> is_digit(text@[j]),
            0 <= digits_value(text@, start as int, end as int),
            !over ==> magnitude == digits_value(text@, start as int, end as int) && magnitude
                <= 0x8000_0000,
            over ==> digits_value(text@, start as int, end as int) > 0x8000_0000,
        decreases text.len() - end,
    {
        proof {
            lemma_digits_value_grows(text@, start as int, end as int);
        }
        if !over {
            magnitude = magnitude * 10 + (text[end] - 0x30) as u64;
            if magnitude > 0x8000_0000 {
                over = true;
            }
        }
        end += 1;
    }
    if end == start {
        return None;
    }
    let value: Option<i32> = if over {
        None
    } else if negative {
        Some((-(magnitude as i64)) as i32)
    } else if magnitude <= 0x7fff_ffff {
        Some(magnitude as i32)
    } else {
        None
    };
    Some(Numeral { end, value })
}

/// Reads the coordinates that stand behind `from`.
fn read_coordinates(text: &[u8], from: usize) -> (result: Result<(i32, i32), PlacementError>)
    requires
        from <= text.len(),
    ensures
        match coordinates_at(text@, from as int) {
            Some((x, y)) => result == Ok::<(i32, i32), PlacementError>((x as i32, y as i32)),
            None => result == Err::<(i32, i32), PlacementError>(PlacementError::MeasurementFailed),
        },
{
    let at = past_blanks(text, from);
    let first = match read_number(text, at) {
        Some(n) => n,
        None => {
            return Err(PlacementError::MeasurementFailed);
        },
    };
    if first.end >= text.len() || text[first.end] != 0x2c {
        return Err(PlacementError::MeasurementFailed);
    }
    let second = match read_number(text, first.end + 1) {
        Some(n) => n,
        None => {
            return Err(PlacementError::MeasurementFailed);
        },
    };
    match (first.value, second.value) {
        (Some(x), Some(y)) => Ok((x, y)),
        _ => Err(PlacementError::MeasurementFailed),
    }
}

/// Reads the position of a window out of the measurement tool's answer.
/// Any answer that holds no well-formed position is a failed measurement.
pub fn parse_position(text: &[u8]) -> (result: Result<(i32, i32), PlacementError>)
    ensures
        match position_in(text@) {
            Some((x, y)) => result == Ok::<(i32, i32), PlacementError>((x as i32, y as i32)),
            None => result == Err::<(i32, i32), PlacementError>(PlacementError::MeasurementFailed),
        },
{
    match find_labelled(text) {
        Some(line) => {
            let label_start = past_blanks(text, line);
            read_coordinates(text, label_start + 9)
        },
        None => Err(PlacementError::MeasurementFailed),
    }
}

} // verus!
