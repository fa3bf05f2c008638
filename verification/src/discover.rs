//! Reading window identifiers out of what the discovery tool prints: one
//! identifier on each line, as many lines as windows carry the class.

use vstd::prelude::*;
use vstd::slice::slice_subrange;
use vstd::slice::slice_to_vec;

verus! {

/// The mathematical value of a sequence of byte strings.
pub open spec fn byte_texts(strings: Seq<Vec<u8>>) -> Seq<Seq<u8>> {
    strings.map_values(|s: Vec<u8>| s@)
}

/// The index of the first line feed at or behind `from`; the length of the
/// text if there is none.
pub open spec fn line_end(text: Seq<u8>, from: int) -> int
    decreases text.len() - from,
{
    if 0 <= from < text.len() && text[from] != 0x0a {
        line_end(text, from + 1)
    } else {
        from
    }
}

/// The lines of `text` from `from` on that are not empty, in order. A line
/// ends at a line feed or at the end of the text; the line feed is no part
/// of it.
pub open spec fn lines_from(text: Seq<u8>, from: int) -> Seq<Seq<u8>>
    decreases text.len() - from,
{
    if from < 0 || from >= text.len() {
        Seq::empty()
    } else {
        let end = line_end(text, from);
        let rest = if from <= end < text.len() {
            lines_from(text, end + 1)
        } else {
            Seq::empty()
        };
        if end > from {
            seq![text.subrange(from, end)] + rest
        } else {
            rest
        }
    }
}

/// The window identifiers that `text` lists: its lines that are not empty.
pub open spec fn window_ids_in(text: Seq<u8>) -> Seq<Seq<u8>> {
    lines_from(text, 0)
}

/// Reads the window identifiers out of the discovery tool's answer.
pub fn window_ids(text: &[u8]) -> (ids: Vec<Vec<u8>>)
    ensures
        byte_texts(ids@) == window_ids_in(text@),
{
    let mut ids: Vec<Vec<u8>> = Vec::new();
    let mut from: usize = 0;
    assert(byte_texts(ids@) + lines_from(text@, 0) =~= window_ids_in(text@));
    while from < text.len()
        invariant
            from <= text.len(),
            byte_texts(ids@) + lines_from(text@, from as int) == window_ids_in(text@),
        decreases text.len() - from,
    {
        let mut end = from;
        while end < text.len() && text[end] != 0x0a
            invariant
                from <= end <= text.len(),
                line_end(text@, from as int) == line_end(text@, end as int),
            decreases text.len() - end,
        {
            end += 1;
        }
        let ghost before = byte_texts(ids@);
        let next: usize = if end < text.len() {
            end + 1
        } else {
            end
        };
        if end > from {
            let line = slice_to_vec(slice_subrange(text, from, end));
            ids.push(line);
            assert(byte_texts(ids@) =~= before + seq![text@.subrange(from as int, end as int)]);
        }
        assert(byte_texts(ids@) + lines_from(text@, next as int) =~= before + lines_from(
            text@,
            from as int,
        ));
        from = next;
    }
    assert(byte_texts(ids@) + lines_from(text@, from as int) =~= byte_texts(ids@));
    ids
}

} // verus!
