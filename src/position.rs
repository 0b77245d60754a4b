use vstd::prelude::*;
use vstd::string::StringSliceAdditionalSpecFns;

verus! {

/// A byte that begins a character in UTF-8 (it is not a continuation byte).
pub open spec fn starts_char(b: u8) -> bool {
    b < 0x80 || b >= 0xC0
}

/// The 1-based (line, column) reached after walking the first `offset` bytes
/// of `bytes`: a newline moves to the start of the next line, and every other
/// character moves one column to the right.
pub open spec fn position_of(bytes: Seq<u8>, offset: int) -> (int, int)
    decreases offset,
{
    if offset <= 0 {
        (1, 1)
    } else {
        let prev = position_of(bytes, offset - 1);
        let b = bytes[offset - 1];
        if b == 10u8 {
            (prev.0 + 1, 1)
        } else if starts_char(b) {
            (prev.0, prev.1 + 1)
        } else {
            prev
        }
    }
}

/// An offset past the end of the text is taken as the end of the text.
pub open spec fn clamp_offset(len: int, offset: int) -> int {
    if offset < len {
        offset
    } else {
        len
    }
}

proof fn lemma_position_bounds(bytes: Seq<u8>, offset: int)
    requires
        0 <= offset,
    ensures
        1 <= position_of(bytes, offset).0 <= offset + 1,
        1 <= position_of(bytes, offset).1 <= offset + 1,
    decreases offset,
{
    if offset > 0 {
        lemma_position_bounds(bytes, offset - 1);
    }
}

/// Resolves a byte offset into UTF-8 encoded text to a 1-based (line, column).
///
/// The text must be shorter than `usize::MAX` bytes, so that the column after
/// its last byte can be represented.
pub fn line_col_bytes(bytes: &[u8], offset: usize) -> (r: (usize, usize))
    requires
        bytes@.len() < usize::MAX,
    ensures
        (r.0 as int, r.1 as int) == position_of(bytes@, clamp_offset(bytes@.len() as int, offset as int)),
        r.0 >= 1,
        r.1 >= 1,
{
    let end: usize = if offset < bytes.len() {
        offset
    } else {
        bytes.len()
    };
    let mut line: usize = 1;
    let mut col: usize = 1;
    let mut i: usize = 0;
    while i < end
        invariant
            end <= bytes@.len(),
            bytes@.len() < usize::MAX,
            i <= end,
            (line as int, col as int) == position_of(bytes@, i as int),
        decreases end - i,
    {
        proof {
            lemma_position_bounds(bytes@, i as int);
        }
        let b = bytes[i];
        if b == 10u8 {
            line = line + 1;
            col = 1;
        } else if b < 0x80u8 || b >= 0xC0u8 {
            col = col + 1;
        }
        i = i + 1;
    }
    proof {
        lemma_position_bounds(bytes@, end as int);
    }
    (line, col)
}

/// Resolves a byte offset into `source` to a 1-based (line, column).
pub fn line_col(source: &str, offset: usize) -> (r: (usize, usize))
    requires
        source.spec_bytes().len() < usize::MAX,
    ensures
        (r.0 as int, r.1 as int) == position_of(
            source.spec_bytes(),
            clamp_offset(source.spec_bytes().len() as int, offset as int),
        ),
        r.0 >= 1,
        r.1 >= 1,
{
    line_col_bytes(source.as_bytes(), offset)
}

} // verus!
