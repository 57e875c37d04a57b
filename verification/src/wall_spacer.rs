//! Drawing picture frames along a wall: the marks of one frame and the
//! padding round a centre point.

use crate::text::{chars_of, string_of};
use vstd::prelude::*;

verus! {

/// The width to which an even-length centre point is padded.
pub const EVEN_WIDTH: usize = 8;

/// The width to which an odd-length centre point is padded.
pub const ODD_WIDTH: usize = 7;

/// Whether the mark at `i` of a frame `width` marks wide is at its centre: the
/// middle mark of an odd width, the two middle marks of an even one.
pub open spec fn is_center(width: int, i: int) -> bool {
    if width % 2 == 0 {
        i == width / 2 - 1 || i == width / 2
    } else {
        i == width / 2
    }
}

/// A frame `width` marks wide: `^` at its centre and `+` everywhere else.
pub open spec fn frame_marks(width: nat) -> Seq<char> {
    Seq::new(
        width,
        |i: int|
            if is_center(width as int, i) {
                '^'
            } else {
                '+'
            },
    )
}

/// Draws a frame `width` marks wide.
pub fn draw_frame(width: usize) -> (frame: String)
    ensures
        frame@ == frame_marks(width as nat),
{
    let mut marks: Vec<char> = Vec::new();
    let even = width % 2 == 0;
    let half = width / 2;
    let mut i: usize = 0;
    while i < width
        invariant
            i <= width,
            even == (width % 2 == 0),
            half == width / 2,
            marks@.len() == i,
            forall|k: int| 0 <= k < i ==> #[trigger] marks@[k] == frame_marks(width as nat)[k],
        decreases width - i,
    {
        if i == half || (even && i + 1 == half) {
            marks.push('^');
        } else {
            marks.push('+');
        }
        i = i + 1;
    }
    assert(marks@ =~= frame_marks(width as nat));
    string_of(&marks)
}

/// The width that a text of `length` characters is padded to.
pub open spec fn padded_width(length: int) -> int {
    if length % 2 == 0 {
        EVEN_WIDTH as int
    } else {
        ODD_WIDTH as int
    }
}

/// The blanks in front of a text of `length` characters: half of what is
/// missing to its padded width, rounded down.
pub open spec fn left_padding(length: int) -> int {
    (padded_width(length) - length) / 2
}

/// `count` blanks.
pub open spec fn blanks(count: nat) -> Seq<char> {
    Seq::new(count, |i: int| ' ')
}

/// `text` in the middle of its padded width, with the odd blank behind it.
pub open spec fn centered(text: Seq<char>) -> Seq<char> {
    let left = left_padding(text.len() as int);
    let right = padded_width(text.len() as int) - text.len() - left;
    blanks(left as nat) + text + blanks(right as nat)
}

/// Pads a text that is no longer than its padded width with blanks on both
/// sides.
pub fn pad_center(text: &str) -> (padded: String)
    requires
        text@.len() <= padded_width(text@.len() as int),
    ensures
        padded@ == centered(text@),
        padded@.len() == padded_width(text@.len() as int),
{
    let chars = chars_of(text);
    let len = chars.len();
    let total_padding = if len % 2 == 0 {
        EVEN_WIDTH - len
    } else {
        ODD_WIDTH - len
    };
    let left_padding = total_padding / 2;
    let right_padding = total_padding - left_padding;
    let mut out: Vec<char> = Vec::new();
    let mut i: usize = 0;
    while i < left_padding
        invariant
            i <= left_padding,
            out@ == blanks(i as nat),
        decreases left_padding - i,
    {
        out.push(' ');
        assert(out@ =~= blanks((i + 1) as nat));
        i = i + 1;
    }
    let mut j: usize = 0;
    while j < len
        invariant
            j <= len,
            len == chars@.len(),
            out@ == blanks(left_padding as nat) + chars@.take(j as int),
        decreases len - j,
    {
        out.push(chars[j]);
        assert(out@ =~= blanks(left_padding as nat) + chars@.take(j + 1));
        j = j + 1;
    }
    assert(chars@.take(len as int) == chars@);
    let mut k: usize = 0;
    while k < right_padding
        invariant
            k <= right_padding,
            out@ == blanks(left_padding as nat) + chars@ + blanks(k as nat),
        decreases right_padding - k,
    {
        out.push(' ');
        assert(out@ =~= blanks(left_padding as nat) + chars@ + blanks((k + 1) as nat));
        k = k + 1;
    }
    string_of(&out)
}

} // verus!
