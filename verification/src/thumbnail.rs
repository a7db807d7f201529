//! Thumbnail caption layout: splitting the caption into lines, centering
//! each line on the canvas, stacking lines vertically, and validating that
//! the text fits before anything is drawn or written.

use crate::error::Error;
use crate::strutil::{split_char_spec, split_on_char, views_of};
use vstd::prelude::*;

verus! {

/// Hard limit on the rendered width of one caption line, in pixels.
pub const MAX_TEXT_WIDTH: u32 = 1600;

/// Vertical offset of the first caption line from the canvas top, in pixels.
pub const TEXT_TOP_OFFSET: u32 = 660;

/// One caption line together with its measured pixel extent.
#[derive(Debug, Clone)]
pub struct CaptionLine {
    pub text: String,
    pub width: u32,
    pub height: u32,
}

/// Where a caption line is drawn on the canvas.
#[derive(Debug, Clone, Copy, PartialEq, Eq, Structural)]
pub struct PlacedLine {
    pub x: u32,
    pub y: u32,
}

/// Vertical offset at which line `i` starts: the top offset plus the heights
/// of all earlier lines, with no extra padding.
pub open spec fn y_offset_spec(lines: Seq<CaptionLine>, i: int) -> int
    decreases i,
{
    if i <= 0 {
        TEXT_TOP_OFFSET as int
    } else {
        y_offset_spec(lines, i - 1) + lines[i - 1].height
    }
}

/// Line `i` fits: strictly narrower than the width limit, and its bottom
/// stays strictly above the canvas bottom.
pub open spec fn line_fits(lines: Seq<CaptionLine>, i: int, canvas_height: int) -> bool {
    lines[i].width < MAX_TEXT_WIDTH && y_offset_spec(lines, i) + lines[i].height < canvas_height
}

/// Where line `i` goes: horizontally centered, stacked below the earlier
/// lines.
pub open spec fn placed_at(lines: Seq<CaptionLine>, canvas_width: int, i: int) -> PlacedLine {
    PlacedLine {
        x: ((canvas_width - lines[i].width) / 2) as u32,
        y: y_offset_spec(lines, i) as u32,
    }
}

/// Split a caption into its lines at embedded line breaks.
pub fn split_caption(text: &str) -> (r: Vec<String>)
    ensures
        views_of(r@) == split_char_spec(text@, '\n'),
{
    split_on_char(text, '\n')
}

/// Lay the measured caption lines out on a canvas: each line horizontally
/// centered, lines stacked from the fixed top offset. Fails, before anything
/// could be drawn, on the first line that is too wide or that would run past
/// the canvas bottom; the error names the offending line. The canvas must be
/// at least as wide as the width limit, else a line below the limit could
/// not be centered.
pub fn layout_caption(lines: &Vec<CaptionLine>, canvas_width: u32, canvas_height: u32) -> (r:
    Result<Vec<PlacedLine>, Error>)
    requires
        canvas_width >= MAX_TEXT_WIDTH,
    ensures
        r is Ok <==> (forall|i: int|
            0 <= i < lines@.len() ==> line_fits(lines@, i, canvas_height as int)),
        r matches Ok(v) ==> v@.len() == lines@.len() && (forall|i: int|
            0 <= i < lines@.len() ==> v@[i] == placed_at(lines@, canvas_width as int, i)),
        r matches Err(e) ==> (exists|i: int|
            0 <= i < lines@.len() && !line_fits(lines@, i, canvas_height as int) && (forall|j: int|
                0 <= j < i ==> line_fits(lines@, j, canvas_height as int)) && (e matches
                Error::Validation { field, value } && value@ == lines@[i].text@ && field@ == (
            if lines@[i].width >= MAX_TEXT_WIDTH {
                "caption-width"@
            } else {
                "caption-height"@
            }))),
{
    let n = lines.len();
    let mut placed: Vec<PlacedLine> = Vec::new();
    let mut y: u32 = TEXT_TOP_OFFSET;
    let mut i: usize = 0;
    while i < n
        invariant
            i <= n,
            n == lines@.len(),
            canvas_width >= MAX_TEXT_WIDTH,
            placed@.len() == i,
            y as int == y_offset_spec(lines@, i as int),
            forall|j: int| 0 <= j < i ==> line_fits(lines@, j, canvas_height as int),
            forall|j: int| 0 <= j < i ==> placed@[j] == placed_at(lines@, canvas_width as int, j),
        decreases n - i,
    {
        let width = lines[i].width;
        let height = lines[i].height;
        if width >= MAX_TEXT_WIDTH {
            proof {
                assert(!line_fits(lines@, i as int, canvas_height as int));
            }
            return Err(
                Error::Validation {
                    field: String::from_str("caption-width"),
                    value: lines[i].text.clone(),
                },
            );
        }
        if (y as u64) + (height as u64) >= (canvas_height as u64) {
            proof {
                assert(!line_fits(lines@, i as int, canvas_height as int));
            }
            return Err(
                Error::Validation {
                    field: String::from_str("caption-height"),
                    value: lines[i].text.clone(),
                },
            );
        }
        let x = (canvas_width - width) / 2;
        let ghost prev = placed@;
        placed.push(PlacedLine { x, y });
        proof {
            assert(placed@ == prev.push(PlacedLine { x, y }));
            assert forall|j: int|
                0 <= j < i + 1 implies placed@[j] == placed_at(lines@, canvas_width as int, j) by {
                if j < i {
                    assert(placed@[j] == prev[j]);
                    assert(prev[j] == placed_at(lines@, canvas_width as int, j));
                } else {
                    assert(placed@[j] == (PlacedLine { x, y }));
                    assert(x as int == (canvas_width - lines@[i as int].width) as int / 2);
                }
            }
        }
        y = y + height;
        i += 1;
    }
    Ok(placed)
}

} // verus!
