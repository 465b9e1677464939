//! Turning the active emotes into pixels over the text they name.

use vstd::prelude::*;
use vstd::string::*;
use crate::bitmap::{resize_emote, Bitmap};
use crate::registry::ActiveEmote;
use crate::terminal::TerminalSnapshot;

verus! {

/// One pixel of output. The vertical axis has two pixels per terminal row.
#[derive(Clone, Copy, Debug, PartialEq, Eq)]
pub struct Pixel {
    /// Column and row on the pixel grid; `(0, 0)` is the top-left.
    pub coordinates: (u32, u32),
    /// Red, green and blue; the pixel is always opaque.
    pub color: (u8, u8, u8),
}

/// `image` can be scaled to `width` by `height`: the width is not zero, and
/// one allocation on this machine can hold the result and the filter's
/// working buffer.
pub open spec fn scalable(image: Bitmap, width: int, height: int) -> bool {
    &&& width > 0
    &&& 16 * (image.width as int) * height <= isize::MAX
    &&& 4 * width * height <= isize::MAX
}

/// How many rows of a raster whose top is at `top` fall above the grid.
pub open spec fn skip_of(top: int) -> int {
    if top < 0 { -top } else { 0 }
}

/// The pixels of a `width` by `height` RGBA raster whose top-left corner is
/// put at `(column, top)`, row by row; rows above the grid are left out.
pub open spec fn placed(rgba: Seq<u8>, width: int, height: int, column: int, top: int) -> Seq<Pixel> {
    let skip = skip_of(top);
    Seq::new(
        ((height - skip) * width) as nat,
        |i: int|
            {
                let y = skip + i / width;
                let x = i % width;
                let at = 4 * (y * width + x);
                Pixel {
                    coordinates: ((column + x) as u32, (top + y) as u32),
                    color: (rgba[at], rgba[at + 1], rgba[at + 2]),
                }
            },
    )
}

/// Where `pattern` first stands on the screen, if anywhere.
pub open spec fn match_of(snapshot: TerminalSnapshot, pattern: Seq<char>) -> Option<(int, int)> {
    if exists|column: int, row: int| snapshot.is_first_match(pattern, column, row) {
        let (column, row) = choose|column: int, row: int|
            snapshot.is_first_match(pattern, column, row);
        Some((column, row))
    } else {
        None
    }
}

/// Whether `added` is what one emote may draw in a frame: nothing where its
/// text is not on screen (or its image cannot be scaled); else some image of
/// the text's length by the terminal's row count, its left edge at the text's
/// column and its middle on the text's row. The scaled image's colours are
/// left open: the filter's floating-point rounding may differ between machines.
pub open spec fn draws(snapshot: TerminalSnapshot, emote: ActiveEmote, added: Seq<Pixel>) -> bool {
    match match_of(snapshot, emote.pattern@) {
        None => added.len() == 0,
        Some((column, row)) => draws_at(emote, snapshot.size.1 as int, column, row, added),
    }
}

/// Whether `added` is what `emote` may draw with its text found at
/// `(column, row)` on a terminal of `height` rows.
pub open spec fn draws_at(emote: ActiveEmote, height: int, column: int, row: int, added: Seq<Pixel>) -> bool {
    let width = emote.pattern@.len() as int;
    if scalable(emote.image, width, height) {
        exists|rgba: Seq<u8>|
            rgba.len() == 4 * width * height && added == #[trigger] placed(
                rgba,
                width,
                height,
                column,
                2 * row - height / 2,
            )
    } else {
        added.len() == 0
    }
}

/// There is at most one first match.
proof fn lemma_first_match_unique(
    snapshot: TerminalSnapshot,
    pattern: Seq<char>,
    c1: int,
    r1: int,
    c2: int,
    r2: int,
)
    requires
        snapshot.is_first_match(pattern, c1, r1),
        snapshot.is_first_match(pattern, c2, r2),
    ensures
        c1 == c2,
        r1 == r2,
{
    if r1 < r2 {
        assert(crate::terminal::occurs_in(snapshot.row_text(r1), pattern));
    } else if r2 < r1 {
        assert(crate::terminal::occurs_in(snapshot.row_text(r2), pattern));
    }
}

/// Appends to `output` the pixels that `emote` draws over `snapshot`.
pub fn render_emote(snapshot: &TerminalSnapshot, emote: &ActiveEmote, output: &mut Vec<Pixel>)
    requires
        emote.image.wf(),
    ensures
        final(output)@.len() >= old(output)@.len(),
        final(output)@.take(old(output)@.len() as int) == old(output)@,
        draws(
            *snapshot,
            *emote,
            final(output)@.skip(old(output)@.len() as int),
        ),
        !snapshot.shows(emote.pattern@) ==> final(output)@ == old(output)@,
        match match_of(*snapshot, emote.pattern@) {
            Some((column, row)) => {
                let width = emote.pattern@.len() as int;
                let height = snapshot.size.1 as int;
                scalable(emote.image, width, height) && 2 * row >= height / 2
                    ==> final(output)@.len() == old(output)@.len() + width * height
            },
            None => true,
        },
{
    let ghost start = output@;
    let found = snapshot.find_text_coordinates(emote.pattern.as_str());
    let (column, row) = match found {
        None => {
            assert forall|c: int, r: int| !snapshot.is_first_match(emote.pattern@, c, r) by {
                if snapshot.is_first_match(emote.pattern@, c, r) {
                    assert(crate::terminal::occurs_in(snapshot.row_text(r), emote.pattern@));
                }
            }
            assert(output@.take(start.len() as int) =~= start);
            assert(output@.skip(start.len() as int) =~= Seq::<Pixel>::empty());
            return ;
        },
        Some(m) => m,
    };
    proof {
        let (c, r) = choose|c: int, r: int| snapshot.is_first_match(emote.pattern@, c, r);
        lemma_first_match_unique(*snapshot, emote.pattern@, c, r, column as int, row as int);
        assert(snapshot.shows(emote.pattern@)) by {
            assert(crate::terminal::occurs_in(snapshot.row_text(row as int), emote.pattern@));
        }
    }
    let n = emote.pattern.as_str().unicode_len();
    assert(column + n <= snapshot.size.0) by {
        assert(snapshot.row_text(row as int).len() == snapshot.size.0);
    }
    let w = n as u32;
    let h = snapshot.size.1 as u32;
    assert(16 * (emote.image.width as int) * (h as int) <= 16 * 0xffff_ffff * 0xffff)
        by (nonlinear_arith)
        requires
            emote.image.width <= 0xffff_ffff,
            h <= 0xffff,
    ;
    assert(4 * (w as int) * (h as int) <= 4 * 0xffff * 0xffff) by (nonlinear_arith)
        requires
            w <= 0xffff,
            h <= 0xffff,
    ;
    let fits = w > 0 && 16 * (emote.image.width as u64) * (h as u64) <= isize::MAX as u64
        && 4 * (w as u64) * (h as u64) <= isize::MAX as u64;
    if !fits {
        assert(output@.take(start.len() as int) =~= start);
        assert(output@.skip(start.len() as int) =~= Seq::<Pixel>::empty());
        return ;
    }
    let resized = resize_emote(&emote.image, w, h);
    place_emote(&resized, column as u32, row as u32, output);
    proof {
        let width = emote.pattern@.len() as int;
        let height = snapshot.size.1 as int;
        assert(match_of(*snapshot, emote.pattern@) == Some((column as int, row as int)));
        assert(width == w && height == h);
        assert(scalable(emote.image, width, height));
        let added = placed(resized.rgba@, width, height, column as int, 2 * (row as int) - height / 2);
        assert(output@.take(start.len() as int) =~= start);
        assert(output@.skip(start.len() as int) =~= added);
        assert(resized.rgba@.len() == 4 * width * height);
        assert(exists|rgba: Seq<u8>|
            rgba.len() == 4 * width * height && added == #[trigger] placed(
                rgba,
                width,
                height,
                column as int,
                2 * (row as int) - height / 2,
            ));
        assert(draws_at(*emote, height, column as int, row as int, added));
        if 2 * row >= h / 2 {
            assert(added.len() == (h as int) * (w as int));
            assert((h as int) * (w as int) == (w as int) * (h as int)) by (nonlinear_arith);
        }
    }
}

/// Appends to `output` the pixels of `image` with its left edge at `column`
/// and its middle on terminal row `row`: its top is at twice `row` less half
/// its height, as the pixel grid has two rows for each terminal row. Rows that
/// fall above the grid are left out.
pub fn place_emote(image: &Bitmap, column: u32, row: u32, output: &mut Vec<Pixel>)
    requires
        image.wf(),
        image.height <= 0xffff,
        row <= 0xffff,
        column + image.width <= 0xffff,
    ensures
        final(output)@ == old(output)@ + placed(
            image.rgba@,
            image.width as int,
            image.height as int,
            column as int,
            2 * row - image.height / 2,
        ),
{
    let w = image.width;
    let h = image.height;
    let half = h / 2;
    let doubled = row * 2;
    let skip: u32 = if doubled >= half { 0 } else { half - doubled };
    let len: usize = image.rgba.len();
    let ghost start = output@;
    let ghost all = placed(image.rgba@, w as int, h as int, column as int, doubled - half);
    let mut y: u32 = skip;
    while y < h
        invariant
            skip <= y <= h,
            h <= 0xffff,
            w <= 0xffff,
            column + w <= 0xffff,
            doubled <= 2 * 0xffff,
            half == h / 2,
            skip == if doubled >= half { 0int } else { half - doubled },
            image.width == w,
            image.height == h,
            image.wf(),
            len == image.rgba@.len(),
            all == placed(image.rgba@, w as int, h as int, column as int, doubled - half),
            output@ == start + all.take(((y - skip) * w) as int),
        decreases h - y,
    {
        let mut x: u32 = 0;
        while x < w
            invariant
                skip <= y < h,
                h <= 0xffff,
                w <= 0xffff,
                column + w <= 0xffff,
                doubled <= 2 * 0xffff,
                half == h / 2,
                skip == if doubled >= half { 0int } else { half - doubled },
                image.width == w,
                image.height == h,
                image.wf(),
                len == image.rgba@.len(),
                all == placed(image.rgba@, w as int, h as int, column as int, doubled - half),
                x <= w,
                output@ == start + all.take(((y - skip) * w + x) as int),
            decreases w - x,
        {
            proof {
                lemma_placed_at(image.rgba@, w as int, h as int, column as int, doubled - half, x as int, y as int);
            }
            let at = (4 * ((y as u64) * (w as u64) + (x as u64))) as usize;
            let pixel = Pixel {
                coordinates: (column + x, doubled + y - half),
                color: (image.rgba[at], image.rgba[at + 1], image.rgba[at + 2]),
            };
            output.push(pixel);
            proof {
                let k = (y - skip) * w + x;
                assert(all.take(k + 1) =~= all.take(k).push(all[k]));
            }
            x = x + 1;
        }
        assert((y - skip) * w + w == (y + 1 - skip) * w) by (nonlinear_arith);
        y = y + 1;
    }
    assert(all.take(((h - skip) * w) as int) =~= all);
}

/// The pixel of `placed` for row `y` and column `x` of the raster.
proof fn lemma_placed_at(rgba: Seq<u8>, width: int, height: int, column: int, top: int, x: int, y: int)
    requires
        rgba.len() == 4 * width * height,
        0 <= x < width,
        0 <= y < height,
        top + y >= 0,
        -top <= height,
        width <= 0xffff,
        height <= 0xffff,
        0 <= column,
        column + width <= 0xffff,
        top <= 2 * 0xffff,
    ensures
        0 <= (y - skip_of(top)) * width + x < placed(rgba, width, height, column, top).len(),
        0 <= 4 * (y * width + x),
        4 * (y * width + x) + 2 < rgba.len(),
        4 * (y * width + x) <= 4 * 0xffff * 0xffff,
        placed(rgba, width, height, column, top)[(y - skip_of(top)) * width + x] == (Pixel {
            coordinates: ((column + x) as u32, (top + y) as u32),
            color: (rgba[4 * (y * width + x)], rgba[4 * (y * width + x) + 1], rgba[4 * (y * width + x) + 2]),
        }),
{
    let skip = skip_of(top);
    let k = (y - skip) * width + x;
    assert(0 <= (y - skip) * width) by (nonlinear_arith)
        requires y - skip >= 0, width >= 0;
    assert((y - skip) * width + width == (y - skip + 1) * width) by (nonlinear_arith);
    assert((y - skip + 1) * width <= (height - skip) * width) by (nonlinear_arith)
        requires y - skip + 1 <= height - skip, width >= 0;
    assert(y * width + x < width * height) by (nonlinear_arith)
        requires x < width, y < height, 0 <= x;
    assert(0 <= y * width) by (nonlinear_arith)
        requires y >= 0, width >= 0;
    assert(y * width + x <= 0xffff * 0xffff) by (nonlinear_arith)
        requires x < width, y < height, width <= 0xffff, height <= 0xffff, 0 <= x;
    assert(4 * width * height == 4 * (width * height)) by (nonlinear_arith);
    vstd::arithmetic::div_mod::lemma_fundamental_div_mod_converse(k, width, y - skip, x);
}

} // verus!
