//! Assembling the RGBA byte buffer of a frame.
//!
//! A grid of `width * height` logical pixels is magnified by an integer
//! factor: every logical pixel becomes a `scaling * scaling` block of one
//! colour. The buffer holds four bytes per output pixel (red, green, blue,
//! alpha), rows first, and alpha is always 255. Nothing is filtered or
//! blended: an output pixel shows the logical pixel it lies in.

use vstd::prelude::*;
use vstd::arithmetic::div_mod::lemma_fundamental_div_mod_converse;
use crate::error::ConfigError;
use crate::grid::lemma_cell_has_one_position;

verus! {

/// Number of bytes in the buffer of a magnified grid.
pub open spec fn frame_len(width: nat, height: nat, scaling: nat) -> nat {
    4 * (width * scaling) * (height * scaling)
}

/// Position, in a grid of `width` columns, of the logical pixel shown at
/// output pixel number `pixel`, counting output pixels row by row.
pub open spec fn source_of(width: int, scaling: int, pixel: int) -> int {
    let out_width = width * scaling;
    width * ((pixel / out_width) / scaling) + (pixel % out_width) / scaling
}

/// Byte `channel` of a pixel of colour `color`: red, green, blue, then the
/// opaque alpha.
pub open spec fn channel_of(color: (u8, u8, u8), channel: int) -> u8 {
    if channel == 0 {
        color.0
    } else if channel == 1 {
        color.1
    } else if channel == 2 {
        color.2
    } else {
        255
    }
}

/// The buffer of the grid `colors` magnified by `scaling`.
pub open spec fn frame_bytes(colors: Seq<(u8, u8, u8)>, width: nat, height: nat, scaling: nat) -> Seq<
    u8,
> {
    Seq::new(
        frame_len(width, height, scaling),
        |at: int| channel_of(colors[source_of(width as int, scaling as int, at / 4)], at % 4),
    )
}

/// `colors` holds one colour for each point, and each is a result of
/// `determine_color` for its point under the cap `max_iters`.
pub open spec fn is_coloring<P, F: Fn(&P, usize) -> (u8, u8, u8)>(
    colors: Seq<(u8, u8, u8)>,
    points: Seq<P>,
    max_iters: usize,
    determine_color: F,
) -> bool {
    &&& colors.len() == points.len()
    &&& forall|k: int|
        0 <= k < points.len() ==> determine_color.ensures((&points[k], max_iters), #[trigger] colors[k])
}

/// Every byte written so far is the one the finished buffer holds there.
spec fn painted(image: Seq<u8>, colors: Seq<(u8, u8, u8)>, width: int, scaling: int) -> bool {
    forall|at: int|
        0 <= at < image.len() ==> #[trigger] image[at] == channel_of(
            colors[source_of(width, scaling, at / 4)],
            at % 4,
        )
}

/// Output pixel number of the pixel at offset `(dx, dy)` inside the block
/// of logical pixel `(x, y)`.
pub open spec fn block_pixel(width: int, scaling: int, x: int, y: int, dx: int, dy: int) -> int {
    (y * scaling + dy) * (width * scaling) + (x * scaling + dx)
}

/// An output pixel inside the block of logical pixel `(x, y)` shows that
/// logical pixel.
pub proof fn lemma_block_shows_its_pixel(
    width: int,
    scaling: int,
    x: int,
    y: int,
    dx: int,
    dy: int,
)
    requires
        0 <= x < width,
        0 <= y,
        0 <= dx < scaling,
        0 <= dy < scaling,
    ensures
        0 <= block_pixel(width, scaling, x, y, dx, dy),
        source_of(width, scaling, block_pixel(width, scaling, x, y, dx, dy)) == width * y + x,
{
    let out_width = width * scaling;
    let out_row = y * scaling + dy;
    let out_col = x * scaling + dx;
    assert(0 <= out_col < out_width) by (nonlinear_arith)
        requires
            0 <= x < width,
            0 <= dx < scaling,
            out_col == x * scaling + dx,
            out_width == width * scaling,
    ;
    assert(0 <= out_row) by (nonlinear_arith)
        requires
            0 <= y,
            0 <= dy < scaling,
            out_row == y * scaling + dy,
    ;
    assert(0 <= out_row * out_width) by (nonlinear_arith)
        requires
            0 <= out_row,
            0 <= out_width,
    ;
    lemma_fundamental_div_mod_converse(
        block_pixel(width, scaling, x, y, dx, dy),
        out_width,
        out_row,
        out_col,
    );
    lemma_fundamental_div_mod_converse(out_row, scaling, y, dy);
    lemma_fundamental_div_mod_converse(out_col, scaling, x, dx);
}

/// Appending the four bytes of one output pixel keeps the buffer painted.
proof fn lemma_paint_pixel(
    before: Seq<u8>,
    after: Seq<u8>,
    colors: Seq<(u8, u8, u8)>,
    width: int,
    scaling: int,
    x: int,
    y: int,
    dx: int,
    dy: int,
)
    requires
        0 <= x < width,
        0 <= y,
        0 <= dx < scaling,
        0 <= dy < scaling,
        painted(before, colors, width, scaling),
        before.len() == 4 * block_pixel(width, scaling, x, y, dx, dy),
        after == before.push(colors[width * y + x].0).push(colors[width * y + x].1).push(
            colors[width * y + x].2,
        ).push(255u8),
    ensures
        painted(after, colors, width, scaling),
        after.len() == 4 * block_pixel(width, scaling, x, y, dx, dy) + 4,
{
    lemma_block_shows_its_pixel(width, scaling, x, y, dx, dy);
}

/// Magnifies a grid of colours into its RGBA buffer.
///
/// Returns `PointCountMismatch` when `colors` does not hold exactly
/// `width * height` colours.
pub fn magnify(colors: &Vec<(u8, u8, u8)>, width: usize, height: usize, scaling: usize) -> (r:
    Result<Vec<u8>, ConfigError>)
    ensures
        match r {
            Ok(image) => colors.len() == width * height && image@ == frame_bytes(
                colors@,
                width as nat,
                height as nat,
                scaling as nat,
            ),
            Err(e) => colors.len() != width * height && e == ConfigError::PointCountMismatch,
        },
{
    match width.checked_mul(height) {
        Some(cells) => {
            if cells != colors.len() {
                return Err(ConfigError::PointCountMismatch);
            }
        },
        None => {
            return Err(ConfigError::PointCountMismatch);
        },
    }
    let ghost w = width as int;
    let ghost s = scaling as int;
    let mut image: Vec<u8> = Vec::new();
    let mut y: usize = 0;
    proof {
        assert(block_pixel(w, s, 0, 0, 0, 0) == 0) by (nonlinear_arith);
    }
    while y < height
        invariant
            y <= height,
            w == width,
            s == scaling,
            colors.len() == width * height,
            image.len() == 4 * block_pixel(w, s, 0, y as int, 0, 0),
            painted(image@, colors@, w, s),
        decreases height - y,
    {
        let mut dy: usize = 0;
        while dy < scaling
            invariant
                y < height,
                dy <= scaling,
                w == width,
                s == scaling,
                colors.len() == width * height,
                image.len() == 4 * block_pixel(w, s, 0, y as int, 0, dy as int),
                painted(image@, colors@, w, s),
            decreases scaling - dy,
        {
            let mut x: usize = 0;
            while x < width
                invariant
                    y < height,
                    dy < scaling,
                    x <= width,
                    w == width,
                    s == scaling,
                    colors.len() == width * height,
                    image.len() == 4 * block_pixel(w, s, x as int, y as int, 0, dy as int),
                    painted(image@, colors@, w, s),
                decreases width - x,
            {
                proof {
                    lemma_cell_has_one_position(width as nat, height as nat, x as nat, y as nat);
                }
                let (red, green, blue) = colors[width * y + x];
                let mut dx: usize = 0;
                while dx < scaling
                    invariant
                        y < height,
                        dy < scaling,
                        x < width,
                        dx <= scaling,
                        w == width,
                        s == scaling,
                        0 <= w * y + x < colors.len(),
                        colors@[w * y + x] == (red, green, blue),
                        image.len() == 4 * block_pixel(w, s, x as int, y as int, dx as int, dy as int),
                        painted(image@, colors@, w, s),
                    decreases scaling - dx,
                {
                    let ghost before = image@;
                    image.push(red);
                    image.push(green);
                    image.push(blue);
                    image.push(255);
                    proof {
                        lemma_paint_pixel(
                            before,
                            image@,
                            colors@,
                            w,
                            s,
                            x as int,
                            y as int,
                            dx as int,
                            dy as int,
                        );
                    }
                    dx = dx + 1;
                }
                proof {
                    assert((x + 1) * s == x * s + s) by (nonlinear_arith);
                }
                x = x + 1;
            }
            proof {
                assert((y * s + (dy + 1)) * (w * s) == (y * s + dy) * (w * s) + w * s)
                    by (nonlinear_arith);
            }
            dy = dy + 1;
        }
        proof {
            assert((y + 1) * s == y * s + s) by (nonlinear_arith);
        }
        y = y + 1;
    }
    proof {
        assert(4 * block_pixel(w, s, 0, height as int, 0, 0) == frame_len(
            width as nat,
            height as nat,
            scaling as nat,
        )) by (nonlinear_arith)
            requires
                w == width,
                s == scaling,
        ;
    }
    Ok(image)
}

/// Colours every point and magnifies the coloured grid into its RGBA
/// buffer.
///
/// Each point is coloured once, so all output pixels of its block agree.
/// Returns `PointCountMismatch`, before any point is coloured, when
/// `points` does not hold exactly `width * height` points.
pub fn transform<P>(
    points: Vec<P>,
    max_iters: usize,
    width: usize,
    height: usize,
    scaling: usize,
    determine_color: impl Fn(&P, usize) -> (u8, u8, u8),
) -> (r: Result<Vec<u8>, ConfigError>)
    requires
        forall|k: int|
            0 <= k < points.len() ==> determine_color.requires((&#[trigger] points[k], max_iters)),
    ensures
        match r {
            Ok(image) => points.len() == width * height && exists|colors: Seq<(u8, u8, u8)>|
                #[trigger] is_coloring(colors, points@, max_iters, determine_color) && image@
                    == frame_bytes(colors, width as nat, height as nat, scaling as nat),
            Err(e) => points.len() != width * height && e == ConfigError::PointCountMismatch,
        },
{
    match width.checked_mul(height) {
        Some(cells) => {
            if cells != points.len() {
                return Err(ConfigError::PointCountMismatch);
            }
        },
        None => {
            return Err(ConfigError::PointCountMismatch);
        },
    }
    let mut colors: Vec<(u8, u8, u8)> = Vec::new();
    let mut k: usize = 0;
    while k < points.len()
        invariant
            k <= points.len(),
            colors.len() == k,
            forall|k: int|
                0 <= k < points.len() ==> determine_color.requires(
                    (&#[trigger] points[k], max_iters),
                ),
            forall|j: int|
                0 <= j < k ==> determine_color.ensures((&points[j], max_iters), #[trigger] colors[j]),
        decreases points.len() - k,
    {
        let color = determine_color(&points[k], max_iters);
        colors.push(color);
        k = k + 1;
    }
    assert(is_coloring(colors@, points@, max_iters, determine_color));
    magnify(&colors, width, height, scaling)
}

/// The buffer holds four bytes for each of `width * scaling` by `height *
/// scaling` output pixels.
pub proof fn lemma_frame_has_four_bytes_per_pixel(
    colors: Seq<(u8, u8, u8)>,
    width: nat,
    height: nat,
    scaling: nat,
)
    ensures
        frame_bytes(colors, width, height, scaling).len() == 4 * (width * scaling) * (height
            * scaling),
{
}

/// Every logical pixel fills a solid block: each output pixel at an offset
/// `(dx, dy)` below `scaling` inside the block of logical pixel `(x, y)`
/// carries that pixel's red, green and blue, and alpha 255.
pub proof fn lemma_block_is_solid(
    colors: Seq<(u8, u8, u8)>,
    width: nat,
    height: nat,
    scaling: nat,
    x: nat,
    y: nat,
    dx: nat,
    dy: nat,
)
    requires
        colors.len() == width * height,
        x < width,
        y < height,
        dx < scaling,
        dy < scaling,
    ensures
        ({
            let image = frame_bytes(colors, width, height, scaling);
            let first = 4 * block_pixel(
                width as int,
                scaling as int,
                x as int,
                y as int,
                dx as int,
                dy as int,
            );
            let color = colors[(width * y + x) as int];
            &&& 0 <= first
            &&& first + 3 < image.len()
            &&& image[first] == color.0
            &&& image[first + 1] == color.1
            &&& image[first + 2] == color.2
            &&& image[first + 3] == 255
        }),
{
    let w = width as int;
    let s = scaling as int;
    let pixel = block_pixel(w, s, x as int, y as int, dx as int, dy as int);
    lemma_block_shows_its_pixel(w, s, x as int, y as int, dx as int, dy as int);
    assert(4 * pixel + 3 < frame_len(width, height, scaling)) by (nonlinear_arith)
        requires
            pixel == (y * s + dy) * (w * s) + (x * s + dx),
            w == width,
            s == scaling,
            x < width,
            y < height,
            dx < scaling,
            dy < scaling,
    ;
}

} // verus!
