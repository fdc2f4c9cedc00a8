//! Rendering one band of a frame.
//!
//! The band's rectangle of the plane is cut out of the frame's. Its grid is
//! as wide as the descaled frame and as tall as the band. The grid is
//! walked point by point, every point is coloured, and the coloured grid is
//! magnified by the scaling factor into the band's RGBA buffer. Bands are
//! independent of one another: stacking their buffers in index order gives
//! the full frame.

use vstd::prelude::*;
use crate::error::ConfigError;
use crate::frame::{frame_bytes, frame_len, is_coloring, transform};
use crate::grid::{generate, grid_index, is_grid_walk, lemma_position_has_one_cell, FractalConfig};
use crate::partition::{BandRows, FramePartConfig};

verus! {

impl<T> FramePartConfig<T> {
    /// The grid of this band over a range `(start_im, end_im)` of the
    /// imaginary axis: the frame's bounds on the real axis, the frame's
    /// columns, the band's rows and the configured iteration cap.
    pub open spec fn grid_over(self, im_range: (T, T)) -> FractalConfig<T> {
        FractalConfig {
            start_re: self.plane.start_re,
            end_re: self.plane.end_re,
            re_steps: self.columns() as usize,
            start_im: im_range.0,
            end_im: im_range.1,
            im_steps: self.band_rows() as usize,
            max_iters: self.max_iters,
        }
    }
}

/// `image` is the buffer of the band that `config` describes: for some
/// range that `sub_range` makes of the band's rows, some walk by
/// `convergence` of the band's grid over that range, coloured point by
/// point by `determine_color` under the configured iteration cap, and
/// magnified by the scaling factor.
pub open spec fn is_frame_part<
    T,
    P,
    S: Fn(T, T, BandRows) -> (T, T),
    F: Fn(&FractalConfig<T>, usize, usize) -> P,
    C: Fn(&P, usize) -> (u8, u8, u8),
>(
    image: Seq<u8>,
    config: FramePartConfig<T>,
    sub_range: S,
    convergence: F,
    determine_color: C,
) -> bool {
    exists|im_range: (T, T), points: Seq<P>, colors: Seq<(u8, u8, u8)>|
        {
            &&& #[trigger] sub_range.ensures(
                (config.plane.start_im, config.plane.end_im, config.spec_frame_rows()),
                im_range,
            )
            &&& #[trigger] is_grid_walk(points, config.grid_over(im_range), convergence)
            &&& #[trigger] is_coloring(colors, points, config.max_iters, determine_color)
            &&& image == frame_bytes(
                colors,
                config.columns(),
                config.band_rows(),
                config.scaling as nat,
            )
        }
}

/// Renders the band that `config` describes.
///
/// The height is checked first: a height that is no multiple of the
/// scaling factor gives `HeightNotDivisible`, then a width that is none
/// gives `WidthNotDivisible`, and in both cases nothing is evaluated.
/// Otherwise the buffer of the band is returned, four bytes for each of
/// its `columns * scaling` by `band_rows * scaling` pixels.
///
/// `sub_range` cuts the band's range out of the frame's range on the
/// imaginary axis, `convergence` evaluates a cell of a grid, and
/// `determine_color` colours a point under an iteration cap.
pub fn generate_frame_part<T: Copy, P>(
    config: &FramePartConfig<T>,
    sub_range: impl Fn(T, T, BandRows) -> (T, T),
    convergence: impl Fn(&FractalConfig<T>, usize, usize) -> P,
    determine_color: impl Fn(&P, usize) -> (u8, u8, u8),
) -> (r: Result<Vec<u8>, ConfigError>)
    requires
        config.scaling > 0,
        config.part_count > 0,
        config.part_num <= config.part_count,
        forall|rows: BandRows|
            sub_range.requires((config.plane.start_im, config.plane.end_im, rows)),
        forall|conf: FractalConfig<T>, col: usize, row: usize|
            col < conf.re_steps && row < conf.im_steps ==> convergence.requires((&conf, col, row)),
        forall|conf: FractalConfig<T>, col: usize, row: usize, point: P|
            convergence.ensures((&conf, col, row), point) ==> determine_color.requires(
                (&point, config.max_iters),
            ),
    ensures
        match r {
            Ok(image) => {
                &&& config.height_fits()
                &&& config.width_fits()
                &&& image.len() == frame_len(
                    config.columns(),
                    config.band_rows(),
                    config.scaling as nat,
                )
                &&& is_frame_part(image@, *config, sub_range, convergence, determine_color)
            },
            Err(e) => if config.height_fits() {
                !config.width_fits() && e == ConfigError::WidthNotDivisible
            } else {
                e == ConfigError::HeightNotDivisible
            },
        },
{
    let im_steps = match config.frame_height() {
        Ok(rows) => rows,
        Err(e) => {
            return Err(e);
        },
    };
    let re_steps = match config.descaled_width() {
        Ok(columns) => columns,
        Err(e) => {
            return Err(e);
        },
    };
    let frame_plane = match config.frame_complex_plane(sub_range) {
        Ok(plane) => plane,
        Err(e) => {
            return Err(e);
        },
    };
    let f_conf = FractalConfig {
        start_re: frame_plane.start_re,
        end_re: frame_plane.end_re,
        re_steps,
        start_im: frame_plane.start_im,
        end_im: frame_plane.end_im,
        im_steps,
        max_iters: config.max_iters,
    };
    let points = generate(&f_conf, convergence);
    let ghost walk = points@;
    proof {
        assert forall|k: int| 0 <= k < walk.len() implies determine_color.requires(
            (&#[trigger] walk[k], config.max_iters),
        ) by {
            lemma_position_has_one_cell(re_steps as nat, im_steps as nat, k as nat);
            let col = (k % re_steps as int) as usize;
            let row = (k / re_steps as int) as usize;
            assert(convergence.ensures(
                (&f_conf, col, row),
                walk[grid_index(re_steps as int, col as int, row as int)],
            ));
        }
    }
    let r = transform(points, f_conf.max_iters, re_steps, im_steps, config.scaling, determine_color);
    proof {
        match &r {
            Ok(image) => {
                let colors = choose|colors: Seq<(u8, u8, u8)>|
                    #[trigger] is_coloring(colors, walk, config.max_iters, determine_color)
                        && image@ == frame_bytes(
                        colors,
                        re_steps as nat,
                        im_steps as nat,
                        config.scaling as nat,
                    );
                let im_range = (frame_plane.start_im, frame_plane.end_im);
                assert(sub_range.ensures(
                    (config.plane.start_im, config.plane.end_im, config.spec_frame_rows()),
                    im_range,
                ));
                assert(is_grid_walk(walk, config.grid_over(im_range), convergence));
                assert(is_coloring(colors, walk, config.max_iters, determine_color));
            },
            Err(_) => {},
        }
    }
    r
}

} // verus!
