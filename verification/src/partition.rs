//! Cutting a frame into horizontal bands.
//!
//! A frame of `height` pixels is first descaled (divided by the pixel
//! replication factor) into logical rows, and the rows are then dealt out to
//! `part_count` bands of equal height. Rows that do not divide evenly form
//! one extra band, addressed by the index `part_count` itself. Bands are cut
//! along the imaginary axis only: every band keeps the full width, and its
//! range on the imaginary axis is the share of the plane that its rows are
//! of the frame.

use vstd::prelude::*;
use vstd::arithmetic::div_mod::lemma_fundamental_div_mod;
use vstd::arithmetic::mul::lemma_mul_inequality;
use crate::error::ConfigError;

verus! {

/// Pixel dimensions of the full output image.
#[derive(Clone, Copy, Debug, PartialEq, Eq, Structural)]
pub struct Resolution {
    pub width: usize,
    pub height: usize,
}

impl Resolution {
    /// A resolution of `width` by `height` pixels.
    pub fn new(width: usize, height: usize) -> (res: Self)
        ensures
            res.width == width,
            res.height == height,
    {
        Self { width, height }
    }
}

/// Number of bands that `rows` logical rows fall into: `part_count` even
/// bands, and one more when rows are left over.
pub open spec fn band_count(rows: nat, part_count: nat) -> nat {
    if rows % part_count != 0 {
        part_count + 1
    } else {
        part_count
    }
}

/// Height in logical rows of band `part`.
pub open spec fn band_height(rows: nat, part_count: nat, part: nat) -> nat {
    if rows % part_count != 0 && part == part_count {
        rows % part_count
    } else {
        rows / part_count
    }
}

/// First logical row of band `part`.
pub open spec fn band_start(rows: nat, part_count: nat, part: nat) -> nat {
    part * (rows / part_count)
}

/// The logical rows that one band covers, out of `total` rows of the frame.
///
/// The band's share of the imaginary axis is `height / total` of the plane,
/// beginning `start / total` of the way in.
#[derive(Clone, Copy, Debug, PartialEq, Eq, Structural)]
pub struct BandRows {
    pub start: usize,
    pub height: usize,
    pub total: usize,
}

/// A rectangle of the complex plane. `T` is the type of a coordinate.
#[derive(Debug, PartialEq, Eq)]
pub struct ComplexPlaneRange<T> {
    pub start_im: T,
    pub end_im: T,
    pub start_re: T,
    pub end_re: T,
}

impl<T> ComplexPlaneRange<T> {
    /// The rectangle between `start_re` and `end_re` on the real axis and
    /// between `start_im` and `end_im` on the imaginary axis.
    pub fn new(start_re: T, end_re: T, start_im: T, end_im: T) -> (plane: Self)
        ensures
            plane.start_re == start_re,
            plane.end_re == end_re,
            plane.start_im == start_im,
            plane.end_im == end_im,
    {
        ComplexPlaneRange { start_im, end_im, start_re, end_re }
    }
}

/// One band of a frame: the frame's resolution and the rectangle of the
/// plane it shows, the pixel replication factor, which band out of how
/// many, and the iteration cap.
#[derive(Debug, PartialEq, Eq)]
pub struct FramePartConfig<T> {
    pub res: Resolution,
    pub plane: ComplexPlaneRange<T>,
    pub scaling: usize,
    pub part_num: usize,
    pub part_count: usize,
    pub max_iters: usize,
}

impl<T> FramePartConfig<T> {
    /// Band `part_num` out of `part_count` of a frame.
    pub fn new(
        res: Resolution,
        plane: ComplexPlaneRange<T>,
        scaling: usize,
        part_num: usize,
        part_count: usize,
        max_iters: usize,
    ) -> (config: Self)
        ensures
            config.res == res,
            config.plane == plane,
            config.scaling == scaling,
            config.part_num == part_num,
            config.part_count == part_count,
            config.max_iters == max_iters,
    {
        Self { res, plane, scaling, part_num, part_count, max_iters }
    }

    /// The width is a whole number of replicated pixels.
    pub open spec fn width_fits(&self) -> bool {
        self.res.width as int % self.scaling as int == 0
    }

    /// The height is a whole number of replicated pixels.
    pub open spec fn height_fits(&self) -> bool {
        self.res.height as int % self.scaling as int == 0
    }

    /// Logical columns of the frame.
    pub open spec fn columns(&self) -> nat {
        (self.res.width as int / self.scaling as int) as nat
    }

    /// Logical rows of the whole frame.
    pub open spec fn rows(&self) -> nat {
        (self.res.height as int / self.scaling as int) as nat
    }

    /// Logical rows of this band.
    pub open spec fn band_rows(&self) -> nat {
        band_height(self.rows(), self.part_count as nat, self.part_num as nat)
    }

    /// Width of the frame in logical columns, or `WidthNotDivisible` when
    /// the width is not a multiple of the scaling factor.
    pub fn descaled_width(&self) -> (r: Result<usize, ConfigError>)
        requires
            self.scaling > 0,
        ensures
            match r {
                Ok(w) => self.width_fits() && w == self.columns(),
                Err(e) => !self.width_fits() && e == ConfigError::WidthNotDivisible,
            },
    {
        if self.res.width % self.scaling != 0 {
            return Err(ConfigError::WidthNotDivisible);
        }
        Ok(self.res.width / self.scaling)
    }

    /// Height of the frame in logical rows, or `HeightNotDivisible` when
    /// the height is not a multiple of the scaling factor.
    pub fn descaled_height(&self) -> (r: Result<usize, ConfigError>)
        requires
            self.scaling > 0,
        ensures
            match r {
                Ok(h) => self.height_fits() && h == self.rows(),
                Err(e) => !self.height_fits() && e == ConfigError::HeightNotDivisible,
            },
    {
        if self.res.height % self.scaling != 0 {
            return Err(ConfigError::HeightNotDivisible);
        }
        Ok(self.res.height / self.scaling)
    }

    /// Rows of every even band.
    pub fn height_split(&self) -> (r: Result<usize, ConfigError>)
        requires
            self.scaling > 0,
            self.part_count > 0,
        ensures
            match r {
                Ok(split) => self.height_fits() && split == self.rows() / self.part_count as nat,
                Err(e) => !self.height_fits() && e == ConfigError::HeightNotDivisible,
            },
    {
        match self.descaled_height() {
            Ok(rows) => Ok(rows / self.part_count),
            Err(e) => Err(e),
        }
    }

    /// Rows that remain after the even bands.
    pub fn height_leftover(&self) -> (r: Result<usize, ConfigError>)
        requires
            self.scaling > 0,
            self.part_count > 0,
        ensures
            match r {
                Ok(left) => self.height_fits() && left == self.rows() % self.part_count as nat,
                Err(e) => !self.height_fits() && e == ConfigError::HeightNotDivisible,
            },
    {
        match self.descaled_height() {
            Ok(rows) => Ok(rows % self.part_count),
            Err(e) => Err(e),
        }
    }

    /// Whether this is the trailing band that takes the leftover rows: rows
    /// are left over and the band index equals the band count.
    pub fn is_last_leftover(&self) -> (r: Result<bool, ConfigError>)
        requires
            self.scaling > 0,
            self.part_count > 0,
        ensures
            match r {
                Ok(last) => self.height_fits() && last == (self.rows() % self.part_count as nat
                    != 0 && self.part_num == self.part_count),
                Err(e) => !self.height_fits() && e == ConfigError::HeightNotDivisible,
            },
    {
        match self.height_leftover() {
            Ok(left) => Ok(left != 0 && self.part_num == self.part_count),
            Err(e) => Err(e),
        }
    }

    /// Rows of this band: the leftover for the trailing band, the even
    /// share for every other.
    pub fn frame_height(&self) -> (r: Result<usize, ConfigError>)
        requires
            self.scaling > 0,
            self.part_count > 0,
        ensures
            match r {
                Ok(h) => self.height_fits() && h == self.band_rows(),
                Err(e) => !self.height_fits() && e == ConfigError::HeightNotDivisible,
            },
    {
        match self.is_last_leftover() {
            Ok(true) => self.height_leftover(),
            Ok(false) => self.height_split(),
            Err(e) => Err(e),
        }
    }

    /// The rows of this band, as the result of `frame_rows` gives them.
    pub open spec fn spec_frame_rows(&self) -> BandRows {
        BandRows {
            start: band_start(self.rows(), self.part_count as nat, self.part_num as nat) as usize,
            height: self.band_rows() as usize,
            total: self.rows() as usize,
        }
    }

    /// The rows this band covers within the frame, from which its range on
    /// the imaginary axis follows in proportion.
    pub fn frame_rows(&self) -> (r: Result<BandRows, ConfigError>)
        requires
            self.scaling > 0,
            self.part_count > 0,
            self.part_num <= self.part_count,
        ensures
            match r {
                Ok(band) => self.height_fits() && band == self.spec_frame_rows(),
                Err(e) => !self.height_fits() && e == ConfigError::HeightNotDivisible,
            },
    {
        let total = match self.descaled_height() {
            Ok(rows) => rows,
            Err(e) => {
                return Err(e);
            },
        };
        let height = match self.frame_height() {
            Ok(h) => h,
            Err(e) => {
                return Err(e);
            },
        };
        let split = total / self.part_count;
        proof {
            lemma_even_bands_fit(total as nat, self.part_count as nat, self.part_num as nat);
        }
        Ok(BandRows { start: self.part_num * split, height, total })
    }
}

impl<T: Copy> FramePartConfig<T> {
    /// The rectangle of the plane that this band shows.
    ///
    /// The bounds on the real axis are those of the frame. The bounds on
    /// the imaginary axis are what `sub_range` makes of the frame's bounds
    /// on that axis and the rows of the band. It is meant to let the band
    /// begin `start / total` of the way into the frame's range and span
    /// `height / total` of it.
    pub fn frame_complex_plane(
        &self,
        sub_range: impl Fn(T, T, BandRows) -> (T, T),
    ) -> (r: Result<ComplexPlaneRange<T>, ConfigError>)
        requires
            self.scaling > 0,
            self.part_count > 0,
            self.part_num <= self.part_count,
            forall|rows: BandRows| sub_range.requires((self.plane.start_im, self.plane.end_im, rows)),
        ensures
            match r {
                Ok(band) => {
                    &&& self.height_fits()
                    &&& band.start_re == self.plane.start_re
                    &&& band.end_re == self.plane.end_re
                    &&& sub_range.ensures(
                        (self.plane.start_im, self.plane.end_im, self.spec_frame_rows()),
                        (band.start_im, band.end_im),
                    )
                },
                Err(e) => !self.height_fits() && e == ConfigError::HeightNotDivisible,
            },
    {
        let rows = match self.frame_rows() {
            Ok(rows) => rows,
            Err(e) => {
                return Err(e);
            },
        };
        let (start_im, end_im) = sub_range(self.plane.start_im, self.plane.end_im, rows);
        Ok(
            ComplexPlaneRange {
                start_im,
                end_im,
                start_re: self.plane.start_re,
                end_re: self.plane.end_re,
            },
        )
    }
}

/// The even bands up to index `part` end within the frame.
proof fn lemma_even_bands_fit(rows: nat, part_count: nat, part: nat)
    requires
        part_count > 0,
        part <= part_count,
    ensures
        part * (rows / part_count) <= part_count * (rows / part_count) <= rows,
{
    let split = (rows / part_count) as int;
    lemma_fundamental_div_mod(rows as int, part_count as int);
    lemma_mul_inequality(part as int, part_count as int, split);
}

/// Band 0 starts at the first row, and each band ends where the next one
/// starts: consecutive bands leave no gap and do not overlap.
pub proof fn lemma_bands_are_contiguous(rows: nat, part_count: nat, part: nat)
    requires
        part_count > 0,
        part + 1 < band_count(rows, part_count),
    ensures
        band_start(rows, part_count, 0) == 0,
        band_start(rows, part_count, part) + band_height(rows, part_count, part) == band_start(
            rows,
            part_count,
            part + 1,
        ),
{
    let split = rows / part_count;
    assert((part + 1) * split == part * split + split) by (nonlinear_arith);
}

/// The last band ends at the last row: stacked in index order, the bands
/// make up the whole frame.
pub proof fn lemma_bands_cover_all_rows(rows: nat, part_count: nat)
    requires
        part_count > 0,
    ensures
        band_count(rows, part_count) >= 1,
        ({
            let last = (band_count(rows, part_count) - 1) as nat;
            band_start(rows, part_count, last) + band_height(rows, part_count, last) == rows
        }),
{
    let split = rows / part_count;
    lemma_fundamental_div_mod(rows as int, part_count as int);
    if rows % part_count == 0 {
        assert((part_count - 1) * split + split == part_count * split) by (nonlinear_arith);
    }
}

/// No band is taller than the frame, and none reaches past its end.
pub proof fn lemma_band_within_frame(rows: nat, part_count: nat, part: nat)
    requires
        part_count > 0,
        part < band_count(rows, part_count),
    ensures
        band_start(rows, part_count, part) + band_height(rows, part_count, part) <= rows,
{
    let split = rows / part_count;
    lemma_fundamental_div_mod(rows as int, part_count as int);
    if part < part_count {
        lemma_mul_inequality(part as int + 1, part_count as int, split as int);
        assert((part + 1) * split == part * split + split) by (nonlinear_arith);
    }
}

} // verus!
