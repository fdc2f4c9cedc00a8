//! Choosing the colour rule for an iteration count.
//!
//! A point that ran to the iteration cap lies inside the set and is black.
//! Any other point takes the base colour with one of its three HSV channels
//! scaled by `4 * iterations / 1000`. The smooth strategy blends the base
//! strategy's colours at the two whole iteration counts around the point's
//! renormalised count, and leaves points at or beyond the cap to the base
//! strategy. The channel arithmetic is the caller's: this module decides
//! which rule applies and with which integers.

use vstd::prelude::*;
use vstd::arithmetic::div_mod::lemma_small_mod;
use crate::escape::FractalPoint;

verus! {

/// The HSV channel that the iteration count modulates.
#[derive(Clone, Copy, Debug, PartialEq, Eq, Structural)]
pub enum HsvTransMode {
    Hue,
    Saturation,
    Value,
}

/// The channel selection as the host states it.
#[derive(Clone, Copy, Debug, PartialEq, Eq, Structural)]
pub enum ColorTransMode {
    Hue,
    Saturation,
    Value,
}

impl ColorTransMode {
    /// The channel this selection stands for.
    pub open spec fn spec_adapt(self) -> HsvTransMode {
        match self {
            ColorTransMode::Hue => HsvTransMode::Hue,
            ColorTransMode::Saturation => HsvTransMode::Saturation,
            ColorTransMode::Value => HsvTransMode::Value,
        }
    }

    /// The channel this selection stands for.
    pub fn adapt(&self) -> (mode: HsvTransMode)
        ensures
            mode == self.spec_adapt(),
    {
        match self {
            ColorTransMode::Hue => HsvTransMode::Hue,
            ColorTransMode::Saturation => HsvTransMode::Saturation,
            ColorTransMode::Value => HsvTransMode::Value,
        }
    }
}

/// How the HSV colour of a point is made from the base colour.
#[derive(Clone, Copy, Debug, PartialEq, Eq, Structural)]
pub enum HsvRecipe {
    /// The colour of points inside the set.
    Black,
    /// The base colour with `channel` multiplied by `numerator / 1000`; the
    /// other two channels keep their base values.
    Scaled { channel: HsvTransMode, numerator: usize },
}

/// Four times the iteration count, as a machine word holds it.
pub open spec fn modifier_numerator(iterations: usize) -> usize {
    ((4 * iterations) % (usize::MAX + 1)) as usize
}

/// The recipe of the channel-based strategy for a point: black at the cap,
/// otherwise the selected channel scaled by four times the count.
pub open spec fn recipe_of(mode: HsvTransMode, iterations: usize, max_iters: usize) -> HsvRecipe {
    if iterations == max_iters {
        HsvRecipe::Black
    } else {
        HsvRecipe::Scaled { channel: mode, numerator: modifier_numerator(iterations) }
    }
}

/// The recipe of the channel-based strategy for a point with the given
/// iteration count.
pub fn hsv_recipe(mode: HsvTransMode, iterations: usize, max_iters: usize) -> (recipe: HsvRecipe)
    ensures
        recipe == recipe_of(mode, iterations, max_iters),
{
    if iterations == max_iters {
        HsvRecipe::Black
    } else {
        HsvRecipe::Scaled { channel: mode, numerator: iterations.wrapping_mul(4) }
    }
}

impl HsvRecipe {
    /// `hsv` is a colour made by this recipe from the base colour `base`:
    /// `black` for the black recipe, otherwise `base` with the selected
    /// channel replaced by a result of `scale` for the numerator and that
    /// channel, and the other two channels untouched.
    pub open spec fn makes<T, F: Fn(usize, T) -> T>(
        self,
        hsv: (T, T, T),
        base: (T, T, T),
        black: (T, T, T),
        scale: F,
    ) -> bool {
        match self {
            HsvRecipe::Black => hsv == black,
            HsvRecipe::Scaled { channel: HsvTransMode::Hue, numerator } => {
                &&& scale.ensures((numerator, base.0), hsv.0)
                &&& hsv.1 == base.1
                &&& hsv.2 == base.2
            },
            HsvRecipe::Scaled { channel: HsvTransMode::Saturation, numerator } => {
                &&& hsv.0 == base.0
                &&& scale.ensures((numerator, base.1), hsv.1)
                &&& hsv.2 == base.2
            },
            HsvRecipe::Scaled { channel: HsvTransMode::Value, numerator } => {
                &&& hsv.0 == base.0
                &&& hsv.1 == base.1
                &&& scale.ensures((numerator, base.2), hsv.2)
            },
        }
    }

    /// Makes the colour of this recipe from the base colour.
    ///
    /// `scale` multiplies a channel by `numerator / 1000`, and `black` is
    /// the colour of points inside the set.
    pub fn apply<T>(
        self,
        base: (T, T, T),
        black: (T, T, T),
        scale: impl Fn(usize, T) -> T,
    ) -> (hsv: (T, T, T))
        requires
            forall|numerator: usize, channel: T| scale.requires((numerator, channel)),
        ensures
            self.makes(hsv, base, black, scale),
    {
        let (hue, saturation, value) = base;
        match self {
            HsvRecipe::Black => black,
            HsvRecipe::Scaled { channel: HsvTransMode::Hue, numerator } => (
                scale(numerator, hue),
                saturation,
                value,
            ),
            HsvRecipe::Scaled { channel: HsvTransMode::Saturation, numerator } => (
                hue,
                scale(numerator, saturation),
                value,
            ),
            HsvRecipe::Scaled { channel: HsvTransMode::Value, numerator } => (
                hue,
                saturation,
                scale(numerator, value),
            ),
        }
    }
}

/// `color` is a colour of the smooth strategy for `point`.
///
/// At or beyond the cap it is a colour of the base strategy for the point
/// itself. Below the cap it is an interpolation, by the fractional part of
/// the point's renormalised iteration count, between the base strategy's
/// colours of two synthetic points: both share the state of `point`, one
/// has the whole part of the renormalised count as its iteration count and
/// the other the count after it.
pub open spec fn is_smooth_color<
    T,
    C,
    W,
    B: Fn(&FractalPoint<T>, usize) -> C,
    R: Fn(&FractalPoint<T>) -> (usize, W),
    I: Fn(C, C, W) -> C,
>(
    color: C,
    point: FractalPoint<T>,
    max_iters: usize,
    base: B,
    renormalize: R,
    interpolate: I,
) -> bool {
    if point.iterations >= max_iters {
        base.ensures((&point, max_iters), color)
    } else {
        exists|floor: usize, weight: W, low: C, high: C|
            {
                &&& #[trigger] renormalize.ensures((&point,), (floor, weight))
                &&& #[trigger] base.ensures((&point.resampled(floor), max_iters), low)
                &&& base.ensures((&point.resampled((floor + 1) as usize), max_iters), high)
                &&& #[trigger] interpolate.ensures((low, high, weight), color)
            }
    }
}

/// The smooth strategy, as a decorator over any base strategy.
///
/// `base` colours a point under an iteration cap. `renormalize` gives the
/// renormalised iteration count of a point as its whole part and its
/// fractional part; it is asked only below the cap. `interpolate` blends
/// two colours by a fractional weight.
pub fn smooth_color<T: Copy, C, W>(
    point: &FractalPoint<T>,
    max_iters: usize,
    base: impl Fn(&FractalPoint<T>, usize) -> C,
    renormalize: impl Fn(&FractalPoint<T>) -> (usize, W),
    interpolate: impl Fn(C, C, W) -> C,
) -> (color: C)
    requires
        forall|any: FractalPoint<T>| base.requires((&any, max_iters)),
        point.iterations < max_iters ==> renormalize.requires((point,)),
        forall|floor: usize, weight: W|
            renormalize.ensures((point,), (floor, weight)) ==> floor < usize::MAX,
        forall|low: C, high: C, weight: W| interpolate.requires((low, high, weight)),
    ensures
        is_smooth_color(color, *point, max_iters, base, renormalize, interpolate),
{
    if point.iterations >= max_iters {
        return base(point, max_iters);
    }
    let (floor, weight) = renormalize(point);
    let low = base(&FractalPoint { iterations: floor, re: point.re, im: point.im }, max_iters);
    let high = base(&FractalPoint { iterations: floor + 1, re: point.re, im: point.im }, max_iters);
    let color = interpolate(low, high, weight);
    proof {
        assert(base.ensures((&point.resampled(floor), max_iters), low));
        assert(base.ensures((&point.resampled((floor + 1) as usize), max_iters), high));
    }
    color
}

/// The colour settings of a frame: the base colour in hue, saturation and
/// value, the channel that the iteration count modulates, and whether the
/// colours are smoothed. `H` is the type of a channel.
#[derive(Debug, PartialEq, Eq)]
pub struct ColorConfig<H> {
    pub h_base: H,
    pub s_base: H,
    pub v_base: H,
    pub mode: ColorTransMode,
    pub smooth: bool,
}

impl<H: Copy> ColorConfig<H> {
    /// Settings with the base colour `(h_base, s_base, v_base)`.
    pub fn new(h_base: H, s_base: H, v_base: H, mode: ColorTransMode, smooth: bool) -> (config:
        Self)
        ensures
            config.h_base == h_base,
            config.s_base == s_base,
            config.v_base == v_base,
            config.mode == mode,
            config.smooth == smooth,
    {
        Self { h_base, s_base, v_base, mode, smooth }
    }

    /// The base colour.
    pub open spec fn base(self) -> (H, H, H) {
        (self.h_base, self.s_base, self.v_base)
    }

    /// `hsv` is a colour of the channel-based strategy, under these
    /// settings, for a point with the given iteration count.
    pub open spec fn makes_plain<F: Fn(usize, H) -> H>(
        self,
        hsv: (H, H, H),
        iterations: usize,
        max_iters: usize,
        black: (H, H, H),
        scale: F,
    ) -> bool {
        recipe_of(self.mode.spec_adapt(), iterations, max_iters).makes(
            hsv,
            self.base(),
            black,
            scale,
        )
    }

    /// `hsv` is a colour of `point` under these settings: one of the
    /// channel-based strategy, or, where the colours are smoothed, one of
    /// the smooth strategy over the channel-based one.
    pub open spec fn makes<
        T,
        W,
        F: Fn(usize, H) -> H,
        R: Fn(&FractalPoint<T>) -> (usize, W),
        I: Fn((H, H, H), (H, H, H), W) -> (H, H, H),
    >(
        self,
        hsv: (H, H, H),
        point: FractalPoint<T>,
        max_iters: usize,
        black: (H, H, H),
        scale: F,
        renormalize: R,
        interpolate: I,
    ) -> bool {
        if !self.smooth || point.iterations >= max_iters {
            self.makes_plain(hsv, point.iterations, max_iters, black, scale)
        } else {
            exists|floor: usize, weight: W, low: (H, H, H), high: (H, H, H)|
                {
                    &&& #[trigger] renormalize.ensures((&point,), (floor, weight))
                    &&& self.makes_plain(low, floor, max_iters, black, scale)
                    &&& self.makes_plain(high, (floor + 1) as usize, max_iters, black, scale)
                    &&& #[trigger] interpolate.ensures((low, high, weight), hsv)
                }
        }
    }

    /// The HSV colour of `point` under these settings.
    ///
    /// `black` is the colour of points inside the set and `scale`
    /// multiplies a channel by `numerator / 1000`. `renormalize` and
    /// `interpolate` serve the smooth strategy and are not asked otherwise.
    pub fn determine_color_hsv<T: Copy, W>(
        &self,
        point: &FractalPoint<T>,
        max_iters: usize,
        black: (H, H, H),
        scale: impl Fn(usize, H) -> H,
        renormalize: impl Fn(&FractalPoint<T>) -> (usize, W),
        interpolate: impl Fn((H, H, H), (H, H, H), W) -> (H, H, H),
    ) -> (hsv: (H, H, H))
        requires
            forall|numerator: usize, channel: H| scale.requires((numerator, channel)),
            self.smooth && point.iterations < max_iters ==> renormalize.requires((point,)),
            forall|floor: usize, weight: W|
                renormalize.ensures((point,), (floor, weight)) ==> floor < usize::MAX,
            forall|low: (H, H, H), high: (H, H, H), weight: W|
                interpolate.requires((low, high, weight)),
        ensures
            self.makes(hsv, *point, max_iters, black, scale, renormalize, interpolate),
    {
        let mode = self.mode.adapt();
        let base = (self.h_base, self.s_base, self.v_base);
        let by = &scale;
        let plain = |any: &FractalPoint<T>, cap: usize| -> (made: (H, H, H))
            ensures
                recipe_of(mode, any.iterations, cap).makes(made, base, black, *by),
            { hsv_recipe(mode, any.iterations, cap).apply(base, black, by) };
        if !self.smooth {
            return plain(point, max_iters);
        }
        let hsv = smooth_color(point, max_iters, plain, renormalize, interpolate);
        proof {
            if point.iterations < max_iters {
                let (floor, weight, low, high) = choose|
                    floor: usize,
                    weight: W,
                    low: (H, H, H),
                    high: (H, H, H),
                |
                    {
                        &&& #[trigger] renormalize.ensures((point,), (floor, weight))
                        &&& #[trigger] plain.ensures((&point.resampled(floor), max_iters), low)
                        &&& plain.ensures(
                            (&point.resampled((floor + 1) as usize), max_iters),
                            high,
                        )
                        &&& #[trigger] interpolate.ensures((low, high, weight), hsv)
                    };
                assert(self.makes_plain(low, floor, max_iters, black, scale));
                assert(self.makes_plain(high, (floor + 1) as usize, max_iters, black, scale));
            }
        }
        hsv
    }
}

/// A point at the cap is black whatever the settings are: for every base
/// colour and channel selection, smoothed or not.
pub proof fn lemma_capped_point_is_black<
    H: Copy,
    T,
    W,
    F: Fn(usize, H) -> H,
    R: Fn(&FractalPoint<T>) -> (usize, W),
    I: Fn((H, H, H), (H, H, H), W) -> (H, H, H),
>(
    config: ColorConfig<H>,
    hsv: (H, H, H),
    point: FractalPoint<T>,
    max_iters: usize,
    black: (H, H, H),
    scale: F,
    renormalize: R,
    interpolate: I,
)
    requires
        config.makes(hsv, point, max_iters, black, scale, renormalize, interpolate),
        point.iterations == max_iters,
    ensures
        hsv == black,
{
}

/// At the cap the smooth strategy changes nothing: its colour is a colour
/// of the base strategy for the same point.
pub proof fn lemma_smooth_keeps_capped_point<
    T,
    C,
    W,
    B: Fn(&FractalPoint<T>, usize) -> C,
    R: Fn(&FractalPoint<T>) -> (usize, W),
    I: Fn(C, C, W) -> C,
>(color: C, point: FractalPoint<T>, max_iters: usize, base: B, renormalize: R, interpolate: I)
    requires
        is_smooth_color(color, point, max_iters, base, renormalize, interpolate),
        point.iterations == max_iters,
    ensures
        base.ensures((&point, max_iters), color),
{
}

/// While four times the count fits a machine word, the numerator is
/// exactly that.
pub proof fn lemma_modifier_is_fourfold(iterations: usize)
    requires
        4 * iterations <= usize::MAX,
    ensures
        modifier_numerator(iterations) == 4 * iterations,
{
    lemma_small_mod((4 * iterations) as nat, (usize::MAX + 1) as nat);
}

} // verus!
