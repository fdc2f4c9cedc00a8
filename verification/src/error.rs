//! Configuration errors reported by the renderer core.

use vstd::prelude::*;
use vstd::string::StringExecFns;

verus! {

/// Why a request was rejected. Nothing is computed once one of these is
/// returned.
#[derive(Clone, Copy, Debug, PartialEq, Eq, Structural)]
pub enum ConfigError {
    /// The frame width is not a multiple of the scaling factor.
    WidthNotDivisible,
    /// The frame height is not a multiple of the scaling factor.
    HeightNotDivisible,
    /// The generator name is neither `Mandelbrot` nor `JuliaSet`.
    UnknownGenerator,
    /// Fewer than two generator parameters were supplied.
    MissingGeneratorArgs,
    /// The number of points differs from `width * height` of the grid.
    PointCountMismatch,
}

impl ConfigError {
    /// The text of each error.
    pub open spec fn spec_message(self) -> Seq<char> {
        match self {
            ConfigError::WidthNotDivisible => "Width must be divisible by scaling!"@,
            ConfigError::HeightNotDivisible => "Height must be divisible by scaling!"@,
            ConfigError::UnknownGenerator => "Unrecognized generator!"@,
            ConfigError::MissingGeneratorArgs => "Generator parameters are missing!"@,
            ConfigError::PointCountMismatch => "Point out of bounds!"@,
        }
    }

    /// Human-readable description of the error.
    pub fn message(&self) -> (text: String)
        ensures
            text@ == self.spec_message(),
    {
        match self {
            ConfigError::WidthNotDivisible => String::from_str("Width must be divisible by scaling!"),
            ConfigError::HeightNotDivisible => String::from_str(
                "Height must be divisible by scaling!",
            ),
            ConfigError::UnknownGenerator => String::from_str("Unrecognized generator!"),
            ConfigError::MissingGeneratorArgs => String::from_str(
                "Generator parameters are missing!",
            ),
            ConfigError::PointCountMismatch => String::from_str("Point out of bounds!"),
        }
    }
}

} // verus!
