//! The fractal generators.
//!
//! Both generators iterate the same map from a point of the grid: the
//! state is squared and a constant is added. For the Mandelbrot set the
//! constant is the grid point itself, for a Julia set it is a fixed
//! parameter of the set.
//!
//! The host names a generator and hands over its numeric parameters. Two
//! names are known: `Mandelbrot`, which takes no parameter, and `JuliaSet`,
//! which takes the real and the imaginary part of its constant. Any other
//! name is an error, never a silent default.

use vstd::prelude::*;
use vstd::string::StringExecFns;
use crate::error::ConfigError;
use crate::escape::{escape_time, is_escape_time, FractalPoint};

verus! {

/// A generator and its parameters. `T` is the type of a coordinate.
#[derive(Debug, PartialEq, Eq)]
pub enum Generator<T> {
    Mandelbrot,
    Julia(T, T),
}

/// The two parameters of a Julia set out of a list of parameters, or
/// `MissingGeneratorArgs` where the list is too short.
pub open spec fn julia_parameters_of<T>(args: Seq<T>) -> Result<(T, T), ConfigError> {
    if args.len() >= 2 {
        Ok((args[0], args[1]))
    } else {
        Err(ConfigError::MissingGeneratorArgs)
    }
}

/// The generator that a name and a list of parameters select, or the
/// reason why they select none.
pub open spec fn generator_of<T>(name: Seq<char>, args: Seq<T>) -> Result<Generator<T>, ConfigError> {
    if name == "Mandelbrot"@ {
        Ok(Generator::Mandelbrot)
    } else if name == "JuliaSet"@ {
        match julia_parameters_of(args) {
            Ok((re, im)) => Ok(Generator::Julia(re, im)),
            Err(e) => Err(e),
        }
    } else {
        Err(ConfigError::UnknownGenerator)
    }
}

/// Takes the real and the imaginary part of a Julia set's constant from
/// the head of a list of parameters. Further parameters are ignored.
pub fn julia_parameters<T: Copy>(args: &[T]) -> (r: Result<(T, T), ConfigError>)
    ensures
        r == julia_parameters_of(args@),
{
    if args.len() >= 2 {
        Ok((args[0], args[1]))
    } else {
        Err(ConfigError::MissingGeneratorArgs)
    }
}

/// Reads a generator from its name and parameters.
///
/// `Mandelbrot` ignores the parameters. `JuliaSet` takes the first two and
/// is rejected with `MissingGeneratorArgs` when there are fewer. Every
/// other name is rejected with `UnknownGenerator`.
pub fn as_generator<T: Copy>(name: &str, args: &[T]) -> (r: Result<Generator<T>, ConfigError>)
    ensures
        r == generator_of(name@, args@),
{
    let given = String::from_str(name);
    if given == String::from_str("Mandelbrot") {
        Ok(Generator::Mandelbrot)
    } else if given == String::from_str("JuliaSet") {
        match julia_parameters(args) {
            Ok((re, im)) => Ok(Generator::Julia(re, im)),
            Err(e) => Err(e),
        }
    } else {
        Err(ConfigError::UnknownGenerator)
    }
}

impl<T: Copy> Generator<T> {
    /// The constant added at every step of the orbit of the grid point
    /// `c`: `c` itself for the Mandelbrot set, the set's parameter for a
    /// Julia set.
    pub open spec fn spec_constant(self, c: (T, T)) -> (T, T) {
        match self {
            Generator::Mandelbrot => c,
            Generator::Julia(re, im) => (re, im),
        }
    }

    /// The constant added at every step of the orbit of the grid point `c`.
    pub fn constant(&self, c: (T, T)) -> (constant: (T, T))
        ensures
            constant == self.spec_constant(c),
    {
        match self {
            Generator::Mandelbrot => c,
            Generator::Julia(re, im) => (*re, *im),
        }
    }

    /// Evaluates the grid point `c`: iterates from `c` itself, under this
    /// generator's constant, until the state has escaped or `max_iters`
    /// steps were taken.
    ///
    /// `escaped` tests a state, and `advance` squares a state and adds the
    /// constant.
    pub fn convergence(
        &self,
        c: (T, T),
        max_iters: usize,
        escaped: impl Fn(&(T, T)) -> bool,
        advance: impl Fn((T, T), &(T, T)) -> (T, T),
    ) -> (point: FractalPoint<T>)
        requires
            forall|z: (T, T)| escaped.requires((&z,)),
            forall|z: (T, T), constant: (T, T)| advance.requires((z, &constant)),
        ensures
            is_escape_time(
                point.orbit_end(),
                c,
                self.spec_constant(c),
                max_iters,
                escaped,
                advance,
            ),
    {
        let constant = self.constant(c);
        let end = escape_time(c, &constant, max_iters, escaped, advance);
        FractalPoint { iterations: end.iterations, re: end.state.0, im: end.state.1 }
    }
}

impl<T> Generator<T> {
    /// The name that selects this generator.
    pub open spec fn spec_name(self) -> Seq<char> {
        match self {
            Generator::Mandelbrot => "Mandelbrot"@,
            Generator::Julia(_, _) => "JuliaSet"@,
        }
    }

    /// The parameters that this generator is made from.
    pub open spec fn spec_args(self) -> Seq<T> {
        match self {
            Generator::Mandelbrot => Seq::empty(),
            Generator::Julia(re, im) => seq![re, im],
        }
    }

    /// The name that selects this generator.
    pub fn name(&self) -> (name: String)
        ensures
            name@ == self.spec_name(),
    {
        match self {
            Generator::Mandelbrot => String::from_str("Mandelbrot"),
            Generator::Julia(_, _) => String::from_str("JuliaSet"),
        }
    }
}

/// A generator is read back from its own name and parameters.
pub proof fn lemma_generator_round_trip<T>(generator: Generator<T>)
    ensures
        generator_of(generator.spec_name(), generator.spec_args()) == Ok::<
            Generator<T>,
            ConfigError,
        >(generator),
{
    reveal_strlit("Mandelbrot");
    reveal_strlit("JuliaSet");
    assert("Mandelbrot"@.len() != "JuliaSet"@.len());
}

} // verus!
