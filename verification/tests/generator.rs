use fractals_wasm::error::ConfigError;
use fractals_wasm::generator::{as_generator, julia_parameters, Generator};

#[test]
fn mandelbrot_is_recognised_and_ignores_parameters() {
    assert_eq!(as_generator::<f64>("Mandelbrot", &[]), Ok(Generator::Mandelbrot));
    assert_eq!(as_generator("Mandelbrot", &[0.0, 0.0]), Ok(Generator::Mandelbrot));
    assert_eq!(as_generator("Mandelbrot", &[1.5]), Ok(Generator::Mandelbrot));
}

#[test]
fn julia_set_takes_its_first_two_parameters() {
    assert_eq!(as_generator("JuliaSet", &[-0.8, 0.156]), Ok(Generator::Julia(-0.8, 0.156)));
    assert_eq!(as_generator("JuliaSet", &[1.0, 2.0, 3.0]), Ok(Generator::Julia(1.0, 2.0)));
}

#[test]
fn julia_set_without_two_parameters_is_rejected() {
    assert_eq!(as_generator::<f64>("JuliaSet", &[]), Err(ConfigError::MissingGeneratorArgs));
    assert_eq!(as_generator("JuliaSet", &[0.3]), Err(ConfigError::MissingGeneratorArgs));
}

#[test]
fn unknown_names_are_rejected() {
    for name in ["", "mandelbrot", "Mandelbrot ", "Julia", "JuliaSets", "Newton"] {
        assert_eq!(as_generator(name, &[0.0, 0.0]), Err(ConfigError::UnknownGenerator));
    }
}

#[test]
fn generator_is_read_back_from_its_name() {
    let julia = Generator::Julia(0.25, -0.5);
    assert_eq!(julia.name(), "JuliaSet");
    assert_eq!(as_generator(&julia.name(), &[0.25, -0.5]), Ok(julia));
    let mandelbrot: Generator<f64> = Generator::Mandelbrot;
    assert_eq!(mandelbrot.name(), "Mandelbrot");
    assert_eq!(as_generator::<f64>(&mandelbrot.name(), &[]), Ok(mandelbrot));
}

#[test]
fn julia_parameters_are_the_first_two() {
    assert_eq!(julia_parameters(&[0.25, -0.5]), Ok((0.25, -0.5)));
    assert_eq!(julia_parameters(&[1, 2, 3, 4]), Ok((1, 2)));
    assert_eq!(julia_parameters(&[7]), Err(ConfigError::MissingGeneratorArgs));
    assert_eq!(julia_parameters::<f64>(&[]), Err(ConfigError::MissingGeneratorArgs));
}
