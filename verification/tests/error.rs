use fractals_wasm::error::ConfigError;

#[test]
fn every_error_has_its_message() {
    assert_eq!(ConfigError::WidthNotDivisible.message(), "Width must be divisible by scaling!");
    assert_eq!(ConfigError::HeightNotDivisible.message(), "Height must be divisible by scaling!");
    assert_eq!(ConfigError::UnknownGenerator.message(), "Unrecognized generator!");
    assert_eq!(ConfigError::MissingGeneratorArgs.message(), "Generator parameters are missing!");
    assert_eq!(ConfigError::PointCountMismatch.message(), "Point out of bounds!");
}

#[test]
fn errors_differ_from_one_another() {
    let all = [
        ConfigError::WidthNotDivisible,
        ConfigError::HeightNotDivisible,
        ConfigError::UnknownGenerator,
        ConfigError::MissingGeneratorArgs,
        ConfigError::PointCountMismatch,
    ];
    for (i, a) in all.iter().enumerate() {
        for (j, b) in all.iter().enumerate() {
            assert_eq!(a == b, i == j);
            assert_eq!(a.message() == b.message(), i == j);
        }
    }
}
