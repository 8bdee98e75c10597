use rns::rng_generator::{CheckForErrors, Execute, GenerateNumbers, NumberError, RngGenerator};

#[test]
fn generate_exactly_n_numbers() {
    let numbers = 10;

    let (min, max) = (0, 100);
    let generated = RngGenerator::generate_numbers(numbers, min, max);
    assert_eq!(generated.len(), numbers);
}

#[test]
fn generate_between_min_and_max() {
    let numbers = 10;

    let (min, max) = (10, 15);
    let generated = RngGenerator::generate_numbers(numbers, min, max);
    assert!(generated.into_iter().all(|num| num >= min && num <= max));
}

#[test]
fn mod_return_error_if_min_greater_than_max() {
    let min = 10;
    let max = 5;

    assert_eq!(
        RngGenerator::check_for_errors(10, min, max),
        Err(NumberError::MinGreaterThanMax)
    );
}

#[test]
fn mod_return_error_if_numbers_is_zero() {
    let min = 0;
    let max = 100;

    assert_eq!(
        RngGenerator::check_for_errors(0, min, max),
        Err(NumberError::NumbersNotValid)
    );
}

#[test]
fn return_generated_numbers() {
    let min = 0;
    let max = 100;

    let numbers = 100;
    let rng_generator = RngGenerator { min, max, numbers };
    let generated = rng_generator.execute().unwrap();

    assert_eq!(generated.len(), numbers);
    assert!(generated.into_iter().all(|num| num >= min && num <= max));
}

#[test]
fn return_error_if_min_greater_than_max() {
    let min = 10;
    let max = 5;

    let numbers = 100;

    let rng_generator = RngGenerator { min, max, numbers };

    assert_eq!(rng_generator.execute(), Err(NumberError::MinGreaterThanMax));
}

#[test]
fn return_error_if_numbers_is_zero() {
    let min = 0;
    let max = 100;

    let numbers = 0;

    let rng_generator = RngGenerator { min, max, numbers };

    assert_eq!(rng_generator.execute(), Err(NumberError::NumbersNotValid));
}

#[test]
fn range_error_takes_precedence_when_both_fail() {
    assert_eq!(
        RngGenerator::check_for_errors(0, 10, 5),
        Err(NumberError::MinGreaterThanMax)
    );
}

#[test]
fn validation_gives_the_same_result_every_time() {
    let first = RngGenerator::check_for_errors(7, 3, 9);
    let second = RngGenerator::check_for_errors(7, 3, 9);
    assert_eq!(first, second);

    let first = RngGenerator::check_for_errors(0, 10, 5);
    let second = RngGenerator::check_for_errors(0, 10, 5);
    assert_eq!(first, second);
}

#[test]
fn degenerate_range_yields_only_that_value() {
    let rng_generator = RngGenerator { min: 1, max: 1, numbers: 5 };
    let generated = rng_generator.execute().unwrap();

    assert_eq!(generated.len(), 5);
    assert!(generated.into_iter().all(|num| num == 1));
}

#[test]
fn small_range_succeeds_with_requested_count() {
    let rng_generator = RngGenerator { min: 10, max: 15, numbers: 10 };
    let generated = rng_generator.execute().unwrap();

    assert_eq!(generated.len(), 10);
    assert!(generated.into_iter().all(|num| (10..=15).contains(&num)));
}
