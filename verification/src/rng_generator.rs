//! The core of the generator: a request (lower bound, upper bound, count),
//! its validation, and uniform sampling of the requested numbers.

use vstd::prelude::*;

verus! {

/// A request for random numbers: `numbers` values drawn uniformly from the
/// inclusive range `[min, max]`.
#[derive(Debug, PartialEq, Eq, Structural)]
pub struct RngGenerator {
    pub min: u64,
    pub max: u64,
    pub numbers: usize,
}

/// The two ways a request can be invalid.
#[derive(Debug, PartialEq, Eq, PartialOrd, Ord, Structural)]
pub enum NumberError {
    /// The lower bound exceeds the upper bound.
    MinGreaterThanMax,
    /// Zero numbers were requested.
    NumbersNotValid,
}

/// What validation returns for any request: an inverted range is reported
/// first, then a zero count; any other request is valid.
pub open spec fn validate_spec(num: usize, min: u64, max: u64) -> Result<(), NumberError> {
    if min > max {
        Err(NumberError::MinGreaterThanMax)
    } else if num == 0 {
        Err(NumberError::NumbersNotValid)
    } else {
        Ok(())
    }
}

pub trait CheckForErrors {
    /// Validate a request before any generation work is done.
    fn check_for_errors(num: usize, min: u64, max: u64) -> (r: Result<(), NumberError>)
        ensures
            r == validate_spec(num, min, max),
            r is Ok <==> (min <= max && num != 0),
    ;
}

impl CheckForErrors for RngGenerator {
    fn check_for_errors(num: usize, min: u64, max: u64) -> (r: Result<(), NumberError>) {
        if min > max {
            return Err(NumberError::MinGreaterThanMax);
        }
        if num == 0 {
            return Err(NumberError::NumbersNotValid);
        }
        Ok(())
    }
}

#[verifier::external_type_specification]
#[verifier::external_body]
pub struct ExThreadRng(rand::rngs::ThreadRng);

/// Relies on rand::thread_rng: hands out the thread-local random generator.
/// Nothing is claimed of it beyond its existence.
#[verifier::external_body]
fn new_rng() -> rand::rngs::ThreadRng {
    rand::thread_rng()
}

/// Relies on rand::Rng::gen_range on the inclusive range `min..=max`: for a
/// non-empty range it returns a value inside the range (and panics on an
/// empty one, which the precondition rules out). The value is random, so
/// nothing further holds of it.
#[verifier::external_body]
fn gen_range_inclusive(rng: &mut rand::rngs::ThreadRng, min: u64, max: u64) -> (r: u64)
    requires
        min <= max,
    ensures
        min <= r <= max,
{
    rand::Rng::gen_range(rng, min..=max)
}

pub trait GenerateNumbers {
    /// Produce `num` values, each drawn from the inclusive range `[min, max]`.
    fn generate_numbers(num: usize, min: u64, max: u64) -> (r: Vec<u64>)
        requires
            min <= max,
        ensures
            r@.len() == num,
            forall|i: int| 0 <= i < r@.len() ==> min <= #[trigger] r@[i] <= max,
    ;
}

impl GenerateNumbers for RngGenerator {
    fn generate_numbers(num: usize, min: u64, max: u64) -> (r: Vec<u64>) {
        let mut rng = new_rng();
        let mut out: Vec<u64> = Vec::new();
        let mut i: usize = 0;
        while i < num
            invariant
                min <= max,
                i <= num,
                out@.len() == i,
                forall|j: int| 0 <= j < out@.len() ==> min <= #[trigger] out@[j] <= max,
            decreases num - i,
        {
            let v = gen_range_inclusive(&mut rng, min, max);
            out.push(v);
            i += 1;
        }
        out
    }
}

pub trait Execute {
    /// The lower bound of the request this value stands for.
    spec fn req_min(&self) -> u64;

    /// The upper bound of the request this value stands for.
    spec fn req_max(&self) -> u64;

    /// The count of the request this value stands for.
    spec fn req_numbers(&self) -> usize;

    /// Validate the request, then generate its numbers: the result is an
    /// error exactly when validation rejects the request, with the same
    /// error; otherwise it is exactly `req_numbers()` values, each inside
    /// `[req_min(), req_max()]`.
    fn execute(&self) -> (r: Result<Vec<u64>, NumberError>)
        ensures
            r is Err <==> validate_spec(self.req_numbers(), self.req_min(), self.req_max()) is Err,
            r matches Err(e) ==> Err::<(), NumberError>(e) == validate_spec(
                self.req_numbers(),
                self.req_min(),
                self.req_max(),
            ),
            r matches Ok(v) ==> v@.len() == self.req_numbers() && forall|i: int|
                0 <= i < v@.len() ==> self.req_min() <= #[trigger] v@[i] <= self.req_max(),
    ;
}

impl Execute for RngGenerator {
    open spec fn req_min(&self) -> u64 {
        self.min
    }

    open spec fn req_max(&self) -> u64 {
        self.max
    }

    open spec fn req_numbers(&self) -> usize {
        self.numbers
    }

    fn execute(&self) -> (r: Result<Vec<u64>, NumberError>) {
        let (numbers, min, max) = (self.numbers, self.min, self.max);
        match RngGenerator::check_for_errors(numbers, min, max) {
            Err(e) => Err(e),
            Ok(()) => Ok(RngGenerator::generate_numbers(numbers, min, max)),
        }
    }
}

/// Validation is a pure function of the request: two results that both meet
/// the validator's contract for the same inputs are the same result, so
/// validating a request any number of times always yields the same outcome.
pub proof fn lemma_validate_idempotent(
    num: usize,
    min: u64,
    max: u64,
    r1: Result<(), NumberError>,
    r2: Result<(), NumberError>,
)
    requires
        r1 == validate_spec(num, min, max),
        r2 == validate_spec(num, min, max),
    ensures
        r1 == r2,
{
}

} // verus!
