//! The random source: a pseudo-random number in a range, drawn from a hash
//! of the block timestamp and of a counter that advances with every draw.

use vstd::prelude::*;
use crate::error::{AccessControlError, RandomGeneratorError};
use crate::hashing::{hash_keccak_256, keccak_256};

verus! {

/// Identifier of the capability that allows drawing random numbers.
pub const RANDOM_GENERATOR_CONSUMER: u32 = 2385590039;

/// Identifier of the capability that allows reading and setting the counter.
pub const RANDOM_GENERATOR_MANAGER: u32 = 1294860149;

/// The eight bytes of `x`, most significant first.
pub open spec fn be_bytes(x: u64) -> Seq<u8> {
    Seq::new(8, |i: int| ((x as int / pow256(7 - i)) % 256) as u8)
}

/// 256 to the power `n`, for `n` up to 7.
pub open spec fn pow256(n: int) -> int {
    if n <= 0 {
        1
    } else if n == 1 {
        0x100
    } else if n == 2 {
        0x1_0000
    } else if n == 3 {
        0x100_0000
    } else if n == 4 {
        0x1_0000_0000
    } else if n == 5 {
        0x100_0000_0000
    } else if n == 6 {
        0x1_0000_0000_0000
    } else {
        0x100_0000_0000_0000
    }
}

/// What is hashed for a draw: the block timestamp, then the counter.
pub open spec fn entropy_input(block_timestamp: u64, salt: u64) -> Seq<u8> {
    be_bytes(block_timestamp) + be_bytes(salt)
}

/// The 8-bit sample of a draw: the first byte of the digest.
pub open spec fn sample_of(block_timestamp: u64, salt: u64) -> u8 {
    keccak_256(entropy_input(block_timestamp, salt))[0]
}

/// The sample `a` scaled into the range from `min` to `max`.
pub open spec fn scaled(a: u8, min: u128, max: u128) -> int {
    min + (a * (max - min)) / 255
}

/// Outcome of scaling the sample `a` into the range from `min` to `max`.
pub open spec fn scale_outcome(a: u8, min: u128, max: u128) -> Result<u128, RandomGeneratorError> {
    if max < min {
        Err(RandomGeneratorError::SubOverFlow)
    } else if a * (max - min) > u128::MAX {
        Err(RandomGeneratorError::MulOverFlow)
    } else {
        Ok(scaled(a, min, max) as u128)
    }
}

/// A scaled sample lies in the range it was scaled into.
pub proof fn lemma_scaled_in_range(a: u8, min: u128, max: u128)
    requires
        min <= max,
    ensures
        min <= scaled(a, min, max) <= max,
{
    let b = max - min;
    assert(0 <= (a * b) / 255 <= b) by (nonlinear_arith)
        requires
            0 <= a <= 255,
            0 <= b,
    ;
}

/// Appends the eight bytes of `x`, most significant first, to `out`.
pub fn push_be_bytes(out: &mut Vec<u8>, x: u64)
    ensures
        final(out)@ == old(out)@ + be_bytes(x),
{
    let b0 = (x / 0x100_0000_0000_0000) as u8;
    let b1 = ((x / 0x1_0000_0000_0000) % 256) as u8;
    let b2 = ((x / 0x100_0000_0000) % 256) as u8;
    let b3 = ((x / 0x1_0000_0000) % 256) as u8;
    let b4 = ((x / 0x100_0000) % 256) as u8;
    let b5 = ((x / 0x1_0000) % 256) as u8;
    let b6 = ((x / 0x100) % 256) as u8;
    let b7 = (x % 256) as u8;
    out.push(b0);
    out.push(b1);
    out.push(b2);
    out.push(b3);
    out.push(b4);
    out.push(b5);
    out.push(b6);
    out.push(b7);
    assert(out@ =~= old(out)@ + be_bytes(x));
}

/// The 8-bit sample for a block timestamp and a counter value: the first
/// byte of the Keccak-256 digest of both, each as eight big-endian bytes.
pub fn sample(block_timestamp: u64, salt: u64) -> (a: u8)
    ensures
        a == sample_of(block_timestamp, salt),
{
    let mut input: Vec<u8> = Vec::new();
    push_be_bytes(&mut input, block_timestamp);
    push_be_bytes(&mut input, salt);
    assert(input@ =~= entropy_input(block_timestamp, salt));
    let output = hash_keccak_256(&input);
    output[0]
}

/// Scales the sample `a` into the range from `min` to `max`:
/// `min + a * (max - min) / 255`, with every step checked.
pub fn scale_sample(a: u8, min: u128, max: u128) -> (result: Result<u128, RandomGeneratorError>)
    ensures
        result == scale_outcome(a, min, max),
        result is Ok ==> min <= result->Ok_0 <= max,
{
    let b = match max.checked_sub(min) {
        Some(b) => b,
        None => {
            return Err(RandomGeneratorError::SubOverFlow);
        },
    };
    let c = match (a as u128).checked_mul(b) {
        Some(c) => c,
        None => {
            return Err(RandomGeneratorError::MulOverFlow);
        },
    };
    let d = match c.checked_div(255) {
        Some(d) => d,
        None => {
            return Err(RandomGeneratorError::DivByZero);
        },
    };
    proof {
        lemma_scaled_in_range(a, min, max);
    }
    match d.checked_add(min) {
        Some(e) => Ok(e),
        None => Err(RandomGeneratorError::AddOverFlow),
    }
}

/// Outcome of a draw, given the sample that the hash gave: the counter
/// afterwards, and the number or the error.
pub open spec fn draw_outcome(
    salt: u64,
    caller_is_consumer: bool,
    a: u8,
    min: u128,
    max: u128,
) -> (u64, Result<u128, RandomGeneratorError>) {
    if !caller_is_consumer {
        (salt, Err(RandomGeneratorError::AccessControlError(AccessControlError::MissingRole)))
    } else if salt == u64::MAX {
        (salt, Err(RandomGeneratorError::AddOverFlow))
    } else {
        ((salt + 1) as u64, scale_outcome(a, min, max))
    }
}

/// The counter of the random source.
#[derive(Debug)]
pub struct Data {
    salt: u64,
}

impl View for Data {
    type V = u64;

    /// The counter.
    closed spec fn view(&self) -> u64 {
        self.salt
    }
}

impl Data {
    /// A random source whose counter is 0.
    pub fn new() -> (data: Data)
        ensures
            data@ == 0,
    {
        Data { salt: 0 }
    }

    /// Draws a number between `min` and `max`. The counter advances by one
    /// with every draw that an authorised caller makes, whether or not the
    /// scaling succeeds, so that no two draws of a block hash the same input.
    pub fn get_random_number(
        &mut self,
        caller_is_consumer: bool,
        block_timestamp: u64,
        min: u128,
        max: u128,
    ) -> (result: Result<u128, RandomGeneratorError>)
        ensures
            (final(self)@, result) == draw_outcome(
                old(self)@,
                caller_is_consumer,
                sample_of(block_timestamp, old(self)@),
                min,
                max,
            ),
            result is Ok ==> min <= result->Ok_0 <= max,
    {
        if !caller_is_consumer {
            return Err(RandomGeneratorError::AccessControlError(AccessControlError::MissingRole));
        }
        let salt = self.salt;
        let next_salt = match salt.checked_add(1) {
            Some(next_salt) => next_salt,
            None => {
                return Err(RandomGeneratorError::AddOverFlow);
            },
        };
        let a = sample(block_timestamp, salt);
        self.salt = next_salt;
        scale_sample(a, min, max)
    }

    /// The counter.
    pub fn get_salt(&self, caller_is_manager: bool) -> (result: Result<u64, RandomGeneratorError>)
        ensures
            caller_is_manager ==> result == Ok::<u64, RandomGeneratorError>(self@),
            !caller_is_manager ==> result == Err::<u64, RandomGeneratorError>(
                RandomGeneratorError::AccessControlError(AccessControlError::MissingRole),
            ),
    {
        if !caller_is_manager {
            return Err(RandomGeneratorError::AccessControlError(AccessControlError::MissingRole));
        }
        Ok(self.salt)
    }

    /// Sets the counter.
    pub fn set_salt(&mut self, caller_is_manager: bool, salt: u64) -> (result: Result<
        (),
        RandomGeneratorError,
    >)
        ensures
            caller_is_manager ==> result is Ok && final(self)@ == salt,
            !caller_is_manager ==> result == Err::<(), RandomGeneratorError>(
                RandomGeneratorError::AccessControlError(AccessControlError::MissingRole),
            ) && final(self)@ == old(self)@,
    {
        if !caller_is_manager {
            return Err(RandomGeneratorError::AccessControlError(AccessControlError::MissingRole));
        }
        self.salt = salt;
        Ok(())
    }
}

} // verus!
