//! The retry policy of outbound requests: a request that fails is tried
//! again after a pause that doubles with every failure, until the attempts
//! are used up.

use vstd::arithmetic::power2::{lemma2_to64, lemma2_to64_rest, lemma_pow2_strictly_increases, pow2};
use vstd::bits::lemma_u64_shl_is_mul;
use vstd::prelude::*;

verus! {

/// How often a request is attempted unless the caller says otherwise.
pub const DEFAULT_ATTEMPTS: u32 = 3;

/// The pause after the first failure would be twice this, in milliseconds.
pub const BACKOFF_BASE_MS: u64 = 100;

/// The largest number of attempts for which every pause can be counted in
/// milliseconds.
pub const MAX_ATTEMPTS: u32 = 57;

/// What follows a failed attempt.
#[derive(Clone, Copy, Debug, PartialEq, Eq, Structural)]
pub enum Retry {
    /// Try again after `millis` milliseconds.
    Wait { millis: u64 },
    /// Report the failure.
    GiveUp,
}

/// The pause after the `failures`-th failure, in milliseconds.
pub open spec fn backoff_ms(failures: nat) -> nat {
    BACKOFF_BASE_MS as nat * pow2(failures)
}

/// What follows the `failures`-th failed attempt of a request that may be
/// attempted `attempts` times: a pause of `100 * 2^failures` milliseconds
/// and another attempt while attempts are left, else the failure.
pub fn after_failure(failures: u32, attempts: u32) -> (next: Retry)
    requires
        attempts <= MAX_ATTEMPTS,
    ensures
        next == if failures < attempts {
            Retry::Wait { millis: backoff_ms(failures as nat) as u64 }
        } else {
            Retry::GiveUp
        },
        failures < attempts ==> backoff_ms(failures as nat) <= u64::MAX,
{
    if failures < attempts {
        proof {
            lemma2_to64();
            lemma2_to64_rest();
            if failures < 56 {
                lemma_pow2_strictly_increases(failures as nat, 56);
            }
            assert(pow2(failures as nat) <= 0x100_0000_0000_0000);
            assert(100 * pow2(failures as nat) <= u64::MAX) by (nonlinear_arith)
                requires
                    pow2(failures as nat) <= 0x100_0000_0000_0000,
            ;
            lemma_u64_shl_is_mul(BACKOFF_BASE_MS, failures as u64);
        }
        Retry::Wait { millis: BACKOFF_BASE_MS << (failures as u64) }
    } else {
        Retry::GiveUp
    }
}

} // verus!
