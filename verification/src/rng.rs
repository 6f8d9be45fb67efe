//! The host environment and its random-integer draw, used only to break ties
//! between equally dominant neighbor types.
use vstd::prelude::*;

verus! {

#[verifier::external_type_specification]
#[verifier::external_body]
pub struct ExEnv(soroban_sdk::Env);

/// Relies on soroban_sdk::Prng::gen_range for u64, which samples a uniform
/// value in the given half-open range through the host's ChaCha20 generator
/// (soroban-env-host, Prng::u64_in_inclusive_range over rand::Uniform).
/// Nothing more than the bound can be promised of a random value. The host
/// panics on an empty range, and the draw needs a current contract
/// invocation frame on the host.
#[verifier::external_body]
pub(crate) fn draw_index(env: &soroban_sdk::Env, n: u64) -> (r: u64)
    requires
        1 <= n,
    ensures
        r < n,
{
    env.prng().gen_range::<u64>(0..n)
}

} // verus!
