//! The estimate where the system can be asked nothing: a guess from a fixed,
//! small default, with no environment accounting and no headroom. It has not
//! been checked against real systems and trades precision for safety.
use crate::cost::{args_cost, lemma_args_cost_nonneg, saturate};
use crate::unix::{clamp_budget, total_arg_size};
use vstd::prelude::*;

verus! {

/// The budget assumed for all the arguments of a command.
pub const REASONABLE_DEFAULT_LENGTH: i64 = 8 * 1024;

/// The longest single argument assumed to be accepted.
pub const MAX_SINGLE_ARGUMENT_LENGTH: i64 = REASONABLE_DEFAULT_LENGTH;

/// The fallback estimate for a command that starts with `fixed_args`.
pub open spec fn fallback_estimate(fixed_args: Seq<&str>) -> int {
    clamp_budget(REASONABLE_DEFAULT_LENGTH - args_cost(fixed_args) - 1)
}

/// Total size that is assumed available for arguments to a child process that
/// starts with `fixed_args`.
pub fn available_argument_length(fixed_args: &[&str]) -> (r: Option<i64>)
    ensures
        r == Some(fallback_estimate(fixed_args@) as i64),
        0 <= fallback_estimate(fixed_args@) <= REASONABLE_DEFAULT_LENGTH,
{
    let fixed = total_arg_size(fixed_args);
    proof {
        lemma_args_cost_nonneg(fixed_args@);
    }
    let left = if fixed > REASONABLE_DEFAULT_LENGTH {
        0
    } else {
        let d = REASONABLE_DEFAULT_LENGTH - fixed - 1;
        if d < 0 { 0 } else { d }
    };
    Some(left)
}

/// The longest single argument assumed to be accepted.
pub fn max_single_argument_length() -> (r: i64)
    ensures
        r == MAX_SINGLE_ARGUMENT_LENGTH,
{
    MAX_SINGLE_ARGUMENT_LENGTH
}

} // verus!
