//! The estimate on systems that report their limits through `sysconf`.
use crate::cost::{
    arg_size, args_cost, env_cost, lemma_args_cost_nonneg, saturate, saturating_sum, size_of_environment,
    POINTER_SIZE_CONSERVATIVE,
};
use crate::sys::{query_sysconf, SysconfQuery};
use vstd::prelude::*;

verus! {

/// Ceiling on any computed budget, against nonsensical or unbounded answers.
pub const UPPER_BOUND_COMMAND_LINE_LENGTH: i64 = 16 * 1024 * 1024;

/// The smallest page size that the estimate believes.
pub const MIN_PAGE_SIZE: i64 = 4096;

/// Headroom that POSIX recommends leaving below `ARG_MAX`.
pub const POSIX_HEADROOM: i64 = 2048;

/// The page size to count with: the reported one where it is at least
/// `MIN_PAGE_SIZE`, else `MIN_PAGE_SIZE`.
pub open spec fn page_size_of(reported: Option<i64>) -> int {
    match reported {
        Some(p) => if p >= MIN_PAGE_SIZE { p as int } else { MIN_PAGE_SIZE as int },
        None => MIN_PAGE_SIZE as int,
    }
}

/// `x` brought into `[0, UPPER_BOUND_COMMAND_LINE_LENGTH]`.
pub open spec fn clamp_budget(x: int) -> int {
    if x < 0 {
        0
    } else if x > UPPER_BOUND_COMMAND_LINE_LENGTH {
        UPPER_BOUND_COMMAND_LINE_LENGTH as int
    } else {
        x
    }
}

/// Bytes left for arguments out of a reported `ARG_MAX` of `arg_max`, once the
/// environment, the two null entries ending `envp` and `argv`, the fixed
/// arguments, one page and the POSIX headroom are taken off. A negative report
/// means no limit and is replaced by the upper bound.
pub open spec fn budget_from(
    arg_max: i64,
    page_size: int,
    env: Seq<(String, String)>,
    fixed_args: Seq<&str>,
) -> int {
    let start = if arg_max < 0 { UPPER_BOUND_COMMAND_LINE_LENGTH as int } else { arg_max as int };
    clamp_budget(
        start - env_cost(env) - POINTER_SIZE_CONSERVATIVE - args_cost(fixed_args)
            - POINTER_SIZE_CONSERVATIVE - page_size - POSIX_HEADROOM,
    )
}

/// The estimate for the answers `arg_max` and `page_size` of `sysconf`: none
/// where `ARG_MAX` could not be read.
pub open spec fn estimate(
    arg_max: Option<i64>,
    page_size: Option<i64>,
    env: Seq<(String, String)>,
    fixed_args: Seq<&str>,
) -> Option<int> {
    match arg_max {
        Some(m) => Some(budget_from(m, page_size_of(page_size), env, fixed_args)),
        None => None,
    }
}

/// The longest single argument that the kernel takes for a page size of
/// `page_size`: 32 pages less one byte (Linux's `MAX_ARG_STRLEN`).
pub open spec fn single_argument_ceiling(page_size: int) -> int {
    saturate(32 * page_size - 1)
}

/// The page size to count with, from the answer of `sysconf`.
pub fn page_size(reported: Option<i64>) -> (r: i64)
    ensures
        r == page_size_of(reported),
        r >= MIN_PAGE_SIZE,
{
    match reported {
        Some(p) => if p >= MIN_PAGE_SIZE { p } else { MIN_PAGE_SIZE },
        None => MIN_PAGE_SIZE,
    }
}

/// The longest single argument for the reported page size.
pub fn max_single_argument_length_for(reported_page_size: Option<i64>) -> (r: i64)
    ensures
        r == single_argument_ceiling(page_size_of(reported_page_size)),
{
    let p = page_size(reported_page_size);
    if p > (i64::MAX - 1) / 32 {
        i64::MAX
    } else {
        32 * p - 1
    }
}

/// The longest single argument that a child process can be given on this
/// machine.
pub fn max_single_argument_length() -> (r: i64)
    ensures
        exists|q: Option<i64>| r == single_argument_ceiling(#[trigger] page_size_of(q)),
        r >= 32 * MIN_PAGE_SIZE - 1,
{
    let q = query_sysconf(SysconfQuery::PageSize);
    max_single_argument_length_for(q)
}

/// Total size of `args`, held at `i64::MAX`.
pub fn total_arg_size(args: &[&str]) -> (r: i64)
    ensures
        r == saturate(args_cost(args@)),
{
    let mut total: i64 = 0;
    let mut i: usize = 0;
    while i < args.len()
        invariant
            i <= args@.len(),
            total == saturate(args_cost(args@.subrange(0, i as int))),
        decreases args@.len() - i,
    {
        let size = arg_size(args[i]);
        proof {
            assert(args@.subrange(0, i as int + 1).drop_last() =~= args@.subrange(0, i as int));
            lemma_args_cost_nonneg(args@.subrange(0, i as int));
        }
        total = saturating_sum(total, size);
        i = i + 1;
    }
    proof {
        assert(args@.subrange(0, args@.len() as int) =~= args@);
    }
    total
}

/// The bytes available for arguments, from the answers of `sysconf` for
/// `ARG_MAX` and the page size, the environment that the child will inherit
/// and the arguments already fixed (the program path first). `None` where
/// `ARG_MAX` could not be read.
pub fn available_argument_length_from(
    arg_max: Option<i64>,
    page_size_reported: Option<i64>,
    env: &[(String, String)],
    fixed_args: &[&str],
) -> (r: Option<i64>)
    ensures
        match r {
            Some(v) => estimate(arg_max, page_size_reported, env@, fixed_args@) == Some(v as int),
            None => estimate(arg_max, page_size_reported, env@, fixed_args@) is None,
        },
{
    let m = match arg_max {
        Some(m) => m,
        None => return None,
    };
    let start = if m < 0 { UPPER_BOUND_COMMAND_LINE_LENGTH } else { m };
    let p = page_size(page_size_reported);
    let env_size = size_of_environment(env);
    let fixed_size = total_arg_size(fixed_args);
    proof {
        crate::cost::lemma_env_cost_nonneg(env@);
        lemma_args_cost_nonneg(fixed_args@);
    }
    let mut taken = saturating_sum(env_size, fixed_size);
    taken = saturating_sum(taken, 2 * POINTER_SIZE_CONSERVATIVE);
    taken = saturating_sum(taken, p);
    taken = saturating_sum(taken, POSIX_HEADROOM);
    let left = start - taken;
    let v = if left < 0 {
        0
    } else if left > UPPER_BOUND_COMMAND_LINE_LENGTH {
        UPPER_BOUND_COMMAND_LINE_LENGTH
    } else {
        left
    };
    Some(v)
}

/// Total size that is available for arguments to a child process that inherits
/// `env` and starts with `fixed_args`, as this machine reports its limits.
/// `None` where the system does not report `ARG_MAX`.
pub fn available_argument_length(fixed_args: &[&str], env: &[(String, String)]) -> (r: Option<i64>)
    ensures
        exists|qa: Option<i64>, qp: Option<i64>|
            #[trigger] estimate(qa, qp, env@, fixed_args@) == match r {
                Some(v) => Some(v as int),
                None => None,
            },
        match r {
            Some(v) => 0 <= v <= UPPER_BOUND_COMMAND_LINE_LENGTH,
            None => true,
        },
{
    let qa = query_sysconf(SysconfQuery::ArgMax);
    let qp = query_sysconf(SysconfQuery::PageSize);
    available_argument_length_from(qa, qp, env, fixed_args)
}

} // verus!

verus! {

/// Whatever `sysconf` answers, the estimate is either absent (no `ARG_MAX`) or
/// a budget within `[0, UPPER_BOUND_COMMAND_LINE_LENGTH]`; with a reported
/// `ARG_MAX` of `m` it is `m` less every deduction, brought into that range.
pub proof fn lemma_estimate_bounded(
    arg_max: Option<i64>,
    page_size: Option<i64>,
    env: Seq<(String, String)>,
    fixed_args: Seq<&str>,
)
    ensures
        match estimate(arg_max, page_size, env, fixed_args) {
            Some(v) => 0 <= v <= UPPER_BOUND_COMMAND_LINE_LENGTH,
            None => arg_max is None,
        },
{
}

} // verus!
