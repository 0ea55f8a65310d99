//! The cost model: how many bytes of the kernel's argument area an argument or
//! an environment variable takes.
use vstd::prelude::*;
use vstd::utf8::encode_utf8;

verus! {

/// Bytes counted for one slot of `argv` or `envp`. A 64-bit pointer is assumed
/// whatever the width of this binary, since a 32-bit process may launch a
/// 64-bit one.
pub const POINTER_SIZE_CONSERVATIVE: i64 = 8;

/// The number of bytes that `s` takes once encoded as UTF-8, as `str::len`
/// reports it.
pub open spec fn byte_len(s: Seq<char>) -> int {
    (encode_utf8(s).len() as usize) as int
}

/// Bytes taken by one argument: the string, its terminating NUL and its slot in
/// `argv`.
pub open spec fn arg_cost(a: Seq<char>) -> int {
    byte_len(a) + 1 + POINTER_SIZE_CONSERVATIVE
}

/// Bytes taken by one `KEY=VALUE` string and its slot in `envp`.
pub open spec fn env_var_cost(key: Seq<char>, value: Seq<char>) -> int {
    POINTER_SIZE_CONSERVATIVE + byte_len(key) + 1 + byte_len(value) + 1
}

/// Total cost of a sequence of arguments.
pub open spec fn args_cost<A: View<V = Seq<char>>>(args: Seq<A>) -> int
    decreases args.len(),
{
    if args.len() == 0 {
        0
    } else {
        args_cost(args.drop_last()) + arg_cost(args.last()@)
    }
}

/// Total cost of a set of environment variables.
pub open spec fn env_cost(env: Seq<(String, String)>) -> int
    decreases env.len(),
{
    if env.len() == 0 {
        0
    } else {
        env_cost(env.drop_last()) + env_var_cost(env.last().0@, env.last().1@)
    }
}

/// `x`, or `i64::MAX` where `x` does not fit in an `i64`.
pub open spec fn saturate(x: int) -> int {
    if x > i64::MAX {
        i64::MAX as int
    } else {
        x
    }
}

/// `a + b` for non-negative values, held at `i64::MAX`.
pub(crate) fn saturating_sum(a: i64, b: i64) -> (r: i64)
    requires
        a >= 0,
        b >= 0,
    ensures
        r == saturate(a + b),
{
    if a > i64::MAX - b {
        i64::MAX
    } else {
        a + b
    }
}

/// A byte length as an `i64`, held at `i64::MAX`.
fn length_as_i64(n: usize) -> (r: i64)
    ensures
        r == saturate(n as int),
{
    if n as u64 > i64::MAX as u64 {
        i64::MAX
    } else {
        n as i64
    }
}

/// Required size for a single argument and its pointer in `argv`: exactly
/// `arg_cost`, held at `i64::MAX` for a string too long to be counted in an `i64`.
pub fn arg_size(arg: &str) -> (r: i64)
    ensures
        r == saturate(arg_cost(arg@)),
        byte_len(arg@) + 1 + POINTER_SIZE_CONSERVATIVE <= i64::MAX ==> r == byte_len(arg@) + 1
            + POINTER_SIZE_CONSERVATIVE,
        r >= 1 + POINTER_SIZE_CONSERVATIVE,
{
    let n = length_as_i64(arg.len());
    saturating_sum(n, 1 + POINTER_SIZE_CONSERVATIVE)
}

/// Required size for a single `KEY=VALUE` string and its pointer in `envp`,
/// held at `i64::MAX`.
pub fn environment_variable_size(key: &str, value: &str) -> (r: i64)
    ensures
        r == saturate(env_var_cost(key@, value@)),
        r >= 2 + POINTER_SIZE_CONSERVATIVE,
{
    let k = length_as_i64(key.len());
    let v = length_as_i64(value.len());
    let kv = saturating_sum(k, v);
    saturating_sum(kv, 2 + POINTER_SIZE_CONSERVATIVE)
}

pub(crate) proof fn lemma_args_cost_nonneg<A: View<V = Seq<char>>>(args: Seq<A>)
    ensures
        args_cost(args) >= 0,
    decreases args.len(),
{
    if args.len() > 0 {
        lemma_args_cost_nonneg(args.drop_last());
    }
}

pub(crate) proof fn lemma_env_cost_nonneg(env: Seq<(String, String)>)
    ensures
        env_cost(env) >= 0,
    decreases env.len(),
{
    if env.len() > 0 {
        lemma_env_cost_nonneg(env.drop_last());
    }
}

/// Required size to store all of `env` in the child's environment, held at
/// `i64::MAX`.
pub fn size_of_environment(env: &[(String, String)]) -> (r: i64)
    ensures
        r == saturate(env_cost(env@)),
{
    let mut total: i64 = 0;
    let mut i: usize = 0;
    while i < env.len()
        invariant
            i <= env@.len(),
            total == saturate(env_cost(env@.subrange(0, i as int))),
        decreases env@.len() - i,
    {
        let entry = &env[i];
        let size = environment_variable_size(entry.0.as_str(), entry.1.as_str());
        proof {
            let prefix = env@.subrange(0, i as int + 1);
            assert(prefix.drop_last() =~= env@.subrange(0, i as int));
            lemma_env_cost_nonneg(env@.subrange(0, i as int));
        }
        total = saturating_sum(total, size);
        i = i + 1;
    }
    proof {
        assert(env@.subrange(0, env@.len() as int) =~= env@);
    }
    total
}

} // verus!
