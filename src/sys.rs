//! The calls into the operating system's configuration, behind contracts.
use nix::unistd::{sysconf, SysconfVar};
use vstd::prelude::*;

verus! {

/// The configuration values that the estimate reads.
pub enum SysconfQuery {
    /// Maximum total size of the arguments and environment of `exec`.
    ArgMax,
    /// Size of a memory page.
    PageSize,
}

/// Relies on `nix::unistd::sysconf`: `Some` of the value that the system reports,
/// `None` where it reports no limit or the query fails. The value belongs to the
/// running machine, so nothing is promised of it.
#[verifier::external_body]
pub(crate) fn query_sysconf(q: SysconfQuery) -> (r: Option<i64>) {
    let var = match q {
        SysconfQuery::ArgMax => SysconfVar::ARG_MAX,
        SysconfQuery::PageSize => SysconfVar::PAGE_SIZE,
    };
    sysconf(var).ok().flatten().map(|v| v as i64)
}

/// The platform's error number that `libc` defines under `name`.
pub uninterp spec fn errno_named(name: Seq<char>) -> i32;

/// Relies on `libc::E2BIG`: the platform's error number for an argument list
/// that is too long.
#[verifier::external_body]
pub(crate) fn e2big_code() -> (r: i32)
    ensures
        r == errno_named("E2BIG"@),
{
    libc::E2BIG
}

} // verus!
