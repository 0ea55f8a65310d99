//! The budget tracker: a command line that accepts arguments only while they
//! fit in what is left of the operating system's budget.
use crate::cost::{arg_cost, args_cost, byte_len, lemma_args_cost_nonneg, POINTER_SIZE_CONSERVATIVE};
use crate::other::{fallback_estimate, MAX_SINGLE_ARGUMENT_LENGTH, REASONABLE_DEFAULT_LENGTH};
use crate::sys::{e2big_code, errno_named, query_sysconf, SysconfQuery};
use crate::unix::{
    available_argument_length_from, estimate, max_single_argument_length_for, page_size_of,
    single_argument_ceiling, UPPER_BOUND_COMMAND_LINE_LENGTH,
};
use vstd::prelude::*;

verus! {

/// The refusal of an argument list that would be too long: the same cause as
/// the system's own `E2BIG`.
#[derive(Debug, Clone, Copy, PartialEq, Eq)]
pub struct ArgumentListTooLong {
    pub raw_os_error: i32,
}

impl ArgumentListTooLong {
    /// The system's error number for this condition (`E2BIG`).
    pub fn raw_os_error(&self) -> (r: i32)
        ensures
            r == self.raw_os_error,
    {
        self.raw_os_error
    }
}

/// What a command holds, as plain values.
pub ghost struct CommandView {
    pub program: Seq<char>,
    pub args: Seq<Seq<char>>,
    pub current_dir: Option<Seq<char>>,
    /// Bytes still available for arguments.
    pub remaining: int,
    /// The longest single argument that is accepted.
    pub max_single: int,
}

/// A program to run, with the arguments accepted so far and the bytes of
/// argument data still available.
#[derive(Debug, Clone)]
pub struct Command {
    program: String,
    args: Vec<String>,
    current_dir: Option<String>,
    remaining_argument_length: i64,
    max_single_argument_length: i64,
}

impl View for Command {
    type V = CommandView;

    closed spec fn view(&self) -> CommandView {
        CommandView {
            program: self.program@,
            args: self.args@.map_values(|s: String| s@),
            current_dir: match self.current_dir {
                Some(d) => Some(d@),
                None => None,
            },
            remaining: self.remaining_argument_length as int,
            max_single: self.max_single_argument_length as int,
        }
    }
}

/// Whether `args`, all together, can be added to `c`: none is longer than the
/// single-argument ceiling, and their total cost is within what remains.
pub open spec fn fits(c: CommandView, args: Seq<&str>) -> bool {
    &&& forall|i: int| 0 <= i < args.len() ==> byte_len(#[trigger] args[i]@) <= c.max_single
    &&& args_cost(args) <= c.remaining
}

/// `c` once `args` are committed: appended in order, their cost taken off once.
pub open spec fn with_args(c: CommandView, args: Seq<&str>) -> CommandView {
    CommandView {
        program: c.program,
        args: c.args + args.map_values(|a: &str| a@),
        current_dir: c.current_dir,
        remaining: c.remaining - args_cost(args),
        max_single: c.max_single,
    }
}

/// A fresh command for `program` with the given limits.
pub open spec fn fresh(program: Seq<char>, remaining: int, max_single: int) -> CommandView {
    CommandView {
        program,
        args: Seq::empty(),
        current_dir: None,
        remaining,
        max_single,
    }
}

/// A fresh command for `program` that inherits `env`, on a system that
/// answered `arg_max` for `ARG_MAX` and `page_size` for the page size. Where no
/// `ARG_MAX` could be read the budget is the conservative default.
pub open spec fn initial(
    program: &str,
    env: Seq<(String, String)>,
    arg_max: Option<i64>,
    page_size: Option<i64>,
) -> CommandView {
    fresh(
        program@,
        match estimate(arg_max, page_size, env, seq![program]) {
            Some(v) => v,
            None => REASONABLE_DEFAULT_LENGTH as int,
        },
        single_argument_ceiling(page_size_of(page_size)),
    )
}

proof fn lemma_args_cost_prefix(args: Seq<&str>, k: int)
    requires
        0 <= k <= args.len(),
    ensures
        args_cost(args.subrange(0, k)) <= args_cost(args),
    decreases args.len(),
{
    if k < args.len() {
        let rest = args.drop_last();
        lemma_args_cost_prefix(rest, k);
        assert(rest.subrange(0, k) =~= args.subrange(0, k));
    } else {
        assert(args.subrange(0, k) =~= args);
    }
}

impl Command {
    /// A command for `program` with `remaining_argument_length` bytes available
    /// for arguments and single arguments of at most
    /// `max_single_argument_length` bytes.
    pub fn with_limits(
        program: &str,
        remaining_argument_length: i64,
        max_single_argument_length: i64,
    ) -> (r: Command)
        requires
            remaining_argument_length >= 0,
        ensures
            r@ == fresh(program@, remaining_argument_length as int, max_single_argument_length as int),
    {
        let r = Command {
            program: program.to_owned(),
            args: Vec::new(),
            current_dir: None,
            remaining_argument_length,
            max_single_argument_length,
        };
        proof {
            assert(r@.args =~= Seq::<Seq<char>>::empty());
        }
        r
    }

    /// A command for `program` whose child will inherit `env`, with the budget
    /// that `sysconf`'s answers `arg_max` and `page_size` allow.
    pub fn from_system_answers(
        program: &str,
        env: &[(String, String)],
        arg_max: Option<i64>,
        page_size: Option<i64>,
    ) -> (r: Command)
        ensures
            r@ == initial(program, env@, arg_max, page_size),
    {
        let fixed = [program];
        proof {
            assert(fixed@ =~= seq![program]);
        }
        let remaining = match available_argument_length_from(arg_max, page_size, env, &fixed) {
            Some(v) => v,
            None => REASONABLE_DEFAULT_LENGTH,
        };
        let max_single = max_single_argument_length_for(page_size);
        Command::with_limits(program, remaining, max_single)
    }

    /// A command for `program` whose child will inherit `env`, with the budget
    /// that this machine's limits allow, read once here.
    pub fn new(program: &str, env: &[(String, String)]) -> (r: Command)
        ensures
            exists|qa: Option<i64>, qp: Option<i64>| r@ == #[trigger] initial(program, env@, qa, qp),
            r@.args.len() == 0,
            0 <= r@.remaining <= UPPER_BOUND_COMMAND_LINE_LENGTH,
    {
        let qa = query_sysconf(SysconfQuery::ArgMax);
        let qp = query_sysconf(SysconfQuery::PageSize);
        Command::from_system_answers(program, env, qa, qp)
    }

    /// A command for `program` whose child will inherit `env`, given the page
    /// size that `sysconf` answered earlier (a value a process may read once
    /// and keep); `ARG_MAX` is read here.
    pub fn with_page_size_answer(
        program: &str,
        env: &[(String, String)],
        page_size: Option<i64>,
    ) -> (r: Command)
        ensures
            exists|qa: Option<i64>| r@ == #[trigger] initial(program, env@, qa, page_size),
            r@.args.len() == 0,
            0 <= r@.remaining <= UPPER_BOUND_COMMAND_LINE_LENGTH,
    {
        let qa = query_sysconf(SysconfQuery::ArgMax);
        Command::from_system_answers(program, env, qa, page_size)
    }

    /// A command for `program` with the fixed, conservative budget used where
    /// the system can be asked nothing.
    pub fn with_fallback_limits(program: &str) -> (r: Command)
        ensures
            r@ == fresh(program@, fallback_estimate(seq![program]), MAX_SINGLE_ARGUMENT_LENGTH as int),
    {
        let fixed = [program];
        proof {
            assert(fixed@ =~= seq![program]);
        }
        let remaining = match crate::other::available_argument_length(&fixed) {
            Some(v) => v,
            None => 0,
        };
        Command::with_limits(program, remaining, crate::other::max_single_argument_length())
    }

    /// The program to run.
    pub fn get_program(&self) -> (r: &str)
        ensures
            r@ == self@.program,
    {
        self.program.as_str()
    }

    /// The arguments accepted so far, in order.
    pub fn get_args(&self) -> (r: &Vec<String>)
        ensures
            r@.map_values(|s: String| s@) == self@.args,
    {
        &self.args
    }

    /// The bytes still available for arguments.
    pub fn remaining_argument_length(&self) -> (r: i64)
        ensures
            r == self@.remaining,
    {
        self.remaining_argument_length
    }

    /// The longest single argument that is accepted.
    pub fn max_single_argument_length(&self) -> (r: i64)
        ensures
            r == self@.max_single,
    {
        self.max_single_argument_length
    }

    /// Sets the working directory of the child.
    pub fn current_dir(&mut self, dir: &str)
        ensures
            final(self)@ == (CommandView { current_dir: Some(dir@), ..old(self)@ }),
    {
        self.current_dir = Some(dir.to_owned());
    }

    /// The working directory of the child, where one was set.
    pub fn get_current_dir(&self) -> (r: Option<&str>)
        ensures
            match r {
                Some(d) => self@.current_dir == Some(d@),
                None => self@.current_dir is None,
            },
    {
        match &self.current_dir {
            Some(d) => Some(d.as_str()),
            None => None,
        }
    }

    /// The error for a command line that is too long.
    fn e2big() -> (r: ArgumentListTooLong)
        ensures
            r.raw_os_error == errno_named("E2BIG"@),
    {
        ArgumentListTooLong { raw_os_error: e2big_code() }
    }

    /// The total size of `args`, if they all fit.
    fn check_size(&self, args: &[&str]) -> (r: Result<i64, ArgumentListTooLong>)
        ensures
            match r {
                Ok(size) => fits(self@, args@) && size == args_cost(args@),
                Err(e) => !fits(self@, args@) && e.raw_os_error == errno_named("E2BIG"@),
            },
    {
        let mut size: i64 = 0;
        let mut i: usize = 0;
        while i < args.len()
            invariant
                i <= args@.len(),
                size == args_cost(args@.subrange(0, i as int)),
                size >= 0,
                size == 0 || size <= self.remaining_argument_length,
                forall|j: int| 0 <= j < i ==> byte_len(#[trigger] args@[j]@) <= self.max_single_argument_length,
            decreases args@.len() - i,
        {
            let arg = args[i];
            let len = arg.len();
            proof {
                assert(args@.subrange(0, i as int + 1).drop_last() =~= args@.subrange(0, i as int));
            }
            if self.max_single_argument_length < 0 || len as u64 > self.max_single_argument_length as u64 {
                return Err(Self::e2big());
            }
            let avail = self.remaining_argument_length - size;
            if avail < 1 + POINTER_SIZE_CONSERVATIVE || len as i64 > avail - 1 - POINTER_SIZE_CONSERVATIVE {
                proof {
                    lemma_args_cost_prefix(args@, i as int + 1);
                }
                return Err(Self::e2big());
            }
            size = size + len as i64 + 1 + POINTER_SIZE_CONSERVATIVE;
            i = i + 1;
        }
        proof {
            assert(args@.subrange(0, args@.len() as int) =~= args@);
        }
        if size > self.remaining_argument_length {
            return Err(Self::e2big());
        }
        Ok(size)
    }

    /// Whether one more argument would fit.
    pub fn arg_would_fit(&self, arg: &str) -> (r: bool)
        ensures
            r == fits(self@, seq![arg]),
    {
        let one = [arg];
        proof {
            assert(one@ =~= seq![arg]);
        }
        self.args_would_fit(&one)
    }

    /// Whether all of `args` would fit together.
    pub fn args_would_fit(&self, args: &[&str]) -> (r: bool)
        ensures
            r == fits(self@, args@),
    {
        self.check_size(args).is_ok()
    }

    /// Adds `arg`, but only if it fits; otherwise nothing changes.
    pub fn try_arg(&mut self, arg: &str) -> (r: Result<(), ArgumentListTooLong>)
        ensures
            r is Ok == fits(old(self)@, seq![arg]),
            r is Ok ==> final(self)@ == with_args(old(self)@, seq![arg]),
            r is Err ==> final(self)@ == old(self)@,
            r is Err ==> r->Err_0.raw_os_error == errno_named("E2BIG"@),
    {
        let one = [arg];
        proof {
            assert(one@ =~= seq![arg]);
        }
        self.try_args(&one)
    }

    /// Adds all of `args`, in order, but only if they all fit together;
    /// otherwise nothing changes.
    pub fn try_args(&mut self, args: &[&str]) -> (r: Result<(), ArgumentListTooLong>)
        ensures
            r is Ok == fits(old(self)@, args@),
            r is Ok ==> final(self)@ == with_args(old(self)@, args@),
            r is Err ==> final(self)@ == old(self)@,
            r is Err ==> r->Err_0.raw_os_error == errno_named("E2BIG"@),
    {
        let size = match self.check_size(args) {
            Ok(size) => size,
            Err(e) => return Err(e),
        };
        let ghost before = self@;
        let mut i: usize = 0;
        while i < args.len()
            invariant
                i <= args@.len(),
                self.program@ == before.program,
                self.current_dir == old(self).current_dir,
                self.remaining_argument_length == old(self).remaining_argument_length,
                self.max_single_argument_length == old(self).max_single_argument_length,
                self.args@.map_values(|s: String| s@) == before.args + args@.subrange(0, i as int).map_values(|a: &str| a@),
            decreases args@.len() - i,
        {
            let ghost prev = self.args@;
            let owned = args[i].to_owned();
            self.args.push(owned);
            proof {
                assert(self.args@.map_values(|s: String| s@) =~= prev.map_values(|s: String| s@).push(owned@));
                assert(args@.subrange(0, i as int + 1).map_values(|a: &str| a@)
                    =~= args@.subrange(0, i as int).map_values(|a: &str| a@).push(args@[i as int]@));
            }
            i = i + 1;
        }
        proof {
            assert(args@.subrange(0, args@.len() as int) =~= args@);
            lemma_args_cost_nonneg(args@);
        }
        self.remaining_argument_length = self.remaining_argument_length - size;
        Ok(())
    }
}

} // verus!

verus! {

proof fn lemma_args_cost_positive(args: Seq<&str>)
    requires
        args.len() > 0,
    ensures
        args_cost(args) >= arg_cost(args.last()@),
        args_cost(args) > 0,
{
    lemma_args_cost_nonneg(args.drop_last());
}

/// A single argument fits exactly when it is within the single-argument ceiling
/// and its cost is within what remains; `arg_would_fit` and `try_arg` both
/// answer by this, so a `try_arg` after `arg_would_fit` never contradicts it.
pub proof fn lemma_single_fit(c: CommandView, a: &str)
    ensures
        fits(c, seq![a]) <==> (byte_len(a@) <= c.max_single && arg_cost(a@) <= c.remaining),
{
    let one = seq![a];
    assert(one.drop_last() =~= Seq::<&str>::empty());
    assert(one.last() == a);
    assert(args_cost(Seq::<&str>::empty()) == 0);
    assert(args_cost(one) == arg_cost(a@));
    if byte_len(a@) <= c.max_single {
        assert forall|i: int| 0 <= i < one.len() implies byte_len(#[trigger] one[i]@) <= c.max_single by {
            assert(one[i] == a);
        }
    }
    if fits(c, one) {
        assert(one[0] == a);
    }
}

/// A batch of two arguments whose costs together exceed what remains is
/// refused as a whole, even where the first alone would fit: `try_args` then
/// leaves the command unchanged, with neither argument committed.
pub proof fn lemma_partial_batch_refused(c: CommandView, a1: &str, a2: &str)
    requires
        arg_cost(a1@) + arg_cost(a2@) > c.remaining,
    ensures
        !fits(c, seq![a1, a2]),
{
    let two = seq![a1, a2];
    let one = seq![a1];
    assert(two.drop_last() =~= one);
    assert(two.last() == a2);
    assert(one.drop_last() =~= Seq::<&str>::empty());
    assert(one.last() == a1);
    assert(args_cost(Seq::<&str>::empty()) == 0);
    assert(args_cost(one) == arg_cost(a1@));
    assert(args_cost(two) == arg_cost(a1@) + arg_cost(a2@));
}

/// Committing a non-empty batch that fits takes exactly its cost off the
/// remaining budget, so the budget strictly decreases, and keeps the arguments
/// committed before it as a prefix.
pub proof fn lemma_commit_decreases(c: CommandView, args: Seq<&str>)
    requires
        fits(c, args),
        args.len() > 0,
    ensures
        with_args(c, args).remaining == c.remaining - args_cost(args),
        with_args(c, args).remaining < c.remaining,
        with_args(c, args).remaining >= 0,
        with_args(c, args).args.subrange(0, c.args.len() as int) == c.args,
        with_args(c, args).args.len() == c.args.len() + args.len(),
{
    lemma_args_cost_positive(args);
    assert(with_args(c, args).args.subrange(0, c.args.len() as int) =~= c.args);
}

} // verus!

verus! {

/// `c` after `k` successful offers of `a`, one at a time.
pub open spec fn after_offers(c: CommandView, a: &str, k: nat) -> CommandView
    decreases k,
{
    if k == 0 {
        c
    } else {
        with_args(after_offers(c, a, (k - 1) as nat), seq![a])
    }
}

proof fn lemma_after_offers_shape(c: CommandView, a: &str, k: nat)
    ensures
        after_offers(c, a, k).remaining == c.remaining - k * arg_cost(a@),
        after_offers(c, a, k).max_single == c.max_single,
        after_offers(c, a, k).args.len() == c.args.len() + k,
    decreases k,
{
    if k > 0 {
        lemma_after_offers_shape(c, a, (k - 1) as nat);
        let one = seq![a];
        assert(one.drop_last() =~= Seq::<&str>::empty());
        assert(one.last() == a);
        assert(args_cost(Seq::<&str>::empty()) == 0);
        assert(args_cost(one) == arg_cost(a@));
        assert(k * arg_cost(a@) == (k - 1) * arg_cost(a@) + arg_cost(a@)) by (nonlinear_arith);
    }
}

/// Offering the same argument `a` again and again to a command with a
/// non-negative budget `B`, where `a` is within the single-argument ceiling,
/// succeeds exactly `B / arg_cost(a)` times (rounded down): every offer before
/// that fits, the next one does not, and by then exactly that many copies of
/// `a` have been committed.
pub proof fn lemma_repeated_offers(c: CommandView, a: &str)
    requires
        c.remaining >= 0,
        byte_len(a@) <= c.max_single,
    ensures
        forall|k: nat|
            k < c.remaining / arg_cost(a@) ==> fits(#[trigger] after_offers(c, a, k), seq![a]),
        !fits(after_offers(c, a, (c.remaining / arg_cost(a@)) as nat), seq![a]),
        after_offers(c, a, (c.remaining / arg_cost(a@)) as nat).args.len() == c.args.len()
            + c.remaining / arg_cost(a@),
        after_offers(c, a, (c.remaining / arg_cost(a@)) as nat).remaining == c.remaining % arg_cost(
            a@,
        ),
{
    let cost = arg_cost(a@);
    let r = c.remaining;
    let n = r / cost;
    assert(cost > 0);
    assert(n >= 0 && n * cost <= r && r < (n + 1) * cost) by (nonlinear_arith)
        requires
            cost > 0,
            r >= 0,
            n == r / cost,
    ;
    assert forall|k: nat| k < n implies fits(#[trigger] after_offers(c, a, k), seq![a]) by {
        lemma_after_offers_shape(c, a, k);
        lemma_single_fit(after_offers(c, a, k), a);
        assert((k + 1) * cost <= n * cost) by (nonlinear_arith)
            requires
                k < n,
                cost > 0,
        ;
        assert(k * cost + cost == (k + 1) * cost) by (nonlinear_arith);
    }
    lemma_after_offers_shape(c, a, n as nat);
    lemma_single_fit(after_offers(c, a, n as nat), a);
    assert(n * cost + cost == (n + 1) * cost) by (nonlinear_arith);
    assert(r - n * cost == r % cost) by (nonlinear_arith)
        requires
            cost > 0,
            r >= 0,
            n == r / cost,
    ;
}

} // verus!
