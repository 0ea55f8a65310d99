//! Avoids *Argument list too long* (`E2BIG`) failures when launching a child
//! process: the operating system's budget for argument data is estimated once,
//! and every argument offered afterwards is accepted or refused against what is
//! left of it, before any process is started.
mod command;
mod cost;
pub mod detail;
mod sys;
pub mod other;
pub mod unix;

pub use command::{
    after_offers, fits, fresh, initial, lemma_commit_decreases, lemma_partial_batch_refused,
    lemma_repeated_offers, lemma_single_fit, with_args, ArgumentListTooLong, Command, CommandView,
};
pub use sys::errno_named;
pub use cost::{
    arg_cost, arg_size, args_cost, byte_len, env_cost, env_var_cost, environment_variable_size,
    saturate, size_of_environment, POINTER_SIZE_CONSERVATIVE,
};
