use argmax::detail::available_argument_length;
use argmax::other;
use argmax::unix::{
    available_argument_length_from, max_single_argument_length_for, page_size, total_arg_size,
    UPPER_BOUND_COMMAND_LINE_LENGTH,
};
use argmax::{arg_size, environment_variable_size, size_of_environment, Command};

fn shell_env() -> Vec<(String, String)> {
    vec![("SHELL".to_string(), "/usr/bin/zsh".to_string())]
}

/// Smallest `n` in `[lower, upper + 1]` for which `fits(n)` is false, where
/// `fits` holds on a prefix of the range.
fn binary_search(mut lower: i64, mut upper: i64, fits: &dyn Fn(i64) -> bool) -> i64 {
    while lower <= upper {
        let n = (lower + upper) / 2;
        if fits(n) {
            lower = n + 1;
        } else {
            upper = n - 1;
        }
    }
    lower
}

#[test]
fn test_arg_size() {
    assert_eq!(arg_size("A"), 10);
}

#[test]
fn test_environment_variable_size() {
    assert_eq!(environment_variable_size("SHELL", "/usr/bin/zsh"), 27);
}

#[test]
fn show_experimental_limit() {
    let cmd = Command::with_fallback_limits("echo");
    let limit = binary_search(0, 1_000_000, &|n| {
        let args = vec!["foo"; n as usize];
        cmd.args_would_fit(&args)
    });
    println!("Experimental limit: {}", limit);
    assert_eq!(limit, cmd.remaining_argument_length() / 12 + 1);
}

#[test]
fn arg_cost_is_length_plus_terminator_plus_pointer() {
    assert_eq!(arg_size(""), 9);
    assert_eq!(arg_size("foo"), 12);
    assert_eq!(arg_size("/bin/echo"), 18);
    // two bytes in UTF-8
    assert_eq!(arg_size("\u{e9}"), 11);
}

#[test]
fn would_fit_agrees_with_try_arg() {
    let mut cmd = Command::with_limits("echo", 12, 1000);
    assert!(cmd.arg_would_fit("foo"));
    assert!(!cmd.arg_would_fit("food"));
    assert!(cmd.try_arg("food").is_err());
    assert_eq!(cmd.remaining_argument_length(), 12);
    assert!(cmd.try_arg("foo").is_ok());
    assert_eq!(cmd.remaining_argument_length(), 0);
    assert!(!cmd.arg_would_fit(""));
    assert!(cmd.try_arg("").is_err());
    assert_eq!(cmd.get_args(), &vec!["foo".to_string()]);
}

#[test]
fn partial_batch_is_not_committed() {
    let mut cmd = Command::with_limits("echo", 20, 1000);
    assert!(cmd.arg_would_fit("foo"));
    assert!(!cmd.args_would_fit(&["foo", "bar"]));
    assert!(cmd.try_args(&["foo", "bar"]).is_err());
    assert!(cmd.get_args().is_empty());
    assert_eq!(cmd.remaining_argument_length(), 20);
}

#[test]
fn batch_commits_in_order_and_charges_once() {
    let mut cmd = Command::with_limits("echo", 100, 1000);
    assert!(cmd.try_args(&["Hello", "world", "!"]).is_ok());
    assert_eq!(
        cmd.get_args(),
        &vec!["Hello".to_string(), "world".to_string(), "!".to_string()]
    );
    assert_eq!(cmd.remaining_argument_length(), 100 - 14 - 14 - 10);
    assert!(cmd.try_args(&[]).is_ok());
    assert_eq!(cmd.remaining_argument_length(), 62);
}

#[test]
fn rejected_offer_changes_nothing() {
    let mut cmd = Command::with_limits("echo", 30, 1000);
    cmd.try_arg("abc").unwrap();
    let before: Vec<String> = cmd.get_args().clone();
    let err = cmd.try_arg("a-much-longer-argument").unwrap_err();
    assert_eq!(err.raw_os_error(), 7);
    assert_eq!(cmd.get_args(), &before);
    assert_eq!(cmd.remaining_argument_length(), 18);
}

#[test]
fn repeated_foo_fits_budget_over_twelve_times() {
    for budget in [0i64, 11, 12, 13, 1000, 4096] {
        let mut cmd = Command::with_limits("echo", budget, 131071);
        let mut accepted = 0;
        while cmd.try_arg("foo").is_ok() {
            accepted += 1;
        }
        assert_eq!(accepted, budget / 12);
        assert_eq!(cmd.get_args().len() as i64, budget / 12);
        assert_eq!(cmd.remaining_argument_length(), budget % 12);
    }
}

#[test]
fn single_argument_ceiling_applies_with_ample_budget() {
    let mut cmd = Command::with_limits("echo", 1_000_000, 10);
    let long = "x".repeat(11);
    assert!(!cmd.arg_would_fit(&long));
    assert!(cmd.try_arg(&long).is_err());
    assert!(cmd.get_args().is_empty());
    assert!(cmd.try_arg(&"x".repeat(10)).is_ok());
}

#[test]
fn single_argument_ceiling_from_page_size() {
    assert_eq!(max_single_argument_length_for(Some(4096)), 32 * 4096 - 1);
    assert_eq!(max_single_argument_length_for(Some(65536)), 32 * 65536 - 1);
    assert_eq!(max_single_argument_length_for(Some(100)), 32 * 4096 - 1);
    assert_eq!(max_single_argument_length_for(None), 32 * 4096 - 1);
    assert_eq!(max_single_argument_length_for(Some(i64::MAX)), i64::MAX);
    assert!(argmax::unix::max_single_argument_length() >= 32 * 4096 - 1);
    assert_eq!(other::max_single_argument_length(), 8192);
}

#[test]
fn page_size_is_at_least_one_small_page() {
    assert_eq!(page_size(None), 4096);
    assert_eq!(page_size(Some(-1)), 4096);
    assert_eq!(page_size(Some(1024)), 4096);
    assert_eq!(page_size(Some(16384)), 16384);
}

#[test]
fn estimate_for_echo_with_one_variable() {
    let env = shell_env();
    let arg_max = 2_097_152;
    let expected = arg_max - 27 - 8 - 8 - 4096 - 2048;
    assert_eq!(
        available_argument_length_from(Some(arg_max), Some(4096), &env, &[]),
        Some(expected)
    );
    assert_eq!(
        available_argument_length_from(Some(arg_max), Some(4096), &env, &["/bin/echo"]),
        Some(expected - 18)
    );
    assert_eq!(
        available_argument_length_from(Some(arg_max), Some(16384), &env, &["/bin/echo"]),
        Some(expected - 18 - 16384 + 4096)
    );
}

#[test]
fn estimate_stays_within_bounds() {
    let env = shell_env();
    assert_eq!(available_argument_length_from(None, Some(4096), &env, &[]), None);
    assert_eq!(
        available_argument_length_from(Some(i64::MAX), None, &env, &["echo"]),
        Some(UPPER_BOUND_COMMAND_LINE_LENGTH)
    );
    assert_eq!(
        available_argument_length_from(Some(-1), None, &[], &[]),
        Some(UPPER_BOUND_COMMAND_LINE_LENGTH - 16 - 4096 - 2048)
    );
    assert_eq!(available_argument_length_from(Some(5000), None, &env, &["echo"]), Some(0));
    assert_eq!(available_argument_length_from(Some(0), None, &[], &[]), Some(0));
    let huge = vec![("K".to_string(), "v".repeat(100_000)); 30];
    assert_eq!(
        available_argument_length_from(Some(2_097_152), Some(4096), &huge, &[]),
        Some(0)
    );
}

#[test]
fn environment_and_fixed_arguments_are_summed() {
    let env = vec![
        ("SHELL".to_string(), "/usr/bin/zsh".to_string()),
        ("A".to_string(), "".to_string()),
    ];
    assert_eq!(size_of_environment(&env), 27 + 11);
    assert_eq!(size_of_environment(&[]), 0);
    assert_eq!(total_arg_size(&["/bin/echo", "foo"]), 18 + 12);
    assert_eq!(total_arg_size(&[]), 0);
}

#[test]
fn command_from_system_answers() {
    let env = shell_env();
    let cmd = Command::from_system_answers("/bin/echo", &env, Some(2_097_152), Some(4096));
    assert_eq!(
        cmd.remaining_argument_length(),
        2_097_152 - 27 - 16 - 18 - 4096 - 2048
    );
    assert_eq!(cmd.max_single_argument_length(), 131071);
    assert_eq!(cmd.get_program(), "/bin/echo");
    assert!(cmd.get_args().is_empty());
    let unknown = Command::from_system_answers("/bin/echo", &env, None, None);
    assert_eq!(unknown.remaining_argument_length(), 8192);
}

#[test]
fn command_on_this_machine() {
    let env = shell_env();
    let cmd = Command::new("/bin/echo", &env);
    assert!(cmd.remaining_argument_length() >= 0);
    assert!(cmd.remaining_argument_length() <= UPPER_BOUND_COMMAND_LINE_LENGTH);
    assert!(cmd.max_single_argument_length() >= 131071);
    if let Some(v) = available_argument_length(&["/bin/echo"], &env) {
        assert!((0..=UPPER_BOUND_COMMAND_LINE_LENGTH).contains(&v));
    }
}

#[test]
fn fallback_estimate() {
    assert_eq!(other::available_argument_length(&["/bin/echo"]), Some(8192 - 18 - 1));
    assert_eq!(other::available_argument_length(&[]), Some(8191));
    let long = "p".repeat(9000);
    assert_eq!(other::available_argument_length(&[long.as_str()]), Some(0));
    let cmd = Command::with_fallback_limits("/bin/echo");
    assert_eq!(cmd.remaining_argument_length(), 8192 - 18 - 1);
    assert_eq!(cmd.max_single_argument_length(), 8192);
}

#[test]
fn working_directory_is_kept() {
    let mut cmd = Command::with_limits("echo", 100, 100);
    assert_eq!(cmd.get_current_dir(), None);
    cmd.current_dir(".");
    assert_eq!(cmd.get_current_dir(), Some("."));
    assert_eq!(cmd.remaining_argument_length(), 100);
}

#[test]
fn every_refusal_carries_e2big() {
    let mut cmd = Command::with_limits("echo", 20, 5);
    assert_eq!(cmd.try_arg("toolong").unwrap_err().raw_os_error(), 7);
    assert_eq!(cmd.try_args(&["foo", "bar"]).unwrap_err().raw_os_error(), 7);
    let mut empty = Command::with_limits("echo", 0, 100);
    assert_eq!(empty.try_arg("").unwrap_err().raw_os_error, 7);
}

#[test]
fn command_with_cached_page_size() {
    let env = shell_env();
    let cmd = Command::with_page_size_answer("/bin/echo", &env, Some(16384));
    assert_eq!(cmd.max_single_argument_length(), 32 * 16384 - 1);
    assert!(cmd.remaining_argument_length() >= 0);
    assert!(cmd.remaining_argument_length() <= UPPER_BOUND_COMMAND_LINE_LENGTH);
    assert!(cmd.get_args().is_empty());
}
