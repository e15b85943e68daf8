use sudo_test::oracle::Oracle;
use sudo_test::output::check_snapshot;
use sudo_test::output::judge_completion;
use sudo_test::output::AssertionError;
use sudo_test::output::CapturedOutput;
use sudo_test::output::ExecError;
use sudo_test::output::ExitStatus;
use sudo_test::sudoers::expected_exit;
use sudo_test::sudoers::sudoers_verdict;
use sudo_test::sudoers::SudoersVerdict;

fn captured(code: Option<i32>, stdout: &str, stderr: &str) -> CapturedOutput {
    CapturedOutput {
        status: ExitStatus { code },
        stdout: stdout.as_bytes().to_vec(),
        stderr: stderr.as_bytes().to_vec(),
    }
}

#[test]
fn success_check_accepts_exit_zero_only() {
    assert!(captured(Some(0), "", "").check_success().is_ok());
    match captured(Some(1), "", "boom").check_success() {
        Err(AssertionError::WrongStatus { expected, actual, stderr }) => {
            assert_eq!(expected, Some(0));
            assert_eq!(actual, Some(1));
            assert_eq!(stderr, b"boom".to_vec());
        }
        _ => panic!("a non-zero exit must fail the success check"),
    }
    assert!(captured(None, "", "").check_success().is_err());
}

#[test]
fn exit_code_check_wants_the_exact_code() {
    assert!(captured(Some(1), "", "").check_exit_code(1).is_ok());
    assert!(captured(Some(2), "", "").check_exit_code(1).is_err());
    assert!(captured(None, "", "").check_exit_code(0).is_err());
}

#[test]
fn stderr_containment_and_line_counts() {
    let out = captured(Some(1), "", "Password: \nPassword: \nsudo: 2 incorrect password attempts\n");
    assert!(out.check_stderr_contains(b"2 incorrect password attempts").is_ok());
    assert!(out.check_stderr_contains(b"no such text").is_err());
    assert!(out.check_stderr_line_count(b"Password:", 2).is_ok());
    match out.check_stderr_line_count(b"Password:", 3) {
        Err(AssertionError::WrongLineCount { expected, actual, .. }) => {
            assert_eq!(expected, 3);
            assert_eq!(actual, 2);
        }
        _ => panic!("a wrong line count must be reported"),
    }
}

#[test]
fn stdout_is_byte_exact_and_trimmable() {
    let out = captured(Some(0), "root\n", "");
    assert_eq!(out.stdout, b"root\n".to_vec());
    assert_eq!(out.stdout_trimmed(), b"root".to_vec());
    assert!(out.stdout_contains(b"root"));
    assert!(out.check_stdout_trimmed(b"root").is_ok());
    assert!(out.check_stdout_trimmed(b"root\n").is_err());
    assert!(captured(Some(0), "root\n\n", "").check_stdout_trimmed(b"root").is_err());
}

#[test]
fn snapshot_comparison_is_exact() {
    assert!(check_snapshot(b"usage: sudo -h\n", b"usage: sudo -h\n").is_ok());
    match check_snapshot(b"usage: sudo -h\n", b"usage: sudo -V\n") {
        Err(AssertionError::SnapshotMismatch { baseline, actual }) => {
            assert_eq!(baseline, b"usage: sudo -V\n".to_vec());
            assert_eq!(actual, b"usage: sudo -h\n".to_vec());
        }
        _ => panic!("differing text must fail the snapshot check"),
    }
}

#[test]
fn a_nonzero_exit_is_not_a_framework_error() {
    let out = captured(Some(1), "", "denied");
    let judged = judge_completion(250, 30_000, out).expect("completion in time is never a failure");
    assert_eq!(judged.status.code, Some(1));
}

#[test]
fn exceeding_the_bound_is_a_framework_error() {
    let out = captured(Some(0), "", "");
    match judge_completion(30_001, 30_000, out) {
        Err(ExecError::Timeout { elapsed_millis, bound_millis }) => {
            assert_eq!(elapsed_millis, 30_001);
            assert_eq!(bound_millis, 30_000);
        }
        Ok(_) => panic!("an overrun must surface as a timeout"),
    }
}

#[test]
fn oracle_selects_the_wording_of_the_implementation_under_test() {
    let reference = Oracle::resolve(true);
    let candidate = Oracle::resolve(false);
    assert!(reference.is_reference_implementation());
    assert!(!candidate.is_reference_implementation());
    assert_eq!(reference.select("/etc/sudoers is world writable", "invalid configuration"),
        "/etc/sudoers is world writable");
    assert_eq!(candidate.select("/etc/sudoers is world writable", "invalid configuration"),
        "invalid configuration");
    assert_eq!(candidate.select(3usize, 2usize), 2);
}

#[test]
fn two_wrong_passwords_then_the_right_one() {
    // The retry scenario as the candidate implementation words it, with the
    // retry limit set to two: two prompts on stderr, the failure diagnostic,
    // exit code one.
    let oracle = Oracle::resolve(false);
    let out = captured(
        Some(1),
        "",
        "Password: \nPassword: \nsudo-rs: 2 incorrect authentication attempts\n",
    );
    assert!(out.check_exit_code(1).is_ok());
    let prompt = oracle.select("password for ferris:", "Password:");
    assert!(out.check_stderr_line_count(prompt.as_bytes(), 2).is_ok());
    let diagnostic = oracle.select(
        "2 incorrect password attempts",
        "2 incorrect authentication attempts",
    );
    assert!(out.check_stderr_contains(diagnostic.as_bytes()).is_ok());
}

#[test]
fn retry_scenario_in_the_reference_wording() {
    let oracle = Oracle::resolve(true);
    let out = captured(
        Some(1),
        "",
        "password for ferris: \npassword for ferris: \nsudo: 2 incorrect password attempts\n",
    );
    assert!(out.check_exit_code(1).is_ok());
    let prompt = oracle.select("password for ferris:", "Password:");
    assert!(out.check_stderr_line_count(prompt.as_bytes(), 2).is_ok());
    let diagnostic = oracle.select(
        "2 incorrect password attempts",
        "2 incorrect authentication attempts",
    );
    assert!(out.check_stderr_contains(diagnostic.as_bytes()).is_ok());
}

#[test]
fn world_writable_config_defeats_every_invocation() {
    // Permission fault injection: mode 446 sets the world write bit, so
    // every invocation must fail with the failure exit code; mode 644 on a
    // superuser-owned file must allow success.
    let verdict = sudoers_verdict(0o446, 0, 0);
    assert_eq!(verdict, SudoersVerdict::WorldWritable);
    assert_eq!(expected_exit(verdict), 1);

    let verdict = sudoers_verdict(0o644, 0, 0);
    assert_eq!(verdict, SudoersVerdict::Accepted);
    assert_eq!(expected_exit(verdict), 0);
}

#[test]
fn group_writable_and_foreign_owned_config_are_rejected_too() {
    assert_eq!(sudoers_verdict(0o464, 0, 1234), SudoersVerdict::GroupWritable);
    assert_eq!(sudoers_verdict(0o644, 1234, 0), SudoersVerdict::WrongOwner);
    assert_eq!(sudoers_verdict(0o644, 0, 1234), SudoersVerdict::WrongOwner);
    assert_eq!(expected_exit(sudoers_verdict(0o464, 0, 1234)), 1);
    assert_eq!(expected_exit(sudoers_verdict(0o644, 1234, 0)), 1);
}
