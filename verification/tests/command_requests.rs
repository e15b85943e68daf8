use sudo_test::command::Command;
use sudo_test::command::DEFAULT_TIMEOUT_MILLIS;
use sudo_test::command::Identity;
use sudo_test::command::StdinMode;

#[test]
fn argv_holds_program_then_arguments_verbatim() {
    let req = Command::new("sudo").args(&["-u", "root", "--", "true"]).exec_request();
    let want: Vec<Vec<u8>> = vec![
        b"sudo".to_vec(),
        b"-u".to_vec(),
        b"root".to_vec(),
        b"--".to_vec(),
        b"true".to_vec(),
    ];
    assert_eq!(req.argv, want);
}

#[test]
fn arguments_after_separator_are_not_consumed() {
    // An option-shaped argument after `--` must reach the program as an
    // argument, at its declared place.
    let req = Command::new("sudo").args(&["--", "-u", "root", "true"]).exec_request();
    assert_eq!(req.argv[1], b"--".to_vec());
    assert_eq!(req.argv[2], b"-u".to_vec());
    assert_eq!(req.argv[3], b"root".to_vec());
    assert_eq!(req.argv[4], b"true".to_vec());
}

#[test]
fn a_very_long_argument_is_passed_unchanged() {
    let long = "x".repeat(100_000);
    let cmd = Command::new("env").arg(&long);
    assert!(cmd.stdin.is_none());
    let req = cmd.exec_request();
    assert_eq!(req.argv.len(), 2);
    assert_eq!(req.argv[1].len(), 100_000);
    assert_eq!(req.argv[1], long.as_bytes().to_vec());
    // With no payload, input is explicitly closed and the safety bound set:
    // the invocation can neither wait for input nor hang unnoticed.
    assert!(matches!(req.stdin, StdinMode::Closed));
    assert_eq!(req.timeout_millis, DEFAULT_TIMEOUT_MILLIS);
}

#[test]
fn declared_stdin_is_piped_and_then_closed() {
    let req = Command::new("sudo").args(&["-S", "true"]).stdin("secret\n").exec_request();
    match req.stdin {
        StdinMode::Piped(payload) => assert_eq!(payload, b"secret\n".to_vec()),
        StdinMode::Closed => panic!("declared payload was dropped"),
    }
}

#[test]
fn acting_user_defaults_to_superuser() {
    let req = Command::new("true").exec_request();
    assert!(matches!(req.user, Identity::Superuser));

    let req = Command::new("true").as_user("ferris").exec_request();
    match req.user {
        Identity::Named(name) => assert_eq!(name, b"ferris".to_vec()),
        Identity::Superuser => panic!("declared user was dropped"),
    }
}

#[test]
fn environment_overrides_are_explicit_and_ordered() {
    let req = Command::new("env")
        .env_override("CC=clang-18")
        .env_override("CXX=clang++-18")
        .exec_request();
    assert_eq!(req.env_vars, vec![b"CC=clang-18".to_vec(), b"CXX=clang++-18".to_vec()]);
}
