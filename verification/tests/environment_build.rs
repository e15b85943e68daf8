use sudo_test::command::Command;
use sudo_test::env_spec::Env;
use sudo_test::env_spec::TextFile;
use sudo_test::env_spec::UserDecl;
use sudo_test::runtime::build;
use sudo_test::runtime::validate;
use sudo_test::runtime::LifecycleState;
use sudo_test::runtime::SpecError;

const SUDOERS_ALL: &str = "ALL ALL=(ALL:ALL) NOPASSWD: ALL";

#[test]
fn built_environment_shows_declared_files_exactly() {
    let env = Env::new(TextFile::new(SUDOERS_ALL).chmod("446"))
        .file("/tmp/script.sh", TextFile::new("date +%s%3N").chmod("777").chown("ferris:users"))
        .user(UserDecl::new("ferris").password("strong-password"))
        .auth_override("/etc/pam.d/common-auth", "auth required pam_permit.so\n");
    let handle = build(&env).expect("a well-formed spec must build");
    assert!(matches!(handle.state, LifecycleState::Ready));

    let plan = &handle.plan;
    assert_eq!(plan.sudoers.mode, 0o446);
    assert_eq!(plan.sudoers.owner, b"root".to_vec());
    assert_eq!(plan.sudoers.group, b"root".to_vec());
    // Trailing-newline policy applied to the declared bytes.
    assert_eq!(plan.sudoers.contents, b"ALL ALL=(ALL:ALL) NOPASSWD: ALL\n".to_vec());

    assert_eq!(plan.files.len(), 2);
    assert_eq!(plan.files[0].path, b"/tmp/script.sh".to_vec());
    assert_eq!(plan.files[0].entry.mode, 0o777);
    assert_eq!(plan.files[0].entry.owner, b"ferris".to_vec());
    assert_eq!(plan.files[0].entry.group, b"users".to_vec());
    assert_eq!(plan.files[0].entry.contents, b"date +%s%3N\n".to_vec());

    // The authentication override replaces its target verbatim.
    assert_eq!(plan.files[1].path, b"/etc/pam.d/common-auth".to_vec());
    assert_eq!(plan.files[1].entry.contents, b"auth required pam_permit.so\n".to_vec());
    assert_eq!(plan.files[1].entry.mode, 0o644);

    assert_eq!(plan.users.len(), 1);
    assert_eq!(plan.users[0].name, b"ferris".to_vec());
    assert_eq!(plan.users[0].password, Some(b"strong-password".to_vec()));
    assert_eq!(plan.users[0].id, None);
}

#[test]
fn a_file_without_trailing_newline_is_kept_verbatim() {
    let env = Env::new(TextFile::new(SUDOERS_ALL).no_trailing_newline());
    let plan = validate(&env).expect("a well-formed spec must validate");
    assert_eq!(plan.sudoers.contents, SUDOERS_ALL.as_bytes().to_vec());
}

#[test]
fn duplicate_paths_are_rejected_at_building_time() {
    let env = Env::new(TextFile::new(SUDOERS_ALL))
        .file("/tmp/a", TextFile::new("one"))
        .file("/tmp/a", TextFile::new("two"));
    match validate(&env) {
        Err(SpecError::DuplicatePath { path }) => assert_eq!(path, b"/tmp/a".to_vec()),
        other => panic!("expected a duplicate-path rejection, got {:?}", other),
    }
}

#[test]
fn duplicate_user_names_are_rejected_at_building_time() {
    let env = Env::new(TextFile::new(SUDOERS_ALL))
        .user(UserDecl::new("ferris"))
        .user(UserDecl::new("ferris").password("p"));
    match validate(&env) {
        Err(SpecError::DuplicateUser { name }) => assert_eq!(name, b"ferris".to_vec()),
        other => panic!("expected a duplicate-user rejection, got {:?}", other),
    }
}

#[test]
fn malformed_mode_text_is_rejected_at_building_time() {
    let env = Env::new(TextFile::new(SUDOERS_ALL).chmod("64g"));
    match validate(&env) {
        Err(SpecError::InvalidMode { mode_text }) => assert_eq!(mode_text, b"64g".to_vec()),
        other => panic!("expected a mode rejection, got {:?}", other),
    }
    assert!(validate(&Env::new(TextFile::new(SUDOERS_ALL).chmod(""))).is_err());
    assert!(validate(&Env::new(TextFile::new(SUDOERS_ALL).chmod("10644"))).is_err());
}

#[test]
fn malformed_ownership_text_is_rejected_at_building_time() {
    let env = Env::new(TextFile::new(SUDOERS_ALL).chown("root:"));
    match validate(&env) {
        Err(SpecError::InvalidOwner { owner_text }) => assert_eq!(owner_text, b"root:".to_vec()),
        other => panic!("expected an ownership rejection, got {:?}", other),
    }
    assert!(validate(&Env::new(TextFile::new(SUDOERS_ALL).chown(":users"))).is_err());
}

#[test]
fn ownership_text_splits_into_owner_and_group() {
    let env = Env::new(TextFile::new(SUDOERS_ALL).chown("1234:root"));
    let plan = validate(&env).expect("numeric owners are resolved by the runtime");
    assert_eq!(plan.sudoers.owner, b"1234".to_vec());
    assert_eq!(plan.sudoers.group, b"root".to_vec());

    let env = Env::new(TextFile::new(SUDOERS_ALL).chown("ferris"));
    let plan = validate(&env).expect("a lone owner defaults the group");
    assert_eq!(plan.sudoers.owner, b"ferris".to_vec());
    assert_eq!(plan.sudoers.group, b"root".to_vec());
}

#[test]
fn commands_are_accepted_only_while_ready() {
    let mut handle = build(&Env::new(TextFile::new(SUDOERS_ALL))).unwrap();
    assert!(handle.accepts_commands());
    let cmd = Command::new("sudo").arg("true");
    assert!(handle.issue(&cmd).is_ok());

    handle.teardown();
    assert!(!handle.accepts_commands());
    assert!(handle.issue(&cmd).is_err());
}

#[test]
fn teardown_is_idempotent_and_terminal() {
    let mut handle = build(&Env::new(TextFile::new(SUDOERS_ALL))).unwrap();
    handle.teardown();
    assert!(matches!(handle.state, LifecycleState::TornDown));
    handle.teardown();
    assert!(matches!(handle.state, LifecycleState::TornDown));
}

#[test]
fn staged_building_walks_the_lifecycle() {
    let plan = validate(&Env::new(TextFile::new(SUDOERS_ALL))).unwrap();
    let mut handle = sudo_test::runtime::Environment::new(plan);
    assert!(matches!(handle.state, LifecycleState::Unbuilt));
    assert!(!handle.accepts_commands());
    handle.begin_building();
    assert!(matches!(handle.state, LifecycleState::Building));
    assert!(!handle.accepts_commands());
    handle.mark_ready();
    assert!(matches!(handle.state, LifecycleState::Ready));
    assert!(handle.accepts_commands());
}
