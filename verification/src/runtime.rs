//! Turning a declarative spec into a live environment, and the lifecycle of
//! the resulting handle.
//!
//! Validation — the decision content of the Building phase — is a pure
//! function here: it rejects spec misuse (a path declared twice, a repeated
//! user name, a malformed mode or ownership text) before any command could
//! run, and otherwise resolves every declaration into the exact bytes, mode
//! and ownership to materialize, all or nothing. The handle walks the
//! lifecycle `Unbuilt -> Building -> Ready -> TornDown`: commands are
//! accepted only while `Ready`, teardown is idempotent and allowed from
//! every state, and nothing follows `TornDown`.

use crate::bytes::copy_bytes;
use crate::bytes::find_duplicate;
use crate::bytes::spec_all_distinct;
use crate::command::Command;
use crate::command::ExecRequest;
use crate::command::spec_argv;
use crate::command::spec_same_identity;
use crate::env_spec::AuthOverride;
use crate::env_spec::Env;
use crate::env_spec::TextFile;
use crate::env_spec::UserDecl;
use crate::env_spec::effective_contents;
use crate::env_spec::octal_value;
use crate::env_spec::parse_mode;
use crate::env_spec::spec_decl_paths;
use crate::env_spec::spec_effective_contents;
use crate::env_spec::spec_group_of;
use crate::env_spec::spec_mode_text_ok;
use crate::env_spec::spec_owner_of;
use crate::env_spec::spec_owner_text_ok;
use crate::env_spec::spec_superuser_name;
use crate::env_spec::spec_user_names;
use crate::env_spec::split_owner;
use crate::env_spec::superuser_name;
use vstd::prelude::*;

verus! {

/// Spec misuse, rejected at building time, before any command runs. Each
/// variant carries the offending declaration text.
#[derive(Debug)]
pub enum SpecError {
    /// The same target path is declared twice.
    DuplicatePath { path: Vec<u8> },
    /// The same user name is declared twice.
    DuplicateUser { name: Vec<u8> },
    /// A permission text that is not one to four octal digits.
    InvalidMode { mode_text: Vec<u8> },
    /// An ownership text with an empty owner or an empty group.
    InvalidOwner { owner_text: Vec<u8> },
}

/// One file as it will be materialized: exact bytes, numeric mode, owner
/// and group, applied atomically with the write.
#[derive(Debug)]
pub struct ResolvedFile {
    pub contents: Vec<u8>,
    pub mode: u32,
    pub owner: Vec<u8>,
    pub group: Vec<u8>,
}

/// A resolved file bound to its target path.
#[derive(Debug)]
pub struct FileEntry {
    pub path: Vec<u8>,
    pub entry: ResolvedFile,
}

/// One user as it will be provisioned.
#[derive(Debug)]
pub struct UserEntry {
    pub name: Vec<u8>,
    pub password: Option<Vec<u8>>,
    pub id: Option<u32>,
}

/// Everything the runtime must materialize for one environment, resolved
/// and validated: the privileged-execution configuration, every declared
/// file and authentication override in declaration order, and every user.
#[derive(Debug)]
pub struct BuildPlan {
    pub sudoers: ResolvedFile,
    pub files: Vec<FileEntry>,
    pub users: Vec<UserEntry>,
}

/// `r` materializes the declaration `f`: the trailing-newline policy is
/// applied to the contents, the mode text is read as octal, the ownership
/// text is split into owner and group.
pub open spec fn spec_file_resolves(f: TextFile, r: ResolvedFile) -> bool {
    &&& r.contents@ == spec_effective_contents(f.contents@, f.trailing_newline)
    &&& spec_mode_text_ok(f.mode_text@)
    &&& r.mode == octal_value(f.mode_text@)
    &&& r.owner@ == spec_owner_of(f.owner_text@)
    &&& r.group@ == spec_group_of(f.owner_text@)
}

/// `r` materializes the authentication override `o`: its bytes verbatim,
/// with the configuration file's conventional mode and ownership.
pub open spec fn spec_override_resolves(o: AuthOverride, r: ResolvedFile) -> bool {
    &&& r.contents@ == o.contents@
    &&& r.mode == 0o644u32
    &&& r.owner@ == spec_superuser_name()
    &&& r.group@ == spec_superuser_name()
}

/// `r` provisions the user `u` unchanged.
pub open spec fn spec_user_resolves(u: UserDecl, r: UserEntry) -> bool {
    &&& r.name@ == u.name@
    &&& match (u.password, r.password) {
        (Some(a), Some(b)) => a@ == b@,
        (None, None) => true,
        _ => false,
    }
    &&& r.id == u.id
}

/// A single declaration is well formed.
pub open spec fn spec_file_ok(f: TextFile) -> bool {
    spec_mode_text_ok(f.mode_text@) && spec_owner_text_ok(f.owner_text@)
}

/// The whole spec is well formed: no path or user name declared twice, and
/// every mode and ownership text readable.
pub open spec fn spec_env_valid(e: Env) -> bool {
    &&& spec_all_distinct(spec_decl_paths(e))
    &&& spec_all_distinct(spec_user_names(e))
    &&& spec_file_ok(e.sudoers)
    &&& forall|i: int| 0 <= i < e.files@.len() ==> spec_file_ok(#[trigger] e.files@[i].file)
}

/// The plan resolves the spec exactly: same paths in the same order, each
/// declaration materialized as declared — the heart of the guarantee that
/// a built environment shows each declared file at its declared path with
/// exactly the declared contents, mode and owner.
pub open spec fn spec_plan_resolves(e: Env, p: BuildPlan) -> bool {
    &&& spec_file_resolves(e.sudoers, p.sudoers)
    &&& p.files@.len() == e.files@.len() + e.auth_overrides@.len()
    &&& forall|i: int|
        0 <= i < e.files@.len() ==> (#[trigger] p.files@[i]).path@ == e.files@[i].path@
            && spec_file_resolves(e.files@[i].file, p.files@[i].entry)
    &&& forall|i: int|
        0 <= i < e.auth_overrides@.len() ==> (#[trigger] p.files@[e.files@.len() + i]).path@
            == e.auth_overrides@[i].path@ && spec_override_resolves(
            e.auth_overrides@[i],
            p.files@[e.files@.len() + i].entry,
        )
    &&& p.users@.len() == e.users@.len()
    &&& forall|i: int|
        0 <= i < e.users@.len() ==> spec_user_resolves(e.users@[i], #[trigger] p.users@[i])
}

/// Resolve one declaration, or reject its mode or ownership text.
fn resolve_file(f: &TextFile) -> (r: Result<ResolvedFile, SpecError>)
    ensures
        r is Ok <==> spec_file_ok(*f),
        match r {
            Ok(res) => spec_file_resolves(*f, res),
            Err(e) => match e {
                SpecError::InvalidMode { mode_text } => mode_text@ == f.mode_text@
                    && !spec_mode_text_ok(f.mode_text@),
                SpecError::InvalidOwner { owner_text } => owner_text@ == f.owner_text@
                    && spec_mode_text_ok(f.mode_text@) && !spec_owner_text_ok(f.owner_text@),
                _ => false,
            },
        },
{
    let mode = match parse_mode(f.mode_text.as_slice()) {
        Some(m) => m,
        None => {
            return Err(SpecError::InvalidMode { mode_text: copy_bytes(&f.mode_text) });
        },
    };
    let (owner, group) = split_owner(f.owner_text.as_slice());
    if owner.len() == 0 || group.len() == 0 {
        return Err(SpecError::InvalidOwner { owner_text: copy_bytes(&f.owner_text) });
    }
    Ok(ResolvedFile { contents: effective_contents(f), mode, owner, group })
}

/// Validate a spec and resolve it into a build plan: the Building phase's
/// decision. Rejects duplicate paths, duplicate user names and malformed
/// mode or ownership texts; otherwise resolves every declaration, all or
/// nothing.
pub fn validate(e: &Env) -> (r: Result<BuildPlan, SpecError>)
    ensures
        r is Ok <==> spec_env_valid(*e),
        match r {
            Ok(plan) => spec_plan_resolves(*e, plan),
            Err(err) => validate_error_describes(*e, err),
        },
{
    let ghost all_paths = spec_decl_paths(*e);
    let mut paths: Vec<Vec<u8>> = Vec::new();
    let mut i: usize = 0;
    proof {
        assert(paths.deep_view() =~~= all_paths.subrange(0, 0));
    }
    while i < e.files.len()
        invariant
            i <= e.files@.len(),
            all_paths == spec_decl_paths(*e),
            all_paths.len() == e.files@.len() + e.auth_overrides@.len(),
            paths.deep_view() == all_paths.subrange(0, i as int),
        decreases e.files@.len() - i,
    {
        let ghost before = paths.deep_view();
        paths.push(copy_bytes(&e.files[i].path));
        proof {
            assert(paths.deep_view() =~~= before.push(e.files@[i as int].path@));
            assert(all_paths[i as int] == e.files@[i as int].path@);
            assert(paths.deep_view() =~~= all_paths.subrange(0, i + 1));
        }
        i = i + 1;
    }
    let mut k: usize = 0;
    while k < e.auth_overrides.len()
        invariant
            k <= e.auth_overrides@.len(),
            all_paths == spec_decl_paths(*e),
            all_paths.len() == e.files@.len() + e.auth_overrides@.len(),
            paths.deep_view() == all_paths.subrange(0, e.files@.len() + k),
        decreases e.auth_overrides@.len() - k,
    {
        let ghost before = paths.deep_view();
        paths.push(copy_bytes(&e.auth_overrides[k].path));
        proof {
            assert(paths.deep_view() =~~= before.push(e.auth_overrides@[k as int].path@));
            assert(all_paths[e.files@.len() + k] == e.auth_overrides@[k as int].path@);
            assert(paths.deep_view() =~~= all_paths.subrange(0, e.files@.len() + k + 1));
        }
        k = k + 1;
    }
    proof {
        assert(all_paths.subrange(0, all_paths.len() as int) =~~= all_paths);
    }
    if let Some(path) = find_duplicate(&paths) {
        return Err(SpecError::DuplicatePath { path });
    }
    let ghost all_names = spec_user_names(*e);
    let mut names: Vec<Vec<u8>> = Vec::new();
    let mut u: usize = 0;
    proof {
        assert(names.deep_view() =~~= all_names.subrange(0, 0));
    }
    while u < e.users.len()
        invariant
            u <= e.users@.len(),
            all_names == spec_user_names(*e),
            all_names.len() == e.users@.len(),
            names.deep_view() == all_names.subrange(0, u as int),
        decreases e.users@.len() - u,
    {
        let ghost before = names.deep_view();
        names.push(copy_bytes(&e.users[u].name));
        proof {
            assert(names.deep_view() =~~= before.push(e.users@[u as int].name@));
            assert(all_names[u as int] == e.users@[u as int].name@);
            assert(names.deep_view() =~~= all_names.subrange(0, u + 1));
        }
        u = u + 1;
    }
    proof {
        assert(all_names.subrange(0, all_names.len() as int) =~~= all_names);
    }
    if let Some(name) = find_duplicate(&names) {
        return Err(SpecError::DuplicateUser { name });
    }
    let sudoers = match resolve_file(&e.sudoers) {
        Ok(s) => s,
        Err(err) => {
            return Err(err);
        },
    };
    let mut files: Vec<FileEntry> = Vec::new();
    let mut fi: usize = 0;
    while fi < e.files.len()
        invariant
            fi <= e.files@.len(),
            files@.len() == fi,
            forall|j: int|
                0 <= j < fi ==> (#[trigger] files@[j]).path@ == e.files@[j].path@
                    && spec_file_resolves(e.files@[j].file, files@[j].entry),
            forall|j: int| 0 <= j < fi ==> spec_file_ok(#[trigger] e.files@[j].file),
        decreases e.files@.len() - fi,
    {
        let entry = match resolve_file(&e.files[fi].file) {
            Ok(s) => s,
            Err(err) => {
                return Err(err);
            },
        };
        files.push(FileEntry { path: copy_bytes(&e.files[fi].path), entry });
        fi = fi + 1;
    }
    let mut oi: usize = 0;
    while oi < e.auth_overrides.len()
        invariant
            oi <= e.auth_overrides@.len(),
            files@.len() == e.files@.len() + oi,
            forall|j: int|
                0 <= j < e.files@.len() ==> (#[trigger] files@[j]).path@ == e.files@[j].path@
                    && spec_file_resolves(e.files@[j].file, files@[j].entry),
            forall|j: int|
                0 <= j < oi ==> (#[trigger] files@[e.files@.len() + j]).path@
                    == e.auth_overrides@[j].path@ && spec_override_resolves(
                    e.auth_overrides@[j],
                    files@[e.files@.len() + j].entry,
                ),
        decreases e.auth_overrides@.len() - oi,
    {
        let entry = ResolvedFile {
            contents: copy_bytes(&e.auth_overrides[oi].contents),
            mode: 0o644,
            owner: superuser_name(),
            group: superuser_name(),
        };
        files.push(FileEntry { path: copy_bytes(&e.auth_overrides[oi].path), entry });
        oi = oi + 1;
    }
    let mut users: Vec<UserEntry> = Vec::new();
    let mut ui: usize = 0;
    while ui < e.users.len()
        invariant
            ui <= e.users@.len(),
            users@.len() == ui,
            forall|j: int|
                0 <= j < ui ==> spec_user_resolves(e.users@[j], #[trigger] users@[j]),
        decreases e.users@.len() - ui,
    {
        let decl = &e.users[ui];
        let password = match &decl.password {
            Some(p) => Some(copy_bytes(p)),
            None => None,
        };
        users.push(UserEntry { name: copy_bytes(&decl.name), password, id: decl.id });
        ui = ui + 1;
    }
    Ok(BuildPlan { sudoers, files, users })
}

/// The lifecycle of an environment handle.
#[derive(Clone, Copy, Debug, PartialEq, Eq, Structural)]
pub enum LifecycleState {
    /// Declared, nothing provisioned yet.
    Unbuilt,
    /// Spec validation and provisioning are in progress.
    Building,
    /// Commands may be issued, any number, sequentially.
    Ready,
    /// Terminal: nothing is accepted any more.
    TornDown,
}

/// The legal lifecycle steps: building follows declaration, readiness
/// follows building, teardown follows everything; nothing follows
/// teardown, and no step skips the building phase.
pub open spec fn spec_transition_allowed(from: LifecycleState, to: LifecycleState) -> bool {
    match (from, to) {
        (LifecycleState::Unbuilt, LifecycleState::Building) => true,
        (LifecycleState::Building, LifecycleState::Ready) => true,
        (LifecycleState::Unbuilt, LifecycleState::TornDown) => true,
        (LifecycleState::Building, LifecycleState::TornDown) => true,
        (LifecycleState::Ready, LifecycleState::TornDown) => true,
        _ => false,
    }
}

/// There is no way around the building phase, and nothing leaves the
/// terminal state.
pub proof fn lemma_lifecycle_shape()
    ensures
        !spec_transition_allowed(LifecycleState::Unbuilt, LifecycleState::Ready),
        forall|s: LifecycleState| !spec_transition_allowed(LifecycleState::TornDown, s),
        forall|s: LifecycleState| !spec_transition_allowed(s, LifecycleState::Unbuilt),
{
}

/// A command was issued to an environment that is not ready for one.
#[derive(Debug)]
pub enum LifecycleError {
    NotReady { state: LifecycleState },
}

/// The handle to one materialized environment: its lifecycle state and the
/// resolved plan it was, or is being, provisioned from. Owned by one test;
/// torn down exactly once, on every exit path.
#[derive(Debug)]
pub struct Environment {
    pub state: LifecycleState,
    pub plan: BuildPlan,
}

impl Environment {
    /// A fresh, unbuilt handle for a validated plan. Every call starts
    /// from nothing: plans are never cached or shared between handles.
    pub fn new(plan: BuildPlan) -> (r: Environment)
        ensures
            r.state is Unbuilt,
            r.plan == plan,
    {
        Environment { state: LifecycleState::Unbuilt, plan }
    }

    /// Enter the building phase.
    pub fn begin_building(&mut self)
        requires
            old(self).state is Unbuilt,
        ensures
            final(self).state is Building,
            final(self).plan == old(self).plan,
            spec_transition_allowed(old(self).state, final(self).state),
    {
        self.state = LifecycleState::Building;
    }

    /// Record that provisioning completed: the environment is ready for
    /// commands.
    pub fn mark_ready(&mut self)
        requires
            old(self).state is Building,
        ensures
            final(self).state is Ready,
            final(self).plan == old(self).plan,
            spec_transition_allowed(old(self).state, final(self).state),
    {
        self.state = LifecycleState::Ready;
    }

    /// Whether commands are accepted right now.
    pub fn accepts_commands(&self) -> (r: bool)
        ensures
            r == (self.state is Ready),
    {
        match self.state {
            LifecycleState::Ready => true,
            _ => false,
        }
    }

    /// Issue one command: hand out its execution request, exactly the
    /// declared invocation, if and only if the environment is ready.
    pub fn issue(&self, cmd: &Command) -> (r: Result<ExecRequest, LifecycleError>)
        ensures
            r is Ok <==> self.state is Ready,
            match r {
                Ok(req) => {
                    &&& req.argv.deep_view() == spec_argv(*cmd)
                    &&& spec_same_identity(req.user, cmd.user)
                    &&& cmd.stdin is Some ==> req.stdin is Piped && req.stdin->0@ == cmd.stdin->0@
                    &&& cmd.stdin is None ==> req.stdin is Closed
                    &&& req.env_vars.deep_view() == cmd.env_vars.deep_view()
                    &&& req.timeout_millis == crate::command::DEFAULT_TIMEOUT_MILLIS
                },
                Err(e) => match e {
                    LifecycleError::NotReady { state } => state == self.state && !(self.state
                        is Ready),
                },
            },
    {
        if self.accepts_commands() {
            Ok(cmd.exec_request())
        } else {
            Err(LifecycleError::NotReady { state: self.state })
        }
    }

    /// Tear the environment down. Idempotent, legal from every state, and
    /// terminal: the owning scope calls this on every exit path.
    pub fn teardown(&mut self)
        ensures
            final(self).state is TornDown,
            final(self).plan == old(self).plan,
            old(self).state is TornDown ==> *final(self) == *old(self),
            !(old(self).state is TornDown) ==> spec_transition_allowed(
                old(self).state,
                final(self).state,
            ),
    {
        self.state = LifecycleState::TornDown;
    }
}

/// Validate and resolve a spec and hand back a ready handle, all or
/// nothing: exactly the declared files at the declared paths with the
/// declared contents, modes and owners, and exactly the declared users.
/// The runtime that materializes the plan drives the staged transitions
/// itself; this is the one-call form for everything the harness decides.
pub fn build(e: &Env) -> (r: Result<Environment, SpecError>)
    ensures
        r is Ok <==> spec_env_valid(*e),
        match r {
            Ok(env) => env.state is Ready && spec_plan_resolves(*e, env.plan),
            Err(err) => validate_error_describes(*e, err),
        },
{
    let plan = match validate(e) {
        Ok(p) => p,
        Err(err) => {
            return Err(err);
        },
    };
    let mut env = Environment::new(plan);
    env.begin_building();
    env.mark_ready();
    Ok(env)
}

/// A validated plan keeps the spec's uniqueness invariant: each target
/// path is materialized at most once, and each user name is provisioned at
/// most once.
pub proof fn lemma_plan_declares_each_once(e: Env, p: BuildPlan)
    requires
        spec_env_valid(e),
        spec_plan_resolves(e, p),
    ensures
        spec_all_distinct(p.files@.map_values(|f: FileEntry| f.path@)),
        spec_all_distinct(p.users@.map_values(|u: UserEntry| u.name@)),
{
    let plan_paths = p.files@.map_values(|f: FileEntry| f.path@);
    let decl_paths = spec_decl_paths(e);
    assert forall|i: int| 0 <= i < plan_paths.len() implies plan_paths[i] == decl_paths[i] by {
        if i < e.files@.len() {
            assert(p.files@[i].path@ == e.files@[i].path@);
        } else {
            let k = i - e.files@.len();
            assert(p.files@[e.files@.len() + k].path@ == e.auth_overrides@[k].path@);
        }
    }
    let plan_names = p.users@.map_values(|u: UserEntry| u.name@);
    let decl_names = spec_user_names(e);
    assert forall|i: int| 0 <= i < plan_names.len() implies plan_names[i] == decl_names[i] by {
        assert(spec_user_resolves(e.users@[i], p.users@[i]));
    }
}

/// What each validation error says about the spec it rejected.
pub open spec fn validate_error_describes(e: Env, err: SpecError) -> bool {
    match err {
        SpecError::DuplicatePath { path } => !spec_all_distinct(spec_decl_paths(e)) && exists|
            i: int,
            j: int,
        |
            0 <= i < j < spec_decl_paths(e).len() && spec_decl_paths(e)[i] == spec_decl_paths(e)[j]
                && spec_decl_paths(e)[i] == path@,
        SpecError::DuplicateUser { name } => !spec_all_distinct(spec_user_names(e)) && exists|
            i: int,
            j: int,
        |
            0 <= i < j < spec_user_names(e).len() && spec_user_names(e)[i] == spec_user_names(e)[j]
                && spec_user_names(e)[i] == name@,
        SpecError::InvalidMode { mode_text } => !spec_mode_text_ok(mode_text@) && (mode_text@
            == e.sudoers.mode_text@ || exists|i: int|
            0 <= i < e.files@.len() && (#[trigger] e.files@[i]).file.mode_text@ == mode_text@),
        SpecError::InvalidOwner { owner_text } => !spec_owner_text_ok(owner_text@) && (owner_text@
            == e.sudoers.owner_text@ || exists|i: int|
            0 <= i < e.files@.len() && (#[trigger] e.files@[i]).file.owner_text@ == owner_text@),
    }
}

} // verus!
