//! Describing one program invocation inside a live environment: the program,
//! its exact argument vector, the acting identity, the standard-input policy
//! and the execution time bound.
//!
//! A command is a plain immutable value. Turning it into an execution request
//! is a pure function: the argument vector is handed over byte for byte and
//! is never shell-interpreted, standard input is either a piped payload or
//! explicitly closed — never left attached — and every request carries the
//! same bounded safety timeout.

use crate::bytes::copy_bytes;
use vstd::prelude::*;
use vstd::string::StrSliceExecFns;
use vstd::string::StringSliceAdditionalSpecFns;

verus! {

/// Milliseconds a single command invocation may take before the harness
/// treats it as a framework failure rather than waiting forever.
pub const DEFAULT_TIMEOUT_MILLIS: u64 = 30000;

/// The identity a command runs under inside an environment.
#[derive(Debug)]
pub enum Identity {
    /// The environment's superuser; the default.
    Superuser,
    /// A named user declared in the environment.
    Named(Vec<u8>),
}

/// What happens to the child's standard input. There is deliberately no
/// way to leave the parent's input attached: a child that waits for input
/// that never comes would hang the whole test.
#[derive(Debug)]
pub enum StdinMode {
    /// Standard input is closed before the child runs.
    Closed,
    /// The payload is written to the child's standard input, which is then
    /// closed.
    Piped(Vec<u8>),
}

/// One program invocation, described declaratively.
#[derive(Debug)]
pub struct Command {
    /// Program name, resolved inside the environment.
    pub program: Vec<u8>,
    /// Arguments, in order, passed as an exact argument vector.
    pub args: Vec<Vec<u8>>,
    /// The identity the program runs under.
    pub user: Identity,
    /// Optional payload for the child's standard input.
    pub stdin: Option<Vec<u8>>,
    /// Explicit `NAME=value` environment overrides; nothing ambient is
    /// passed through.
    pub env_vars: Vec<Vec<u8>>,
}

/// Everything the environment's runtime needs to run one command: the full
/// argument vector (program first), acting identity, input policy, explicit
/// environment and the safety timeout.
pub struct ExecRequest {
    pub argv: Vec<Vec<u8>>,
    pub user: Identity,
    pub stdin: StdinMode,
    pub env_vars: Vec<Vec<u8>>,
    pub timeout_millis: u64,
}

/// The argument vector a command stands for: the program name followed by
/// the declared arguments, each byte for byte.
pub open spec fn spec_argv(c: Command) -> Seq<Seq<u8>> {
    seq![c.program@] + c.args.deep_view()
}

/// The byte views of a list of string arguments.
pub open spec fn spec_bytes_of_all(l: Seq<&str>) -> Seq<Seq<u8>> {
    l.map_values(|s: &str| s.spec_bytes())
}

/// Two identities denote the same acting user.
pub open spec fn spec_same_identity(a: Identity, b: Identity) -> bool {
    match (a, b) {
        (Identity::Superuser, Identity::Superuser) => true,
        (Identity::Named(x), Identity::Named(y)) => x@ == y@,
        _ => false,
    }
}

fn copy_identity(u: &Identity) -> (r: Identity)
    ensures
        spec_same_identity(r, *u),
{
    match u {
        Identity::Superuser => Identity::Superuser,
        Identity::Named(n) => Identity::Named(copy_bytes(n)),
    }
}

impl Command {
    /// A command running `program` with no arguments, as the superuser,
    /// with standard input closed and no environment overrides.
    pub fn new(program: &str) -> (r: Command)
        ensures
            r.program@ == program.spec_bytes(),
            r.args.deep_view() == Seq::<Seq<u8>>::empty(),
            r.user is Superuser,
            r.stdin is None,
            r.env_vars.deep_view() == Seq::<Seq<u8>>::empty(),
    {
        let r = Command {
            program: program.as_bytes_vec(),
            args: Vec::new(),
            user: Identity::Superuser,
            stdin: None,
            env_vars: Vec::new(),
        };
        proof {
            assert(r.args.deep_view() =~~= Seq::<Seq<u8>>::empty());
            assert(r.env_vars.deep_view() =~~= Seq::<Seq<u8>>::empty());
        }
        r
    }

    /// Append one argument.
    pub fn arg(self, a: &str) -> (r: Command)
        ensures
            r.args.deep_view() == self.args.deep_view().push(a.spec_bytes()),
            r.program == self.program,
            r.user == self.user,
            r.stdin == self.stdin,
            r.env_vars == self.env_vars,
    {
        let mut args = self.args;
        args.push(a.as_bytes_vec());
        proof {
            assert(args.deep_view() =~~= self.args.deep_view().push(a.spec_bytes()));
        }
        Command { args, ..self }
    }

    /// Append a list of arguments, in order.
    pub fn args(self, list: &[&str]) -> (r: Command)
        ensures
            r.args.deep_view() == self.args.deep_view() + spec_bytes_of_all(list@),
            r.program == self.program,
            r.user == self.user,
            r.stdin == self.stdin,
            r.env_vars == self.env_vars,
    {
        let mut c = self;
        let ghost orig = c.args.deep_view();
        let mut i: usize = 0;
        proof {
            assert(orig + spec_bytes_of_all(list@.subrange(0, 0)) =~~= orig);
        }
        while i < list.len()
            invariant
                i <= list@.len(),
                c.args.deep_view() == orig + spec_bytes_of_all(list@.subrange(0, i as int)),
                c.program == self.program,
                c.user == self.user,
                c.stdin == self.stdin,
                c.env_vars == self.env_vars,
            decreases list@.len() - i,
        {
            c = c.arg(list[i]);
            proof {
                assert(spec_bytes_of_all(list@.subrange(0, i + 1)) =~~= spec_bytes_of_all(
                    list@.subrange(0, i as int),
                ).push(list@[i as int].spec_bytes()));
                assert(c.args.deep_view() =~~= orig + spec_bytes_of_all(list@.subrange(0, i + 1)));
            }
            i = i + 1;
        }
        proof {
            assert(list@.subrange(0, list@.len() as int) =~= list@);
        }
        c
    }

    /// Run the command as the named user instead of the superuser.
    pub fn as_user(self, name: &str) -> (r: Command)
        ensures
            r.user is Named && r.user->0@ == name.spec_bytes(),
            r.program == self.program,
            r.args == self.args,
            r.stdin == self.stdin,
            r.env_vars == self.env_vars,
    {
        Command { user: Identity::Named(name.as_bytes_vec()), ..self }
    }

    /// Provide a standard-input payload for the child.
    pub fn stdin(self, payload: &str) -> (r: Command)
        ensures
            r.stdin is Some && r.stdin->0@ == payload.spec_bytes(),
            r.program == self.program,
            r.args == self.args,
            r.user == self.user,
            r.env_vars == self.env_vars,
    {
        Command { stdin: Some(payload.as_bytes_vec()), ..self }
    }

    /// Add one explicit `NAME=value` environment override.
    pub fn env_override(self, entry: &str) -> (r: Command)
        ensures
            r.env_vars.deep_view() == self.env_vars.deep_view().push(entry.spec_bytes()),
            r.program == self.program,
            r.args == self.args,
            r.user == self.user,
            r.stdin == self.stdin,
    {
        let mut env_vars = self.env_vars;
        env_vars.push(entry.as_bytes_vec());
        proof {
            assert(env_vars.deep_view() =~~= self.env_vars.deep_view().push(entry.spec_bytes()));
        }
        Command { env_vars, ..self }
    }

    /// The execution request this command stands for. The argument vector
    /// is the declared one, verbatim; standard input is piped exactly when
    /// a payload was declared and closed otherwise; the safety timeout is
    /// always set.
    pub fn exec_request(&self) -> (r: ExecRequest)
        ensures
            r.argv.deep_view() == spec_argv(*self),
            spec_same_identity(r.user, self.user),
            self.stdin is Some ==> r.stdin is Piped && r.stdin->0@ == self.stdin->0@,
            self.stdin is None ==> r.stdin is Closed,
            r.env_vars.deep_view() == self.env_vars.deep_view(),
            r.timeout_millis == DEFAULT_TIMEOUT_MILLIS,
    {
        let mut argv: Vec<Vec<u8>> = Vec::new();
        argv.push(copy_bytes(&self.program));
        proof {
            assert(argv.deep_view() =~~= seq![self.program@] + self.args.deep_view().subrange(
                0,
                0,
            ));
        }
        let mut i: usize = 0;
        while i < self.args.len()
            invariant
                i <= self.args@.len(),
                argv.deep_view() == seq![self.program@] + self.args.deep_view().subrange(
                    0,
                    i as int,
                ),
            decreases self.args@.len() - i,
        {
            let ghost before = argv.deep_view();
            argv.push(copy_bytes(&self.args[i]));
            proof {
                assert(self.args@[i as int].deep_view() =~= self.args@[i as int]@);
                assert(argv.deep_view() =~~= before.push(self.args.deep_view()[i as int]));
                assert(argv.deep_view() =~~= seq![self.program@] + self.args.deep_view().subrange(
                    0,
                    i + 1,
                ));
            }
            i = i + 1;
        }
        proof {
            assert(self.args.deep_view().subrange(0, self.args@.len() as int) =~~=
            self.args.deep_view());
        }
        let stdin = match &self.stdin {
            Some(p) => StdinMode::Piped(copy_bytes(p)),
            None => StdinMode::Closed,
        };
        let mut env_vars: Vec<Vec<u8>> = Vec::new();
        let mut j: usize = 0;
        proof {
            assert(env_vars.deep_view() =~~= self.env_vars.deep_view().subrange(0, 0));
        }
        while j < self.env_vars.len()
            invariant
                j <= self.env_vars@.len(),
                env_vars.deep_view() == self.env_vars.deep_view().subrange(0, j as int),
            decreases self.env_vars@.len() - j,
        {
            let ghost before = env_vars.deep_view();
            env_vars.push(copy_bytes(&self.env_vars[j]));
            proof {
                assert(self.env_vars@[j as int].deep_view() =~= self.env_vars@[j as int]@);
                assert(env_vars.deep_view() =~~= before.push(self.env_vars.deep_view()[j as int]));
                assert(env_vars.deep_view() =~~= self.env_vars.deep_view().subrange(0, j + 1));
            }
            j = j + 1;
        }
        proof {
            assert(self.env_vars.deep_view().subrange(0, self.env_vars@.len() as int) =~~=
            self.env_vars.deep_view());
        }
        ExecRequest {
            argv,
            user: copy_identity(&self.user),
            stdin,
            env_vars,
            timeout_millis: DEFAULT_TIMEOUT_MILLIS,
        }
    }
}

/// The two-byte option separator `--`.
pub open spec fn spec_separator() -> Seq<u8> {
    seq![45u8, 45u8]
}

/// Arguments are never reinterpreted on their way to the program: the
/// argument vector of the execution request holds every declared argument
/// verbatim at its declared position, after the program name. In
/// particular, everything declared after a literal `--` separator — even
/// an option-shaped argument — is handed through unchanged, not consumed
/// or reordered by the harness.
pub proof fn lemma_argv_is_verbatim(c: Command, j: int)
    requires
        0 <= j < c.args.deep_view().len(),
    ensures
        spec_argv(c).len() == c.args.deep_view().len() + 1,
        spec_argv(c)[0] == c.program@,
        spec_argv(c)[j + 1] == c.args.deep_view()[j],
{
}

/// Everything after a `--` separator stays behind it: the separator keeps
/// its own position in the request, and each following argument keeps both
/// its bytes and its place after the separator.
pub proof fn lemma_separator_shields_following_args(c: Command, s: int, j: int)
    requires
        0 <= s < c.args.deep_view().len(),
        c.args.deep_view()[s] == spec_separator(),
        s < j < c.args.deep_view().len(),
    ensures
        spec_argv(c)[s + 1] == spec_separator(),
        spec_argv(c)[j + 1] == c.args.deep_view()[j],
        j + 1 > s + 1,
{
}

} // verus!
