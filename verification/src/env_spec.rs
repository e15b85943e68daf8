//! Immutable declarations of desired on-disk state and users: a text file
//! with contents, permission mode, ownership and a trailing-newline policy;
//! a user with an optional password and numeric id; and the environment
//! spec that gathers file declarations, user declarations and raw
//! authentication-stack overrides.
//!
//! Builders only record; nothing is interpreted here. Mode and ownership
//! texts are taken verbatim and rejected, if malformed, when the spec is
//! validated at building time.

use crate::bytes::first_byte;
use vstd::prelude::*;
use vstd::string::StrSliceExecFns;
use vstd::string::StringSliceAdditionalSpecFns;

verus! {

/// The byte a mode text may start octal digits with.
pub open spec fn is_octal_digit(b: u8) -> bool {
    48 <= b <= 55
}

/// Every byte of `s` is an octal digit.
pub open spec fn all_octal_digits(s: Seq<u8>) -> bool {
    forall|i: int| 0 <= i < s.len() ==> is_octal_digit(#[trigger] s[i])
}

/// The value of `s` read as an octal numeral.
pub open spec fn octal_value(s: Seq<u8>) -> nat
    decreases s.len(),
{
    if s.len() == 0 {
        0
    } else {
        octal_value(s.drop_last()) * 8 + (s.last() - 48) as nat
    }
}

/// A well-formed permission text: one to four octal digits, so the value
/// is at most `0o7777`.
pub open spec fn spec_mode_text_ok(s: Seq<u8>) -> bool {
    1 <= s.len() <= 4 && all_octal_digits(s)
}

proof fn lemma_octal_value_bound(s: Seq<u8>, max: nat)
    requires
        all_octal_digits(s),
        s.len() <= max,
    ensures
        octal_value(s) < pow8(max),
    decreases s.len(),
{
    if s.len() == 0 {
        assert(pow8(max) >= 1) by {
            lemma_pow8_pos(max);
        }
    } else {
        let d = s.drop_last();
        assert(all_octal_digits(d));
        lemma_octal_value_bound(d, (max - 1) as nat);
        assert(octal_value(d) <= pow8((max - 1) as nat) - 1);
        assert(octal_value(d) * 8 <= (pow8((max - 1) as nat) - 1) * 8) by (nonlinear_arith)
            requires
                octal_value(d) <= pow8((max - 1) as nat) - 1,
        ;
        assert((s.last() - 48) as nat <= 7);
        assert(pow8(max) == pow8((max - 1) as nat) * 8);
    }
}

spec fn pow8(n: nat) -> nat
    decreases n,
{
    if n == 0 {
        1
    } else {
        pow8((n - 1) as nat) * 8
    }
}

proof fn lemma_pow8_pos(n: nat)
    ensures
        pow8(n) >= 1,
    decreases n,
{
    if n > 0 {
        lemma_pow8_pos((n - 1) as nat);
    }
}

/// Parse a permission text: one to four octal digits.
pub fn parse_mode(s: &[u8]) -> (r: Option<u32>)
    ensures
        r is Some <==> spec_mode_text_ok(s@),
        r is Some ==> r->0 == octal_value(s@) && r->0 <= 0o7777u32,
{
    if s.len() == 0 || s.len() > 4 {
        return None;
    }
    let mut acc: u32 = 0;
    let mut i: usize = 0;
    proof {
        assert(s@.subrange(0, 0) =~= Seq::<u8>::empty());
    }
    while i < s.len()
        invariant
            i <= s@.len(),
            1 <= s@.len() <= 4,
            all_octal_digits(s@.subrange(0, i as int)),
            acc == octal_value(s@.subrange(0, i as int)),
            acc <= 0o7777u32,
        decreases s@.len() - i,
    {
        let b = s[i];
        if b < 48 || b > 55 {
            return None;
        }
        let ghost pre = s@.subrange(0, i as int);
        let ghost ext = s@.subrange(0, i + 1);
        proof {
            assert(ext.drop_last() =~= pre);
            assert(ext.last() == s@[i as int]);
            assert forall|j: int| 0 <= j < ext.len() implies is_octal_digit(ext[j]) by {
                if j < i {
                    assert(ext[j] == pre[j]);
                }
            }
            lemma_octal_value_bound(ext, 4);
            assert(pow8(0) == 1);
            assert(pow8(1) == 8);
            assert(pow8(2) == 64);
            assert(pow8(3) == 512);
            assert(pow8(4) == 4096);
        }
        acc = acc * 8 + ((b - 48) as u32);
        i = i + 1;
    }
    proof {
        assert(s@.subrange(0, s@.len() as int) =~= s@);
    }
    Some(acc)
}

/// A declared text file: contents, permission mode text, ownership text
/// and the trailing-newline policy. The mode and ownership are recorded
/// verbatim and validated at building time.
#[derive(Debug)]
pub struct TextFile {
    /// Raw contents, before the trailing-newline policy is applied.
    pub contents: Vec<u8>,
    /// Permission mode as octal digits, for example `644`.
    pub mode_text: Vec<u8>,
    /// `owner` or `owner:group`; names or numeric ids, as the environment
    /// resolves them.
    pub owner_text: Vec<u8>,
    /// Whether building guarantees the materialized contents end with a
    /// line feed.
    pub trailing_newline: bool,
}

/// The default permission text for a declared file: `644`.
pub open spec fn spec_default_mode_text() -> Seq<u8> {
    seq![54u8, 52u8, 52u8]
}

/// The superuser's name, `root`, as bytes.
pub open spec fn spec_superuser_name() -> Seq<u8> {
    seq![114u8, 111u8, 111u8, 116u8]
}

fn default_mode_text() -> (r: Vec<u8>)
    ensures
        r@ == spec_default_mode_text(),
{
    let mut r: Vec<u8> = Vec::new();
    r.push(54);
    r.push(52);
    r.push(52);
    proof {
        assert(r@ =~= spec_default_mode_text());
    }
    r
}

/// The superuser's name as an owned byte string.
pub fn superuser_name() -> (r: Vec<u8>)
    ensures
        r@ == spec_superuser_name(),
{
    let mut r: Vec<u8> = Vec::new();
    r.push(114);
    r.push(111);
    r.push(111);
    r.push(116);
    proof {
        assert(r@ =~= spec_superuser_name());
    }
    r
}

impl TextFile {
    /// A file with the given contents, mode `644`, owned by the superuser,
    /// with a trailing line feed guaranteed.
    pub fn new(contents: &str) -> (r: TextFile)
        ensures
            r.contents@ == contents.spec_bytes(),
            r.mode_text@ == spec_default_mode_text(),
            r.owner_text@ == spec_superuser_name(),
            r.trailing_newline,
    {
        TextFile {
            contents: contents.as_bytes_vec(),
            mode_text: default_mode_text(),
            owner_text: superuser_name(),
            trailing_newline: true,
        }
    }

    /// Replace the permission text; octal digits, for example `446`.
    pub fn chmod(self, mode: &str) -> (r: TextFile)
        ensures
            r.mode_text@ == mode.spec_bytes(),
            r.contents == self.contents,
            r.owner_text == self.owner_text,
            r.trailing_newline == self.trailing_newline,
    {
        TextFile { mode_text: mode.as_bytes_vec(), ..self }
    }

    /// Replace the ownership text: `owner` or `owner:group`.
    pub fn chown(self, owner: &str) -> (r: TextFile)
        ensures
            r.owner_text@ == owner.spec_bytes(),
            r.contents == self.contents,
            r.mode_text == self.mode_text,
            r.trailing_newline == self.trailing_newline,
    {
        TextFile { owner_text: owner.as_bytes_vec(), ..self }
    }

    /// Materialize the contents exactly as given, without guaranteeing a
    /// final line feed.
    pub fn no_trailing_newline(self) -> (r: TextFile)
        ensures
            !r.trailing_newline,
            r.contents == self.contents,
            r.mode_text == self.mode_text,
            r.owner_text == self.owner_text,
    {
        TextFile { trailing_newline: false, ..self }
    }
}

/// A declared user, existing only within its owning environment.
#[derive(Debug)]
pub struct UserDecl {
    pub name: Vec<u8>,
    /// Clear-text password applied at provisioning time, if any.
    pub password: Option<Vec<u8>>,
    /// Explicit numeric id, if any.
    pub id: Option<u32>,
}

impl UserDecl {
    /// A user with the given name, no password and no explicit id.
    pub fn new(name: &str) -> (r: UserDecl)
        ensures
            r.name@ == name.spec_bytes(),
            r.password is None,
            r.id is None,
    {
        UserDecl { name: name.as_bytes_vec(), password: None, id: None }
    }

    /// Give the user a password.
    pub fn password(self, p: &str) -> (r: UserDecl)
        ensures
            r.password is Some && r.password->0@ == p.spec_bytes(),
            r.name == self.name,
            r.id == self.id,
    {
        UserDecl { password: Some(p.as_bytes_vec()), ..self }
    }

    /// Give the user an explicit numeric id.
    pub fn with_id(self, id: u32) -> (r: UserDecl)
        ensures
            r.id == Some(id),
            r.name == self.name,
            r.password == self.password,
    {
        UserDecl { id: Some(id), ..self }
    }
}

/// One declared file with its target path.
#[derive(Debug)]
pub struct FileDecl {
    pub path: Vec<u8>,
    pub file: TextFile,
}

/// A raw replacement for one authentication-stack configuration file,
/// written verbatim before any command runs.
#[derive(Debug)]
pub struct AuthOverride {
    pub path: Vec<u8>,
    pub contents: Vec<u8>,
}

/// The declarative description of one environment: the privileged-execution
/// configuration file, further files, users, and authentication-stack
/// overrides. Built once; immutable thereafter.
#[derive(Debug)]
pub struct Env {
    /// The privileged-execution tool's configuration artifact; its grammar
    /// is opaque to the harness.
    pub sudoers: TextFile,
    pub files: Vec<FileDecl>,
    pub users: Vec<UserDecl>,
    pub auth_overrides: Vec<AuthOverride>,
}

/// The declared target paths, files first, then overrides, in order.
pub open spec fn spec_decl_paths(e: Env) -> Seq<Seq<u8>> {
    e.files@.map_values(|d: FileDecl| d.path@) + e.auth_overrides@.map_values(
        |o: AuthOverride| o.path@,
    )
}

/// The declared user names, in order.
pub open spec fn spec_user_names(e: Env) -> Seq<Seq<u8>> {
    e.users@.map_values(|u: UserDecl| u.name@)
}

impl Env {
    /// An environment holding only the given privileged-execution
    /// configuration.
    pub fn new(sudoers: TextFile) -> (r: Env)
        ensures
            r.sudoers == sudoers,
            r.files@ == Seq::<FileDecl>::empty(),
            r.users@ == Seq::<UserDecl>::empty(),
            r.auth_overrides@ == Seq::<AuthOverride>::empty(),
    {
        Env { sudoers, files: Vec::new(), users: Vec::new(), auth_overrides: Vec::new() }
    }

    /// Declare one file at the given path.
    pub fn file(self, path: &str, file: TextFile) -> (r: Env)
        ensures
            r.files@.len() == self.files@.len() + 1,
            r.files@.last().path@ == path.spec_bytes(),
            r.files@.last().file == file,
            r.files@.drop_last() == self.files@,
            r.sudoers == self.sudoers,
            r.users == self.users,
            r.auth_overrides == self.auth_overrides,
    {
        let mut files = self.files;
        files.push(FileDecl { path: path.as_bytes_vec(), file });
        proof {
            assert(files@.drop_last() =~= self.files@);
        }
        Env { files, ..self }
    }

    /// Declare one user.
    pub fn user(self, user: UserDecl) -> (r: Env)
        ensures
            r.users@.len() == self.users@.len() + 1,
            r.users@.last() == user,
            r.users@.drop_last() == self.users@,
            r.sudoers == self.sudoers,
            r.files == self.files,
            r.auth_overrides == self.auth_overrides,
    {
        let mut users = self.users;
        users.push(user);
        proof {
            assert(users@.drop_last() =~= self.users@);
        }
        Env { users, ..self }
    }

    /// Fully replace one authentication-stack configuration file.
    pub fn auth_override(self, path: &str, contents: &str) -> (r: Env)
        ensures
            r.auth_overrides@.len() == self.auth_overrides@.len() + 1,
            r.auth_overrides@.last().path@ == path.spec_bytes(),
            r.auth_overrides@.last().contents@ == contents.spec_bytes(),
            r.auth_overrides@.drop_last() == self.auth_overrides@,
            r.sudoers == self.sudoers,
            r.files == self.files,
            r.users == self.users,
    {
        let mut auth_overrides = self.auth_overrides;
        auth_overrides.push(
            AuthOverride { path: path.as_bytes_vec(), contents: contents.as_bytes_vec() },
        );
        proof {
            assert(auth_overrides@.drop_last() =~= self.auth_overrides@);
        }
        Env { auth_overrides, ..self }
    }
}

/// The owner part of an ownership text: everything before the first colon,
/// or the whole text if there is none.
pub open spec fn spec_owner_of(s: Seq<u8>) -> Seq<u8> {
    s.subrange(0, first_byte(s, 58u8))
}

/// The group part of an ownership text: everything after the first colon,
/// or the superuser's own group when no group is named.
pub open spec fn spec_group_of(s: Seq<u8>) -> Seq<u8> {
    if first_byte(s, 58u8) == s.len() {
        spec_superuser_name()
    } else {
        s.subrange(first_byte(s, 58u8) + 1, s.len() as int)
    }
}

/// A well-formed ownership text: a nonempty owner, and a nonempty group
/// when a colon introduces one.
pub open spec fn spec_owner_text_ok(s: Seq<u8>) -> bool {
    spec_owner_of(s).len() > 0 && spec_group_of(s).len() > 0
}

/// Split an ownership text into owner and group.
pub fn split_owner(s: &[u8]) -> (r: (Vec<u8>, Vec<u8>))
    ensures
        r.0@ == spec_owner_of(s@),
        r.1@ == spec_group_of(s@),
{
    let k = crate::bytes::find_byte(s, 58);
    let owner = vstd::slice::slice_to_vec(vstd::slice::slice_subrange(s, 0, k));
    proof {
        assert(owner@ =~= spec_owner_of(s@));
    }
    if k == s.len() {
        (owner, superuser_name())
    } else {
        let group = vstd::slice::slice_to_vec(vstd::slice::slice_subrange(s, k + 1, s.len()));
        proof {
            assert(group@ =~= spec_group_of(s@));
        }
        (owner, group)
    }
}

/// The contents a declaration materializes: the declared bytes, plus one
/// final line feed where the trailing-newline policy asks for one that is
/// not already there.
pub open spec fn spec_effective_contents(c: Seq<u8>, trailing_newline: bool) -> Seq<u8> {
    if trailing_newline && (c.len() == 0 || c.last() != 10u8) {
        c.push(10u8)
    } else {
        c
    }
}

/// Apply the trailing-newline policy to declared contents.
pub fn effective_contents(f: &TextFile) -> (r: Vec<u8>)
    ensures
        r@ == spec_effective_contents(f.contents@, f.trailing_newline),
{
    let mut r = crate::bytes::copy_bytes(&f.contents);
    if f.trailing_newline && (r.len() == 0 || r[r.len() - 1] != 10u8) {
        r.push(10);
    }
    r
}

} // verus!
