//! Expectations for permission fault injection on the privileged-execution
//! configuration file.
//!
//! The harness writes the configuration artifact with whatever mode and
//! ownership a test declares; a defensive tool must refuse to run at all
//! when the file is world-writable, group-writable or not owned by the
//! superuser. This module fixes that expectation as a function of the
//! declared permission bits and owner, so test bodies state which outcome
//! they provoke instead of re-deriving it.

use vstd::prelude::*;

verus! {

/// The write bit of one octal permission digit.
pub open spec fn spec_digit_has_write(d: u32) -> bool {
    (d / 2) % 2 == 1
}

/// Anyone may write: the write bit of the last permission digit.
pub open spec fn spec_world_writable(mode: u32) -> bool {
    spec_digit_has_write(mode % 8)
}

/// The owning group may write: the write bit of the middle permission
/// digit.
pub open spec fn spec_group_writable(mode: u32) -> bool {
    spec_digit_has_write((mode / 8) % 8)
}

/// How a defensive tool must judge its configuration file.
#[derive(Clone, Copy, Debug, PartialEq, Eq, Structural)]
pub enum SudoersVerdict {
    /// The file is acceptable; invocations may succeed.
    Accepted,
    /// The file is world-writable; every invocation must fail.
    WorldWritable,
    /// The file is group-writable; every invocation must fail.
    GroupWritable,
    /// The file is not owned by the superuser and its group; every
    /// invocation must fail.
    WrongOwner,
}

/// The verdict a tool under test is expected to reach for a configuration
/// file with these permission bits and this numeric owner and group.
pub open spec fn spec_verdict(mode: u32, uid: u32, gid: u32) -> SudoersVerdict {
    if spec_world_writable(mode) {
        SudoersVerdict::WorldWritable
    } else if spec_group_writable(mode) {
        SudoersVerdict::GroupWritable
    } else if uid != 0 || gid != 0 {
        SudoersVerdict::WrongOwner
    } else {
        SudoersVerdict::Accepted
    }
}

/// Compute the expected verdict.
pub fn sudoers_verdict(mode: u32, uid: u32, gid: u32) -> (r: SudoersVerdict)
    ensures
        r == spec_verdict(mode, uid, gid),
{
    if (mode % 8) / 2 % 2 == 1 {
        SudoersVerdict::WorldWritable
    } else if ((mode / 8) % 8) / 2 % 2 == 1 {
        SudoersVerdict::GroupWritable
    } else if uid != 0 || gid != 0 {
        SudoersVerdict::WrongOwner
    } else {
        SudoersVerdict::Accepted
    }
}

/// The exit code every invocation of the tool must show under the given
/// ruling — the conventional failure code unless the file is acceptable.
pub open spec fn spec_expected_exit(v: SudoersVerdict) -> i32 {
    if v is Accepted {
        0i32
    } else {
        1i32
    }
}

/// Compute the expected exit code.
pub fn expected_exit(v: SudoersVerdict) -> (r: i32)
    ensures
        r == spec_expected_exit(v),
{
    match v {
        SudoersVerdict::Accepted => 0,
        _ => 1,
    }
}

/// A writable or wrongly owned configuration file defeats every
/// invocation: whatever the rest of the bits and the owner, the expected
/// exit code is the failure code.
pub proof fn lemma_unsafe_config_always_rejected(mode: u32, uid: u32, gid: u32)
    requires
        spec_world_writable(mode) || spec_group_writable(mode) || uid != 0 || gid != 0,
    ensures
        !(spec_verdict(mode, uid, gid) is Accepted),
        spec_expected_exit(spec_verdict(mode, uid, gid)) == 1i32,
{
}

/// A configuration file without group or world write bits, owned by the
/// superuser, is accepted: invocations are expected to succeed.
pub proof fn lemma_secure_config_accepted(mode: u32, uid: u32, gid: u32)
    requires
        !spec_world_writable(mode),
        !spec_group_writable(mode),
        uid == 0,
        gid == 0,
    ensures
        spec_verdict(mode, uid, gid) is Accepted,
        spec_expected_exit(spec_verdict(mode, uid, gid)) == 0i32,
{
}

} // verus!
