//! The directory to mount at.

use libc::{c_int, mode_t};
use vstd::prelude::*;

use crate::outside::{directory_type, file_type_mask};

verus! {

/// The access mode of a mount point that the module makes.
pub const MOUNT_POINT_MODE: mode_t = 0o700;

/// How far making sure of a directory has come.
#[derive(Clone, Copy, Debug, PartialEq, Eq, Structural)]
pub enum DirPhase {
    /// The path is looked at.
    Stat,
    /// The directory is made.
    Mkdir,
    /// Nothing more: whether the directory is there.
    Done(bool),
}

/// What came of a step.
#[derive(Clone, Copy, Debug, PartialEq, Eq, Structural)]
pub enum DirReply {
    /// What looking at the path returned, and the file mode it reported.
    Stat { rc: c_int, mode: mode_t },
    /// What making the directory returned.
    Mkdir(c_int),
}

/// Whether a file mode is that of a directory.
pub open spec fn is_directory(mode: mode_t) -> bool {
    mode & 0o170000 == 0o040000
}

/// The phase that follows. A reply to another phase changes nothing.
pub open spec fn dir_next(phase: DirPhase, reply: DirReply) -> DirPhase {
    match (phase, reply) {
        (DirPhase::Stat, DirReply::Stat { rc, mode }) => if rc == 0 {
            DirPhase::Done(is_directory(mode))
        } else {
            DirPhase::Mkdir
        },
        (DirPhase::Mkdir, DirReply::Mkdir(rc)) => DirPhase::Done(rc == 0),
        _ => phase,
    }
}

/// Takes making sure of a directory one step on. What is there and is no
/// directory is left alone, and what is not there is made.
pub fn ensure_dir(phase: DirPhase, reply: DirReply) -> (r: DirPhase)
    ensures
        r == dir_next(phase, reply),
{
    match (phase, reply) {
        (DirPhase::Stat, DirReply::Stat { rc, mode }) => {
            if rc == 0 {
                DirPhase::Done((mode & file_type_mask()) == directory_type())
            } else {
                DirPhase::Mkdir
            }
        },
        (DirPhase::Mkdir, DirReply::Mkdir(rc)) => DirPhase::Done(rc == 0),
        _ => phase,
    }
}

/// A file mode is that of a directory whatever its permissions are, and that of
/// any other kind of file is not.
pub proof fn law_is_directory(kind: mode_t, permissions: mode_t)
    requires
        kind < 16,
        permissions < 0o10000,
    ensures
        is_directory((kind * 0o10000 + permissions) as mode_t) <==> kind == 4,
{
    let mode = (kind * 0o10000 + permissions) as u32;
    assert((mode & 0o170000 == 0o040000) <==> kind == 4) by (bit_vector)
        requires
            kind < 16,
            permissions < 0o10000,
            mode == kind * 0o10000 + permissions,
    ;
}

/// There is a directory in the end if and only if one was there, or nothing was
/// there and one could be made. Nothing is made where something is.
pub proof fn law_ensure_dir(rc: c_int, mode: mode_t, made: c_int)
    ensures
        ({
            let first = dir_next(DirPhase::Stat, DirReply::Stat { rc, mode });
            let last = dir_next(first, DirReply::Mkdir(made));
            &&& first == DirPhase::Mkdir <==> rc != 0
            &&& last == DirPhase::Done(
                if rc == 0 {
                    mode & 0o170000 == 0o040000
                } else {
                    made == 0
                },
            )
        }),
        MOUNT_POINT_MODE == 0o700,
{
}

} // verus!
