//! Mounting and unmounting in a helper process.

use libc::{c_int, mode_t, pid_t};
use vstd::prelude::*;
use vstd::string::*;

use crate::config::{
    file_in, file_lines, flags_of, is_flag, is_option, law_path_in, opt_bytes, options_of,
    path_in, read_mount_options, Paths,
};
use crate::files::MOUNT_POINT_MODE;
use crate::hooks::Site;
use crate::notice::Notice;
use crate::outside::close_on_exec;
use crate::text::{
    decimal, law_strings, lemma_until_nul_whole, signed_decimal, strings, to_signed_decimal, until_nul,
};
use crate::wait::{helper_wait, Wait, HELPER_TIMEOUT_SECS};

verus! {

/// A program and the arguments it is started with, its own name first.
#[derive(Debug)]
pub struct Command {
    pub bin: String,
    pub argv: Vec<String>,
}

impl Command {
    /// This starts `bin` with the arguments `argv`.
    pub open spec fn starts(self, bin: Seq<char>, argv: Seq<Seq<char>>) -> bool {
        &&& self.bin@ == bin
        &&& strings(self.argv@) == argv
    }
}

/// Adds a text to a list.
fn push_text(list: &mut Vec<String>, text: &str)
    ensures
        strings(final(list)@) == strings(old(list)@).push(text@),
{
    list.push(text.to_owned());
    assert(strings(list@) =~= strings(old(list)@).push(text@));
}

/// Adds texts to a list.
fn push_texts(list: &mut Vec<String>, more: &Vec<String>)
    ensures
        strings(final(list)@) == strings(old(list)@) + strings(more@),
{
    let ghost start = strings(list@);
    assert(start + strings(more@).take(0) =~= start);
    for i in 0..more.len()
        invariant
            strings(list@) == start + strings(more@).take(i as int),
    {
        push_text(list, more[i].as_str());
        assert(start + strings(more@).take(i + 1) =~= (start + strings(more@).take(
            i as int,
        )).push(more@[i as int]@));
    }
    assert(strings(more@).take(more@.len() as int) =~= strings(more@));
}

/// The arguments of gocryptfs when it mounts: it reads the passphrase from the
/// descriptor `read_fd`, and has the options before the two directories.
pub open spec fn mount_argv(
    read_fd: c_int,
    file_options: Seq<Seq<char>>,
    config_options: Seq<Seq<char>>,
    cipher_dir: Seq<char>,
    mountpoint: Seq<char>,
) -> Seq<Seq<char>> {
    seq!["gocryptfs"@, "-q"@, "-passfile"@, "/proc/self/fd/"@ + signed_decimal(read_fd as int)]
        + file_options + config_options + seq![cipher_dir, mountpoint]
}

/// The command that mounts, given the contents of the options file and the
/// options that the user has configured.
pub fn mount_command(
    read_fd: c_int,
    options_file: Option<&Vec<u8>>,
    config_options: &Vec<String>,
    paths: &Paths,
) -> (r: Command)
    ensures
        r.starts(
            "/usr/bin/gocryptfs"@,
            mount_argv(
                read_fd,
                options_of(file_lines(opt_bytes(options_file))),
                strings(config_options@),
                paths.cipher_dir@,
                paths.mountpoint@,
            ),
        ),
{
    let mut argv: Vec<String> = Vec::new();
    push_text(&mut argv, "gocryptfs");
    push_text(&mut argv, "-q");
    push_text(&mut argv, "-passfile");
    let mut passfile = "/proc/self/fd/".to_owned();
    let fd = to_signed_decimal(read_fd);
    passfile.append(fd.as_str());
    push_text(&mut argv, passfile.as_str());
    read_mount_options(options_file, &mut argv);
    push_texts(&mut argv, config_options);
    push_text(&mut argv, paths.cipher_dir.as_str());
    push_text(&mut argv, paths.mountpoint.as_str());
    assert(strings(argv@) =~= mount_argv(
        read_fd,
        options_of(file_lines(opt_bytes(options_file))),
        strings(config_options@),
        paths.cipher_dir@,
        paths.mountpoint@,
    ));
    Command { bin: "/usr/bin/gocryptfs".to_owned(), argv }
}

/// How far mounting has come. Descriptors and process numbers are those that
/// earlier steps brought.
#[derive(Clone, Copy, Debug, PartialEq, Eq, Structural)]
pub enum MountPhase {
    /// The configuration of the file system is looked for.
    Conf,
    /// The mount point is made sure of.
    Dir,
    /// The pipe with the passphrase is made.
    Pipe,
    /// The helper process is started.
    Fork { read_fd: c_int, write_fd: c_int },
    /// This is the helper process.
    Helper { read_fd: c_int, write_fd: c_int },
    /// The helper is waited for.
    Wait { read_fd: c_int, write_fd: c_int, pid: pid_t },
    /// The read end of the pipe is closed.
    CloseRead { read_fd: c_int, write_fd: c_int },
    /// The write end of the pipe is closed.
    CloseWrite { write_fd: c_int },
    /// Nothing more.
    Done,
}

/// What came of a step.
#[derive(Clone, Copy, Debug, PartialEq, Eq, Structural)]
pub enum MountReply {
    /// Whether the file or the directory is there.
    Exists(bool),
    /// The ends of the pipe.
    Pipe { read_fd: c_int, write_fd: c_int },
    /// There is no pipe.
    NoPipe,
    /// What starting the helper process returned.
    Forked(pid_t),
    /// The helper ended with this status.
    Exited(c_int),
    /// The helper was lost or did not end in time.
    GaveUp,
    /// The step is done.
    Done,
}

/// What a step of mounting is.
#[derive(Debug)]
pub enum MountRequest {
    FileExists(String),
    EnsureDir(String, mode_t),
    MakePassPipe,
    Fork,
    BecomeHelper { read_fd: c_int, write_fd: c_int },
    Wait(Wait),
    Close(c_int),
    Finished,
}

/// The phase that follows. A reply to another phase changes nothing.
pub open spec fn mount_next(phase: MountPhase, reply: MountReply) -> MountPhase {
    match (phase, reply) {
        (MountPhase::Conf, MountReply::Exists(there)) => if there {
            MountPhase::Dir
        } else {
            MountPhase::Done
        },
        (MountPhase::Dir, MountReply::Exists(there)) => if there {
            MountPhase::Pipe
        } else {
            MountPhase::Done
        },
        (MountPhase::Pipe, MountReply::Pipe { read_fd, write_fd }) => MountPhase::Fork {
            read_fd,
            write_fd,
        },
        (MountPhase::Pipe, MountReply::NoPipe) => MountPhase::Done,
        (MountPhase::Fork { read_fd, write_fd }, MountReply::Forked(pid)) => if pid < 0 {
            MountPhase::CloseRead { read_fd, write_fd }
        } else if pid == 0 {
            MountPhase::Helper { read_fd, write_fd }
        } else {
            MountPhase::Wait { read_fd, write_fd, pid }
        },
        (
            MountPhase::Wait { read_fd, write_fd, .. },
            MountReply::Exited(_) | MountReply::GaveUp,
        ) => MountPhase::CloseRead { read_fd, write_fd },
        (
            MountPhase::CloseRead { write_fd, .. },
            MountReply::Done,
        ) => MountPhase::CloseWrite { write_fd },
        (MountPhase::CloseWrite { .. }, MountReply::Done) => MountPhase::Done,
        _ => phase,
    }
}

/// What a reply makes mounting report.
pub open spec fn mount_notice(phase: MountPhase, reply: MountReply) -> Option<Notice> {
    match (phase, reply) {
        (MountPhase::Conf, MountReply::Exists(false)) => Some(Notice::NoConfToMount),
        (MountPhase::Dir, MountReply::Exists(false)) => Some(Notice::MountPointFailed),
        (MountPhase::Pipe, MountReply::NoPipe) => Some(Notice::PassPipeFailed),
        (MountPhase::Fork { .. }, MountReply::Forked(pid)) => if pid < 0 {
            Some(Notice::MountForkFailed)
        } else {
            None
        },
        (MountPhase::Wait { .. }, MountReply::Exited(status)) => if status != 0 {
            Some(Notice::MountFailed)
        } else {
            None
        },
        (MountPhase::Wait { .. }, MountReply::GaveUp) => Some(Notice::MountTimedOut),
        _ => None,
    }
}

/// Takes mounting one step on.
pub fn mount_gocryptfs_as_user(phase: MountPhase, reply: MountReply) -> (r: (
    MountPhase,
    Option<Notice>,
))
    ensures
        r.0 == mount_next(phase, reply),
        r.1 == mount_notice(phase, reply),
{
    match (phase, reply) {
        (MountPhase::Conf, MountReply::Exists(there)) => {
            if there {
                (MountPhase::Dir, None)
            } else {
                (MountPhase::Done, Some(Notice::NoConfToMount))
            }
        },
        (MountPhase::Dir, MountReply::Exists(there)) => {
            if there {
                (MountPhase::Pipe, None)
            } else {
                (MountPhase::Done, Some(Notice::MountPointFailed))
            }
        },
        (MountPhase::Pipe, MountReply::Pipe { read_fd, write_fd }) => (
            MountPhase::Fork { read_fd, write_fd },
            None,
        ),
        (MountPhase::Pipe, MountReply::NoPipe) => (
            MountPhase::Done,
            Some(Notice::PassPipeFailed),
        ),
        (MountPhase::Fork { read_fd, write_fd }, MountReply::Forked(pid)) => {
            if pid < 0 {
                (MountPhase::CloseRead { read_fd, write_fd }, Some(Notice::MountForkFailed))
            } else if pid == 0 {
                (MountPhase::Helper { read_fd, write_fd }, None)
            } else {
                (MountPhase::Wait { read_fd, write_fd, pid }, None)
            }
        },
        (MountPhase::Wait { read_fd, write_fd, .. }, MountReply::Exited(status)) => {
            if status == 0 {
                (MountPhase::CloseRead { read_fd, write_fd }, None)
            } else {
                (MountPhase::CloseRead { read_fd, write_fd }, Some(Notice::MountFailed))
            }
        },
        (MountPhase::Wait { read_fd, write_fd, .. }, MountReply::GaveUp) => (
            MountPhase::CloseRead { read_fd, write_fd },
            Some(Notice::MountTimedOut),
        ),
        (MountPhase::CloseRead { write_fd, .. }, MountReply::Done) => (
            MountPhase::CloseWrite { write_fd },
            None,
        ),
        (MountPhase::CloseWrite { .. }, MountReply::Done) => (MountPhase::Done, None),
        _ => (phase, None),
    }
}

/// `request` is the step that mounting in this phase takes.
pub open spec fn mount_asks(phase: MountPhase, paths: Paths, request: MountRequest) -> bool {
    match (phase, request) {
        (MountPhase::Conf, MountRequest::FileExists(path)) => path@ == path_in(
            paths.cipher_dir@,
            "gocryptfs.conf"@,
        ),
        (MountPhase::Dir, MountRequest::EnsureDir(path, mode)) => path@ == paths.mountpoint@
            && mode == MOUNT_POINT_MODE,
        (MountPhase::Pipe, MountRequest::MakePassPipe) => true,
        (MountPhase::Fork { .. }, MountRequest::Fork) => true,
        (
            MountPhase::Helper { read_fd, write_fd },
            MountRequest::BecomeHelper { read_fd: r, write_fd: w },
        ) => r == read_fd && w == write_fd,
        (MountPhase::Wait { pid, .. }, MountRequest::Wait(wait)) => wait@.begins(
            pid,
            HELPER_TIMEOUT_SECS,
        ),
        (MountPhase::CloseRead { read_fd, .. }, MountRequest::Close(fd)) => fd == read_fd,
        (MountPhase::CloseWrite { write_fd }, MountRequest::Close(fd)) => fd == write_fd,
        (MountPhase::Done, MountRequest::Finished) => true,
        _ => false,
    }
}

/// The step that mounting in this phase takes.
pub fn mount_request(phase: MountPhase, paths: &Paths) -> (r: MountRequest)
    ensures
        mount_asks(phase, *paths, r),
{
    match phase {
        MountPhase::Conf => MountRequest::FileExists(
            file_in(paths.cipher_dir.as_str(), "gocryptfs.conf"),
        ),
        MountPhase::Dir => MountRequest::EnsureDir(paths.mountpoint.clone(), MOUNT_POINT_MODE),
        MountPhase::Pipe => MountRequest::MakePassPipe,
        MountPhase::Fork { .. } => MountRequest::Fork,
        MountPhase::Helper { read_fd, write_fd } => MountRequest::BecomeHelper {
            read_fd,
            write_fd,
        },
        MountPhase::Wait { pid, .. } => MountRequest::Wait(helper_wait(pid)),
        MountPhase::CloseRead { read_fd, .. } => MountRequest::Close(read_fd),
        MountPhase::CloseWrite { write_fd } => MountRequest::Close(write_fd),
        MountPhase::Done => MountRequest::Finished,
    }
}

/// How far the helper process that mounts has come.
#[derive(Clone, Copy, Debug, PartialEq, Eq, Structural)]
pub enum HelperPhase {
    /// It becomes the user.
    Impersonate,
    /// It closes the write end of the pipe.
    CloseWrite,
    /// It asks for the flags of the read end.
    Flags,
    /// It sets the flags of the read end, so that gocryptfs can read from it.
    SetFlags(c_int),
    /// It reads the options file.
    Options,
    /// It turns into gocryptfs.
    Exec,
    /// It ends, with a failure.
    Exit,
}

/// What came of a step.
#[derive(Clone, Copy, Debug, PartialEq, Eq, Structural)]
pub enum HelperReply {
    /// Whether the process is the user now.
    Became(bool),
    /// What a call returned.
    Code(c_int),
    /// The step is done, or was tried.
    Done,
}

/// What a step of the helper is.
#[derive(Debug)]
pub enum HelperRequest {
    Impersonate,
    Close(c_int),
    GetFlags(c_int),
    SetFlags(c_int, c_int),
    ReadOptions(String),
    Exec(Command),
    Exit(c_int),
}

/// The phase that follows. A reply to another phase changes nothing.
pub open spec fn helper_next(phase: HelperPhase, reply: HelperReply) -> HelperPhase {
    match (phase, reply) {
        (HelperPhase::Impersonate, HelperReply::Became(user)) => if user {
            HelperPhase::CloseWrite
        } else {
            HelperPhase::Exit
        },
        (HelperPhase::CloseWrite, HelperReply::Done) => HelperPhase::Flags,
        (HelperPhase::Flags, HelperReply::Code(flags)) => if flags >= 0 {
            HelperPhase::SetFlags(flags & !1)
        } else {
            HelperPhase::Options
        },
        (HelperPhase::SetFlags(_), HelperReply::Done) => HelperPhase::Options,
        (HelperPhase::Options, HelperReply::Done) => HelperPhase::Exec,
        (HelperPhase::Exec, HelperReply::Done) => HelperPhase::Exit,
        _ => phase,
    }
}

/// Takes the helper process that mounts one step on.
pub fn mount_helper(phase: HelperPhase, reply: HelperReply) -> (r: HelperPhase)
    ensures
        r == helper_next(phase, reply),
{
    match (phase, reply) {
        (HelperPhase::Impersonate, HelperReply::Became(user)) => {
            if user {
                HelperPhase::CloseWrite
            } else {
                HelperPhase::Exit
            }
        },
        (HelperPhase::CloseWrite, HelperReply::Done) => HelperPhase::Flags,
        (HelperPhase::Flags, HelperReply::Code(flags)) => {
            if flags >= 0 {
                HelperPhase::SetFlags(flags & !close_on_exec())
            } else {
                HelperPhase::Options
            }
        },
        (HelperPhase::SetFlags(_), HelperReply::Done) => HelperPhase::Options,
        (HelperPhase::Options, HelperReply::Done) => HelperPhase::Exec,
        (HelperPhase::Exec, HelperReply::Done) => HelperPhase::Exit,
        _ => phase,
    }
}

/// `request` is the step that the helper in this phase takes, for a user with
/// this site, where the options file holds these bytes.
pub open spec fn helper_asks(
    phase: HelperPhase,
    read_fd: c_int,
    write_fd: c_int,
    site: Site,
    options_file: Option<Seq<u8>>,
    request: HelperRequest,
) -> bool {
    match (phase, request) {
        (HelperPhase::Impersonate, HelperRequest::Impersonate) => true,
        (HelperPhase::CloseWrite, HelperRequest::Close(fd)) => fd == write_fd,
        (HelperPhase::Flags, HelperRequest::GetFlags(fd)) => fd == read_fd,
        (HelperPhase::SetFlags(flags), HelperRequest::SetFlags(fd, f)) => fd == read_fd && f
            == flags,
        (HelperPhase::Options, HelperRequest::ReadOptions(path)) => path@ == path_in(
            site.paths.config_dir@,
            "mount-options"@,
        ),
        (HelperPhase::Exec, HelperRequest::Exec(command)) => command.starts(
            "/usr/bin/gocryptfs"@,
            mount_argv(
                read_fd,
                options_of(file_lines(options_file)),
                strings(site.options@),
                site.paths.cipher_dir@,
                site.paths.mountpoint@,
            ),
        ),
        (HelperPhase::Exit, HelperRequest::Exit(status)) => status == 1,
        _ => false,
    }
}

/// The step that the helper in this phase takes, for a user with this site,
/// where the options file, once it was read, holds these bytes.
pub fn helper_request(
    phase: HelperPhase,
    read_fd: c_int,
    write_fd: c_int,
    site: &Site,
    options_file: Option<&Vec<u8>>,
) -> (r: HelperRequest)
    ensures
        helper_asks(phase, read_fd, write_fd, *site, opt_bytes(options_file), r),
{
    match phase {
        HelperPhase::Impersonate => HelperRequest::Impersonate,
        HelperPhase::CloseWrite => HelperRequest::Close(write_fd),
        HelperPhase::Flags => HelperRequest::GetFlags(read_fd),
        HelperPhase::SetFlags(flags) => HelperRequest::SetFlags(read_fd, flags),
        HelperPhase::Options => HelperRequest::ReadOptions(
            file_in(site.paths.config_dir.as_str(), "mount-options"),
        ),
        HelperPhase::Exec => HelperRequest::Exec(
            mount_command(read_fd, options_file, &site.options, &site.paths),
        ),
        HelperPhase::Exit => HelperRequest::Exit(1),
    }
}

/// How far unmounting has come.
#[derive(Clone, Copy, Debug, PartialEq, Eq, Structural)]
pub enum UnmountPhase {
    /// The helper process is started.
    Fork,
    /// This is the helper process.
    Helper,
    /// The helper is waited for.
    Wait(pid_t),
    /// Nothing more.
    Done,
}

/// What came of a step.
#[derive(Clone, Copy, Debug, PartialEq, Eq, Structural)]
pub enum UnmountReply {
    /// What starting the helper process returned.
    Forked(pid_t),
    /// The helper ended with this status.
    Exited(c_int),
    /// The helper was lost or did not end in time.
    GaveUp,
}

/// The phase that follows. A reply to another phase changes nothing.
pub open spec fn unmount_next(phase: UnmountPhase, reply: UnmountReply) -> UnmountPhase {
    match (phase, reply) {
        (UnmountPhase::Fork, UnmountReply::Forked(pid)) => if pid < 0 {
            UnmountPhase::Done
        } else if pid == 0 {
            UnmountPhase::Helper
        } else {
            UnmountPhase::Wait(pid)
        },
        (
            UnmountPhase::Wait(_),
            UnmountReply::Exited(_) | UnmountReply::GaveUp,
        ) => UnmountPhase::Done,
        _ => phase,
    }
}

/// What a reply makes unmounting report.
pub open spec fn unmount_notice(phase: UnmountPhase, reply: UnmountReply) -> Option<Notice> {
    match (phase, reply) {
        (UnmountPhase::Fork, UnmountReply::Forked(pid)) => if pid < 0 {
            Some(Notice::UnmountForkFailed)
        } else {
            None
        },
        (UnmountPhase::Wait(_), UnmountReply::Exited(status)) => if status != 0 {
            Some(Notice::UnmountFailed)
        } else {
            None
        },
        (UnmountPhase::Wait(_), UnmountReply::GaveUp) => Some(Notice::UnmountFailed),
        _ => None,
    }
}

/// Takes unmounting one step on.
pub fn unmount_gocryptfs_as_user(phase: UnmountPhase, reply: UnmountReply) -> (r: (
    UnmountPhase,
    Option<Notice>,
))
    ensures
        r.0 == unmount_next(phase, reply),
        r.1 == unmount_notice(phase, reply),
{
    match (phase, reply) {
        (UnmountPhase::Fork, UnmountReply::Forked(pid)) => {
            if pid < 0 {
                (UnmountPhase::Done, Some(Notice::UnmountForkFailed))
            } else if pid == 0 {
                (UnmountPhase::Helper, None)
            } else {
                (UnmountPhase::Wait(pid), None)
            }
        },
        (UnmountPhase::Wait(_), UnmountReply::Exited(status)) => {
            if status == 0 {
                (UnmountPhase::Done, None)
            } else {
                (UnmountPhase::Done, Some(Notice::UnmountFailed))
            }
        },
        (UnmountPhase::Wait(_), UnmountReply::GaveUp) => (
            UnmountPhase::Done,
            Some(Notice::UnmountFailed),
        ),
        _ => (phase, None),
    }
}

/// What a step of unmounting is.
#[derive(Debug)]
pub enum UnmountRequest {
    Fork,
    BecomeHelper,
    Wait(Wait),
    Finished,
}

/// `request` is the step that unmounting in this phase takes.
pub open spec fn unmount_asks(phase: UnmountPhase, request: UnmountRequest) -> bool {
    match (phase, request) {
        (UnmountPhase::Fork, UnmountRequest::Fork) => true,
        (UnmountPhase::Helper, UnmountRequest::BecomeHelper) => true,
        (UnmountPhase::Wait(pid), UnmountRequest::Wait(wait)) => wait@.begins(
            pid,
            HELPER_TIMEOUT_SECS,
        ),
        (UnmountPhase::Done, UnmountRequest::Finished) => true,
        _ => false,
    }
}

/// The step that unmounting in this phase takes.
pub fn unmount_request(phase: UnmountPhase) -> (r: UnmountRequest)
    ensures
        unmount_asks(phase, r),
{
    match phase {
        UnmountPhase::Fork => UnmountRequest::Fork,
        UnmountPhase::Helper => UnmountRequest::BecomeHelper,
        UnmountPhase::Wait(pid) => UnmountRequest::Wait(helper_wait(pid)),
        UnmountPhase::Done => UnmountRequest::Finished,
    }
}

/// A command of a program in `/bin`.
fn bin_command(bin: &str, name: &str, unmount_flag: bool, mountpoint: &str) -> (r: Command)
    ensures
        r.starts(
            bin@,
            if unmount_flag {
                seq![name@, "-u"@, mountpoint@]
            } else {
                seq![name@, mountpoint@]
            },
        ),
{
    let mut argv: Vec<String> = Vec::new();
    push_text(&mut argv, name);
    if unmount_flag {
        push_text(&mut argv, "-u");
    }
    push_text(&mut argv, mountpoint);
    assert(strings(argv@) =~= if unmount_flag {
        seq![name@, "-u"@, mountpoint@]
    } else {
        seq![name@, mountpoint@]
    });
    Command { bin: bin.to_owned(), argv }
}

/// The command at a position among those that unmount, in the order in which
/// they are tried: each one is for a system that lacks those before it.
pub open spec fn is_unmount_command(i: usize, mountpoint: Seq<char>, command: Command) -> bool {
    if i == 0 {
        command.starts("/bin/fusermount3"@, seq!["fusermount3"@, "-u"@, mountpoint])
    } else if i == 1 {
        command.starts("/bin/fusermount"@, seq!["fusermount"@, "-u"@, mountpoint])
    } else {
        i == 2 && command.starts("/bin/umount"@, seq!["umount"@, mountpoint])
    }
}

/// How far the helper process that unmounts has come.
#[derive(Clone, Copy, Debug, PartialEq, Eq, Structural)]
pub enum UnmountHelperPhase {
    /// It becomes the user.
    Impersonate,
    /// It tries to turn into the command at this position.
    Exec(usize),
    /// It ends, with a failure.
    Exit,
}

/// The phase that follows one in which the step succeeded or not. Turning into
/// a command does not return if it succeeds.
pub open spec fn unmount_helper_next(phase: UnmountHelperPhase, ok: bool) -> UnmountHelperPhase {
    match phase {
        UnmountHelperPhase::Impersonate => if ok {
            UnmountHelperPhase::Exec(0)
        } else {
            UnmountHelperPhase::Exit
        },
        UnmountHelperPhase::Exec(i) => if i < 2 {
            UnmountHelperPhase::Exec((i + 1) as usize)
        } else {
            UnmountHelperPhase::Exit
        },
        UnmountHelperPhase::Exit => phase,
    }
}

/// Takes the helper process that unmounts one step on.
pub fn unmount_helper(phase: UnmountHelperPhase, ok: bool) -> (r: UnmountHelperPhase)
    ensures
        r == unmount_helper_next(phase, ok),
{
    match phase {
        UnmountHelperPhase::Impersonate => {
            if ok {
                UnmountHelperPhase::Exec(0)
            } else {
                UnmountHelperPhase::Exit
            }
        },
        UnmountHelperPhase::Exec(i) => {
            if i < 2 {
                UnmountHelperPhase::Exec(i + 1)
            } else {
                UnmountHelperPhase::Exit
            }
        },
        UnmountHelperPhase::Exit => phase,
    }
}

/// What a step of the helper that unmounts is.
#[derive(Debug)]
pub enum UnmountHelperRequest {
    Impersonate,
    Exec(Command),
    Exit(c_int),
}

/// `request` is the step that the helper in this phase takes. There is nothing
/// to turn into behind the last command.
pub open spec fn unmount_helper_asks(
    phase: UnmountHelperPhase,
    mountpoint: Seq<char>,
    request: UnmountHelperRequest,
) -> bool {
    match (phase, request) {
        (UnmountHelperPhase::Impersonate, UnmountHelperRequest::Impersonate) => true,
        (UnmountHelperPhase::Exec(i), UnmountHelperRequest::Exec(command)) => is_unmount_command(
            i,
            mountpoint,
            command,
        ),
        (UnmountHelperPhase::Exec(i), UnmountHelperRequest::Exit(status)) => i > 2 && status == 1,
        (UnmountHelperPhase::Exit, UnmountHelperRequest::Exit(status)) => status == 1,
        _ => false,
    }
}

/// The step that the helper in this phase takes.
pub fn unmount_helper_request(
    phase: UnmountHelperPhase,
    mountpoint: &str,
) -> (r: UnmountHelperRequest)
    ensures
        unmount_helper_asks(phase, mountpoint@, r),
{
    match phase {
        UnmountHelperPhase::Impersonate => UnmountHelperRequest::Impersonate,
        UnmountHelperPhase::Exec(0) => UnmountHelperRequest::Exec(
            bin_command("/bin/fusermount3", "fusermount3", true, mountpoint),
        ),
        UnmountHelperPhase::Exec(1) => UnmountHelperRequest::Exec(
            bin_command("/bin/fusermount", "fusermount", true, mountpoint),
        ),
        UnmountHelperPhase::Exec(2) => UnmountHelperRequest::Exec(
            bin_command("/bin/umount", "umount", false, mountpoint),
        ),
        UnmountHelperPhase::Exec(_) => UnmountHelperRequest::Exit(1),
        UnmountHelperPhase::Exit => UnmountHelperRequest::Exit(1),
    }
}

/// What the steps of mounting are answered.
pub struct MountWorld {
    pub conf: bool,
    pub dir: bool,
    pub pipe: Option<(c_int, c_int)>,
    pub pid: pid_t,
    pub status: Option<c_int>,
}

/// What a step of mounting is answered.
pub open spec fn mount_answer(phase: MountPhase, world: MountWorld) -> MountReply {
    match phase {
        MountPhase::Conf => MountReply::Exists(world.conf),
        MountPhase::Dir => MountReply::Exists(world.dir),
        MountPhase::Pipe => match world.pipe {
            Some((read_fd, write_fd)) => MountReply::Pipe { read_fd, write_fd },
            None => MountReply::NoPipe,
        },
        MountPhase::Fork { .. } => MountReply::Forked(world.pid),
        MountPhase::Wait { .. } => match world.status {
            Some(status) => MountReply::Exited(status),
            None => MountReply::GaveUp,
        },
        _ => MountReply::Done,
    }
}

/// How many steps mounting has left at most.
pub open spec fn mount_steps_left(phase: MountPhase) -> nat {
    match phase {
        MountPhase::Conf => 7,
        MountPhase::Dir => 6,
        MountPhase::Pipe => 5,
        MountPhase::Fork { .. } => 4,
        MountPhase::Wait { .. } => 3,
        MountPhase::CloseRead { .. } => 2,
        MountPhase::CloseWrite { .. } => 1,
        _ => 0,
    }
}

/// Whether mounting passes through `target` from `phase` on.
pub open spec fn mount_passes(phase: MountPhase, target: MountPhase, world: MountWorld) -> bool
    decreases mount_steps_left(phase),
{
    ||| phase == target
    ||| mount_steps_left(phase) > 0 && mount_passes(
        mount_next(phase, mount_answer(phase, world)),
        target,
        world,
    )
}

/// A helper process is started if and only if there is a file system, a place
/// to mount it and a pipe with the passphrase. The process that started it
/// waits for it, and closes both ends of the pipe however it went.
pub proof fn law_mount(world: MountWorld)
    ensures
        ({
            let passes = |target: MountPhase| mount_passes(MountPhase::Conf, target, world);
            let (read_fd, write_fd) = world.pipe->0;
            let pid = world.pid;
            let ready = world.conf && world.dir && world.pipe is Some;
            &&& passes(MountPhase::Fork { read_fd, write_fd }) <==> ready
            &&& passes(MountPhase::Wait { read_fd, write_fd, pid }) <==> ready && pid > 0
            &&& passes(MountPhase::Helper { read_fd, write_fd }) <==> ready && pid == 0
            &&& passes(MountPhase::CloseRead { read_fd, write_fd }) <==> ready && pid != 0
            &&& passes(MountPhase::CloseWrite { write_fd }) <==> ready && pid != 0
            &&& passes(MountPhase::Done) <==> !(ready && pid == 0)
        }),
{
    reveal_with_fuel(mount_passes, 8);
}

/// What the steps of the helper process that mounts are answered.
pub open spec fn helper_answer(phase: HelperPhase, user: bool, flags: c_int) -> HelperReply {
    match phase {
        HelperPhase::Impersonate => HelperReply::Became(user),
        HelperPhase::Flags => HelperReply::Code(flags),
        _ => HelperReply::Done,
    }
}

/// How many steps the helper process that mounts has left at most.
pub open spec fn helper_steps_left(phase: HelperPhase) -> nat {
    match phase {
        HelperPhase::Impersonate => 6,
        HelperPhase::CloseWrite => 5,
        HelperPhase::Flags => 4,
        HelperPhase::SetFlags(_) => 3,
        HelperPhase::Options => 2,
        HelperPhase::Exec => 1,
        HelperPhase::Exit => 0,
    }
}

/// Whether the helper passes through `target` from `phase` on, where it becomes
/// the user or not, and the read end of the pipe has these flags.
pub open spec fn helper_passes(
    phase: HelperPhase,
    target: HelperPhase,
    user: bool,
    flags: c_int,
) -> bool
    decreases helper_steps_left(phase),
{
    ||| phase == target
    ||| helper_steps_left(phase) > 0 && helper_passes(
        helper_next(phase, helper_answer(phase, user, flags)),
        target,
        user,
        flags,
    )
}

/// gocryptfs runs as the user or not at all. The read end of the pipe stays
/// open for it, and the write end does not.
pub proof fn law_mount_helper(user: bool, flags: c_int)
    ensures
        ({
            let passes = |target: HelperPhase|
                helper_passes(HelperPhase::Impersonate, target, user, flags);
            &&& passes(HelperPhase::Exec) <==> user
            &&& passes(HelperPhase::CloseWrite) <==> user
            &&& passes(HelperPhase::SetFlags(flags & !1)) <==> user && flags >= 0
            &&& passes(HelperPhase::Exit)
        }),
        (flags & !1) & 1 == 0,
        flags & !1 == (flags | 1) & !1,
{
    reveal_with_fuel(helper_passes, 7);
    assert((flags & !1) & 1 == 0) by (bit_vector);
    assert(flags & !1 == (flags | 1) & !1) by (bit_vector);
}

/// Unmounting tries every command in turn as the user, and runs none as anyone
/// else.
pub proof fn law_unmount_helper(ok: spec_fn(UnmountHelperPhase) -> bool)
    ensures
        ({
            let first = unmount_helper_next(
                UnmountHelperPhase::Impersonate,
                ok(UnmountHelperPhase::Impersonate),
            );
            let second = unmount_helper_next(first, ok(first));
            let third = unmount_helper_next(second, ok(second));
            let fourth = unmount_helper_next(third, ok(third));
            if ok(UnmountHelperPhase::Impersonate) {
                &&& first == UnmountHelperPhase::Exec(0)
                &&& second == UnmountHelperPhase::Exec(1)
                &&& third == UnmountHelperPhase::Exec(2)
                &&& fourth == UnmountHelperPhase::Exit
            } else {
                first == UnmountHelperPhase::Exit
            }
        }),
{
}

/// A number in decimal has no null character.
proof fn lemma_decimal_no_nul(n: nat)
    ensures
        !decimal(n).contains('\0'),
    decreases n,
{
    if n >= 10 {
        lemma_decimal_no_nul(n / 10);
        let digits = decimal(n);
        assert forall|i: int| 0 <= i < digits.len() implies digits[i] != '\0' by {
            if i < digits.len() - 1 {
                assert(digits[i] == decimal(n / 10)[i]);
            }
        }
    }
}

/// gocryptfs gets the cipher directory and the mount point as its last two
/// arguments, and nothing but flags before them, so that no flag can be
/// taken for a directory. Every argument is carried whole by a C string.
pub proof fn law_mount_argv(
    read_fd: c_int,
    file: Seq<Seq<char>>,
    config: Seq<Seq<char>>,
    cipher_dir: Seq<char>,
    mountpoint: Seq<char>,
)
    requires
        !cipher_dir.contains('\0'),
        !mountpoint.contains('\0'),
    ensures
        ({
            let argv = mount_argv(
                read_fd,
                options_of(file),
                flags_of(config),
                cipher_dir,
                mountpoint,
            );
            &&& argv.len() == options_of(file).len() + flags_of(config).len() + 6
            &&& argv[argv.len() - 2] == cipher_dir
            &&& argv[argv.len() - 1] == mountpoint
            &&& forall|i: int| 4 <= i < argv.len() - 2 ==> is_flag(#[trigger] argv[i])
            &&& forall|i: int|
                0 <= i < argv.len() ==> until_nul(#[trigger] argv[i]) == argv[i]
        }),
{
    let file_options = options_of(file);
    let config_options = flags_of(config);
    let argv = mount_argv(read_fd, file_options, config_options, cipher_dir, mountpoint);
    let option = |line: Seq<char>| is_option(line);
    let flag = |line: Seq<char>| is_flag(line);
    assert forall|i: int| 4 <= i < argv.len() - 2 implies is_flag(#[trigger] argv[i]) by {
        if i < 4 + file_options.len() {
            assert(argv[i] == file_options[i - 4]);
            file.lemma_filter_pred(option, i - 4);
        } else {
            let j = i - 4 - file_options.len();
            assert(argv[i] == config_options[j]);
            config.lemma_filter_pred(flag, j);
        }
    }
    assert forall|i: int| 0 <= i < argv.len() implies until_nul(#[trigger] argv[i]) == argv[i] by {
        reveal_strlit("gocryptfs");
        reveal_strlit("-q");
        reveal_strlit("-passfile");
        reveal_strlit("/proc/self/fd/");
        if i == 3 {
            let number = signed_decimal(read_fd as int);
            lemma_decimal_no_nul(read_fd as nat);
            lemma_decimal_no_nul((-read_fd) as nat);
            assert(!number.contains('\0')) by {
                assert forall|k: int| 0 <= k < number.len() implies number[k] != '\0' by {
                    if read_fd < 0 && k > 0 {
                        assert(number[k] == decimal((-read_fd) as nat)[k - 1]);
                    }
                }
            }
            let path = "/proc/self/fd/"@ + number;
            assert forall|k: int| 0 <= k < path.len() implies path[k] != '\0' by {
                if k >= "/proc/self/fd/"@.len() {
                    assert(path[k] == number[k - "/proc/self/fd/"@.len()]);
                }
            }
        }
        lemma_until_nul_whole(argv[i]);
    }
}

/// What it means that a command starts a program with some arguments: the
/// program is that one, and the arguments are those, each at its own place and
/// character for character.
pub proof fn law_command(command: Command, bin: Seq<char>, argv: Seq<Seq<char>>)
    requires
        command.starts(bin, argv),
    ensures
        command.bin@ == bin,
        command.argv@.len() == argv.len(),
        forall|i: int| 0 <= i < argv.len() ==> (#[trigger] command.argv@[i])@ == argv[i],
{
    law_strings(command.argv@);
    assert forall|i: int| 0 <= i < argv.len() implies (#[trigger] command.argv@[i])@
        == argv[i] by {
        assert(strings(command.argv@)[i] == argv[i]);
    }
}

/// The arguments of gocryptfs when it mounts, one by one: behind the first four,
/// which make it read the passphrase from the pipe, come the options of the
/// options file, each at its own place, then the flags of the configuration, each
/// at its own place, and then the cipher directory and the mount point.
pub proof fn law_mount_arguments(
    read_fd: c_int,
    options: Seq<Seq<char>>,
    flags: Seq<Seq<char>>,
    cipher_dir: Seq<char>,
    mountpoint: Seq<char>,
)
    ensures
        ({
            let argv = mount_argv(read_fd, options, flags, cipher_dir, mountpoint);
            let n = (options.len() + flags.len()) as int;
            &&& argv.len() == n + 6
            &&& argv[0] == "gocryptfs"@
            &&& argv[1] == "-q"@
            &&& argv[2] == "-passfile"@
            &&& argv[3] == "/proc/self/fd/"@ + signed_decimal(read_fd as int)
            &&& forall|i: int| 0 <= i < options.len() ==> argv[4 + i] == #[trigger] options[i]
            &&& forall|j: int|
                0 <= j < flags.len() ==> argv[4 + options.len() + j] == #[trigger] flags[j]
            &&& argv[4 + n] == cipher_dir
            &&& argv[5 + n] == mountpoint
        }),
{
}

/// What the command that mounts hands to gocryptfs, given what it is made of:
/// the options of the file, the configured flags, and the two directories, all
/// of them whole and in order.
pub proof fn law_mount_command(
    command: Command,
    read_fd: c_int,
    options_file: Option<Seq<u8>>,
    config_options: Seq<String>,
    paths: Paths,
)
    requires
        command.starts(
            "/usr/bin/gocryptfs"@,
            mount_argv(
                read_fd,
                options_of(file_lines(options_file)),
                strings(config_options),
                paths.cipher_dir@,
                paths.mountpoint@,
            ),
        ),
    ensures
        ({
            let argv = command.argv@;
            let options = options_of(file_lines(options_file));
            let n = (options.len() + config_options.len()) as int;
            &&& command.bin@ == "/usr/bin/gocryptfs"@
            &&& argv.len() == n + 6
            &&& forall|i: int| 0 <= i < options.len() ==> argv[4 + i]@ == #[trigger] options[i]
            &&& forall|j: int|
                0 <= j < config_options.len() ==> argv[4 + options.len() + j]@ == (
                #[trigger] config_options[j])@
            &&& argv[4 + n]@ == paths.cipher_dir@
            &&& argv[5 + n]@ == paths.mountpoint@
        }),
{
    let options = options_of(file_lines(options_file));
    let flags = strings(config_options);
    let expected = mount_argv(read_fd, options, flags, paths.cipher_dir@, paths.mountpoint@);
    law_command(command, "/usr/bin/gocryptfs"@, expected);
    law_strings(config_options);
    law_mount_arguments(read_fd, options, flags, paths.cipher_dir@, paths.mountpoint@);
    let argv = command.argv@;
    let n = (options.len() + config_options.len()) as int;
    assert forall|i: int| 0 <= i < options.len() implies argv[4 + i]@ == #[trigger] options[i] by {
        assert(expected[4 + i] == options[i]);
    }
    assert forall|j: int| 0 <= j < config_options.len() implies argv[4 + options.len() + j]@ == (
    #[trigger] config_options[j])@ by {
        assert(flags[j] == config_options[j]@);
        assert(expected[4 + options.len() + j] == flags[j]);
    }
    assert(argv[4 + n]@ == expected[4 + n]);
    assert(argv[5 + n]@ == expected[5 + n]);
}

/// Whichever command unmounts, its last argument is the mount point, character
/// for character, and no other argument is a path.
pub proof fn law_unmount_command(i: usize, mountpoint: Seq<char>, command: Command)
    requires
        is_unmount_command(i, mountpoint, command),
    ensures
        i <= 2,
        command.argv@.last()@ == mountpoint,
        command.argv@.len() == if i < 2 {
            3int
        } else {
            2
        },
        i < 2 ==> command.argv@[1]@ == "-u"@,
        i == 0 ==> command.bin@ == "/bin/fusermount3"@ && command.argv@[0]@ == "fusermount3"@,
        i == 1 ==> command.bin@ == "/bin/fusermount"@ && command.argv@[0]@ == "fusermount"@,
        i == 2 ==> command.bin@ == "/bin/umount"@ && command.argv@[0]@ == "umount"@,
{
    let texts = strings(command.argv@);
    law_strings(command.argv@);
    assert(texts.last() == mountpoint);
    assert(texts[0] == command.argv@[0]@);
    assert(texts[1] == command.argv@[1]@);
    assert(texts[texts.len() - 1] == command.argv@[texts.len() - 1]@);
}

/// What the helper that unmounts does: it becomes the user, tries the commands
/// for the mount point in order, and ends with a failure.
pub proof fn law_unmount_helper_requests(
    phase: UnmountHelperPhase,
    mountpoint: Seq<char>,
    request: UnmountHelperRequest,
)
    requires
        unmount_helper_asks(phase, mountpoint, request),
    ensures
        phase == UnmountHelperPhase::Impersonate <==> request is Impersonate,
        request matches UnmountHelperRequest::Exec(command) ==> (
        phase matches UnmountHelperPhase::Exec(i) && i <= 2 && command.argv@.last()@ == mountpoint),
        phase matches UnmountHelperPhase::Exec(i) && i <= 2 ==> request is Exec,
        phase == UnmountHelperPhase::Exit ==> request == UnmountHelperRequest::Exit(1),
        request matches UnmountHelperRequest::Exit(status) ==> status == 1,
{
    if let (UnmountHelperPhase::Exec(i), UnmountHelperRequest::Exec(command)) = (phase, request) {
        law_unmount_command(i, mountpoint, command);
    }
}

/// What the helper that mounts works on: it closes the write end of the pipe,
/// keeps the flags of the read end but for the one that closes it on exec, reads
/// the options beside the toggles, and turns into gocryptfs with the directories
/// of the user.
pub proof fn law_helper_requests(
    phase: HelperPhase,
    read_fd: c_int,
    write_fd: c_int,
    site: Site,
    options_file: Option<Seq<u8>>,
    request: HelperRequest,
)
    requires
        helper_asks(phase, read_fd, write_fd, site, options_file, request),
    ensures
        phase == HelperPhase::Impersonate <==> request is Impersonate,
        phase == HelperPhase::CloseWrite ==> request == HelperRequest::Close(write_fd),
        phase == HelperPhase::Flags ==> request == HelperRequest::GetFlags(read_fd),
        phase matches HelperPhase::SetFlags(flags) ==> request == HelperRequest::SetFlags(
            read_fd,
            flags,
        ),
        phase == HelperPhase::Options <==> request is ReadOptions,
        request matches HelperRequest::ReadOptions(path) ==> path@ == until_nul(
            site.paths.config_dir@ + "/mount-options"@,
        ),
        phase == HelperPhase::Exec <==> request is Exec,
        request matches HelperRequest::Exec(command) ==> {
            let argv = command.argv@;
            let options = options_of(file_lines(options_file));
            let n = (options.len() + site.options@.len()) as int;
            &&& command.bin@ == "/usr/bin/gocryptfs"@
            &&& argv.len() == n + 6
            &&& argv[3]@ == "/proc/self/fd/"@ + signed_decimal(read_fd as int)
            &&& forall|i: int| 0 <= i < options.len() ==> argv[4 + i]@ == #[trigger] options[i]
            &&& forall|j: int|
                0 <= j < site.options@.len() ==> argv[4 + options.len() + j]@ == (
                #[trigger] site.options@[j])@
            &&& argv[4 + n]@ == site.paths.cipher_dir@
            &&& argv[5 + n]@ == site.paths.mountpoint@
        },
        phase == HelperPhase::Exit ==> request == HelperRequest::Exit(1),
{
    reveal_strlit("mount-options");
    reveal_strlit("/mount-options");
    reveal_strlit("/");
    law_path_in(site.paths.config_dir@, "mount-options"@);
    assert(site.paths.config_dir@ + "/"@ + "mount-options"@ =~= site.paths.config_dir@
        + "/mount-options"@);
    if let HelperRequest::Exec(command) = request {
        let options = options_of(file_lines(options_file));
        let flags = strings(site.options@);
        let paths = site.paths;
        let expected = mount_argv(read_fd, options, flags, paths.cipher_dir@, paths.mountpoint@);
        law_mount_command(command, read_fd, options_file, site.options@, paths);
        law_mount_arguments(read_fd, options, flags, paths.cipher_dir@, paths.mountpoint@);
        law_command(command, "/usr/bin/gocryptfs"@, expected);
        assert(command.argv@[3]@ == expected[3]);
    }
}

/// What the steps of mounting work on: the configuration in the cipher
/// directory, the mount point, which is for the user alone, and both ends of the
/// pipe.
pub proof fn law_mount_requests(phase: MountPhase, paths: Paths, request: MountRequest)
    requires
        mount_asks(phase, paths, request),
    ensures
        phase == MountPhase::Conf <==> request is FileExists,
        request matches MountRequest::FileExists(path) ==> path@ == until_nul(
            paths.cipher_dir@ + "/gocryptfs.conf"@,
        ),
        phase == MountPhase::Dir <==> request is EnsureDir,
        request matches MountRequest::EnsureDir(path, mode) ==> path@ == paths.mountpoint@ && mode
            == 0o700,
        phase == MountPhase::Pipe <==> request is MakePassPipe,
        phase is Fork <==> request is Fork,
        phase matches MountPhase::Helper { read_fd, write_fd } ==> request
            == (MountRequest::BecomeHelper { read_fd, write_fd }),
        phase matches MountPhase::Wait { pid, .. } ==> (request matches MountRequest::Wait(wait)
            && wait@.pid == pid && wait@.max_polls == 600 && wait@.polls == 0),
        phase matches MountPhase::CloseRead { read_fd, .. } ==> request == MountRequest::Close(
            read_fd,
        ),
        phase matches MountPhase::CloseWrite { write_fd } ==> request == MountRequest::Close(
            write_fd,
        ),
        phase == MountPhase::Done <==> request is Finished,
{
    reveal_strlit("gocryptfs.conf");
    reveal_strlit("/gocryptfs.conf");
    reveal_strlit("/");
    law_path_in(paths.cipher_dir@, "gocryptfs.conf"@);
    assert(paths.cipher_dir@ + "/"@ + "gocryptfs.conf"@ =~= paths.cipher_dir@
        + "/gocryptfs.conf"@);
}

/// What mounting reports: each thing that is missing or fails, and of the helper
/// every status but zero, and nothing else.
pub proof fn law_mount_notices(
    there: bool,
    read_fd: c_int,
    write_fd: c_int,
    pid: pid_t,
    forked: pid_t,
    status: c_int,
)
    ensures
        mount_notice(MountPhase::Conf, MountReply::Exists(there)) == if there {
            None
        } else {
            Some(Notice::NoConfToMount)
        },
        mount_notice(MountPhase::Dir, MountReply::Exists(there)) == if there {
            None
        } else {
            Some(Notice::MountPointFailed)
        },
        mount_notice(MountPhase::Pipe, MountReply::NoPipe) == Some(Notice::PassPipeFailed),
        mount_notice(MountPhase::Pipe, MountReply::Pipe { read_fd, write_fd }) is None,
        mount_notice(MountPhase::Fork { read_fd, write_fd }, MountReply::Forked(forked)) == if forked
            < 0 {
            Some(Notice::MountForkFailed)
        } else {
            None
        },
        mount_notice(MountPhase::Wait { read_fd, write_fd, pid }, MountReply::Exited(status))
            == if status == 0 {
            None
        } else {
            Some(Notice::MountFailed)
        },
        mount_notice(MountPhase::Wait { read_fd, write_fd, pid }, MountReply::GaveUp) == Some(
            Notice::MountTimedOut,
        ),
        mount_notice(MountPhase::CloseRead { read_fd, write_fd }, MountReply::Done) is None,
        mount_notice(MountPhase::CloseWrite { write_fd }, MountReply::Done) is None,
{
}

/// Unmounting starts a helper, waits for it no longer than it may take, and
/// reports if it could not be started, or did not end with status zero in time.
pub proof fn law_unmount(forked: pid_t, pid: pid_t, status: c_int, request: UnmountRequest)
    requires
        unmount_asks(UnmountPhase::Wait(pid), request),
    ensures
        ({
            let fork = UnmountReply::Forked(forked);
            let wait = UnmountPhase::Wait(pid);
            &&& unmount_next(UnmountPhase::Fork, fork) == if forked < 0 {
                UnmountPhase::Done
            } else if forked == 0 {
                UnmountPhase::Helper
            } else {
                UnmountPhase::Wait(forked)
            }
            &&& unmount_notice(UnmountPhase::Fork, fork) == if forked < 0 {
                Some(Notice::UnmountForkFailed)
            } else {
                None
            }
            &&& unmount_next(wait, UnmountReply::Exited(status)) == UnmountPhase::Done
            &&& unmount_next(wait, UnmountReply::GaveUp) == UnmountPhase::Done
            &&& unmount_notice(wait, UnmountReply::Exited(status)) == if status == 0 {
                None
            } else {
                Some(Notice::UnmountFailed)
            }
            &&& unmount_notice(wait, UnmountReply::GaveUp) == Some(Notice::UnmountFailed)
        }),
        request matches UnmountRequest::Wait(wait) && wait@.pid == pid && wait@.max_polls == 600
            && wait@.polls == 0,
{
}

} // verus!
