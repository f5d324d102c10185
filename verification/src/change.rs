//! The hook for a change of the password: the passphrase of the file system
//! follows the password of the user.

use libc::{c_int, gid_t, pid_t, uid_t};
use vstd::prelude::*;
use vstd::string::*;

use crate::config::{
    argument_texts, config_directory, config_file, file_in, file_lines, first_set, last_setting,
    law_path_in, parse_pam_args, path_in, user_config_path,
};
use crate::expand::specified;
use crate::hooks::{file_bytes, user_site, Site};
use crate::mount::{law_command, Command};
use crate::notice::Notice;
use crate::outside::lossy_text;
use crate::password::{
    change_file, change_lines, wrote_all, PAM_AUTHTOK, PAM_OLDAUTHTOK,
};
use crate::text::{law_slashed, opt_text, slashed, strings, until_nul};
use crate::user::{PasswordInfo, PAM_SUCCESS};
use crate::wait::{helper_wait, Wait, HELPER_TIMEOUT_SECS};

verus! {

/// The code with which a module reports that a passphrase is missing.
pub const PAM_AUTHTOK_RECOVERY_ERR: c_int = 21;

/// The flag with which PAM asks whether a change could go ahead.
pub const PAM_PRELIM_CHECK: c_int = 0x4000;

/// The descriptor that a process reads its input from.
pub const STANDARD_INPUT: c_int = 0;

/// What the change does. Descriptors and process numbers are those that earlier
/// steps brought.
#[derive(Clone, Copy, Debug, PartialEq, Eq, Structural)]
pub enum ChangePhase {
    /// Finds out who the user is.
    User,
    /// Gets the old passphrase.
    OldPass,
    /// Gets the new passphrase, where the old one is there or not.
    NewPass { old_there: bool },
    /// Reads the configuration file of the user.
    Config,
    /// Looks for the configuration of the file system.
    Conf,
    /// Makes a pipe whose ends close on exec.
    Pipe2,
    /// Makes a plain pipe.
    Pipe,
    /// Drops privileges to the user.
    Drop { read_fd: c_int, write_fd: c_int },
    /// Starts the helper process.
    Fork { read_fd: c_int, write_fd: c_int },
    /// Is the helper process.
    Helper { read_fd: c_int, write_fd: c_int },
    /// Closes the read end, as there is no helper.
    AbortRead { read_fd: c_int, write_fd: c_int },
    /// Closes the write end, as there is no helper.
    AbortWrite { write_fd: c_int },
    /// Closes the read end, which the helper has.
    CloseRead { read_fd: c_int, write_fd: c_int, pid: pid_t },
    /// Writes the passphrases.
    Feed { write_fd: c_int, pid: pid_t },
    /// Closes the write end, at which the helper stops reading.
    CloseWrite { write_fd: c_int, pid: pid_t },
    /// Waits for the helper.
    Wait { pid: pid_t },
    /// Takes privileges back.
    Restore,
    /// Returns to PAM.
    Done(c_int),
}

/// How far a call of the hook has come.
#[derive(Debug)]
pub struct ChangeState {
    pub phase: ChangePhase,
    /// Whether PAM only asks if the change could go ahead.
    pub prelim: bool,
    /// The cipher directory and the mount point that the arguments set.
    pub args: (Option<String>, Option<String>),
    pub user: Option<PasswordInfo>,
    pub site: Option<Site>,
}

/// A call of the hook.
#[derive(Debug)]
pub struct ChangeRun {
    state: ChangeState,
}

/// What came of a step.
#[derive(Debug)]
pub enum ChangeReply {
    /// The user, if there is one.
    User(Option<PasswordInfo>),
    /// What PAM returned, and the length of the passphrase, if there is one.
    Pass { rc: c_int, length: Option<usize> },
    /// The contents of the configuration file, if there is one.
    Config(Option<Vec<u8>>),
    /// Whether the file is there.
    Exists(bool),
    /// What making the pipe returned, and its ends.
    Pipe { rc: c_int, read_fd: c_int, write_fd: c_int },
    /// Whether privileges were dropped.
    Dropped(bool),
    /// What starting the helper process returned.
    Forked(pid_t),
    /// What writing so many bytes returned.
    Written { wrote: isize, size: usize },
    /// The step is done.
    Done,
}

/// What a step is.
#[derive(Debug)]
pub enum ChangeRequest {
    FetchUser,
    GetOldPass(c_int),
    GetNewPass(c_int),
    ReadConfig(String),
    FileExists(String),
    MakePipe2,
    MakePipe,
    DropPrivileges { uid: uid_t, gid: gid_t },
    Fork,
    BecomeHelper { read_fd: c_int, write_fd: c_int, cipher_dir: String },
    Close(c_int),
    WritePassphrases,
    Wait(Wait),
    RestorePrivileges,
    Return(c_int),
}

/// A passphrase that is there and not empty.
pub open spec fn is_full(length: Option<usize>) -> bool {
    length is Some && length->0 > 0
}

/// The phase that follows. A reply to another phase changes nothing.
pub open spec fn change_next(prelim: bool, phase: ChangePhase, reply: ChangeReply) -> ChangePhase {
    match (phase, reply) {
        (ChangePhase::User, ChangeReply::User(user)) => if user is Some {
            ChangePhase::OldPass
        } else {
            ChangePhase::Done(PAM_SUCCESS)
        },
        (ChangePhase::OldPass, ChangeReply::Pass { rc, length }) => if rc != PAM_SUCCESS {
            ChangePhase::Done(PAM_SUCCESS)
        } else if !prelim {
            ChangePhase::NewPass { old_there: length is Some }
        } else if is_full(length) {
            ChangePhase::Done(PAM_SUCCESS)
        } else {
            ChangePhase::Done(PAM_AUTHTOK_RECOVERY_ERR)
        },
        (ChangePhase::NewPass { old_there }, ChangeReply::Pass { rc, length }) => if rc
            != PAM_SUCCESS {
            ChangePhase::Done(PAM_SUCCESS)
        } else if old_there && is_full(length) {
            ChangePhase::Config
        } else {
            ChangePhase::Done(PAM_AUTHTOK_RECOVERY_ERR)
        },
        (ChangePhase::Config, ChangeReply::Config(_)) => ChangePhase::Conf,
        (ChangePhase::Conf, ChangeReply::Exists(there)) => if there {
            ChangePhase::Pipe2
        } else {
            ChangePhase::Done(PAM_SUCCESS)
        },
        (ChangePhase::Pipe2, ChangeReply::Pipe { rc, read_fd, write_fd }) => if rc == 0 {
            ChangePhase::Drop { read_fd, write_fd }
        } else {
            ChangePhase::Pipe
        },
        (ChangePhase::Pipe, ChangeReply::Pipe { rc, read_fd, write_fd }) => if rc == 0 {
            ChangePhase::Drop { read_fd, write_fd }
        } else {
            ChangePhase::Done(PAM_SUCCESS)
        },
        (ChangePhase::Drop { read_fd, write_fd }, ChangeReply::Dropped(dropped)) => if dropped {
            ChangePhase::Fork { read_fd, write_fd }
        } else {
            ChangePhase::AbortRead { read_fd, write_fd }
        },
        (ChangePhase::Fork { read_fd, write_fd }, ChangeReply::Forked(pid)) => if pid < 0 {
            ChangePhase::AbortRead { read_fd, write_fd }
        } else if pid == 0 {
            ChangePhase::Helper { read_fd, write_fd }
        } else {
            ChangePhase::CloseRead { read_fd, write_fd, pid }
        },
        (ChangePhase::AbortRead { write_fd, .. }, ChangeReply::Done) => ChangePhase::AbortWrite {
            write_fd,
        },
        (ChangePhase::AbortWrite { .. }, ChangeReply::Done) => ChangePhase::Restore,
        (ChangePhase::CloseRead { write_fd, pid, .. }, ChangeReply::Done) => ChangePhase::Feed {
            write_fd,
            pid,
        },
        (
            ChangePhase::Feed { write_fd, pid },
            ChangeReply::Written { .. },
        ) => ChangePhase::CloseWrite { write_fd, pid },
        (ChangePhase::CloseWrite { pid, .. }, ChangeReply::Done) => ChangePhase::Wait { pid },
        (ChangePhase::Wait { .. }, ChangeReply::Done) => ChangePhase::Restore,
        (ChangePhase::Restore, ChangeReply::Done) => ChangePhase::Done(PAM_SUCCESS),
        _ => phase,
    }
}

/// What a reply makes the change report.
pub open spec fn change_notice(prelim: bool, phase: ChangePhase, reply: ChangeReply) -> Option<
    Notice,
> {
    match (phase, reply) {
        (ChangePhase::OldPass, ChangeReply::Pass { rc, length }) => if rc != PAM_SUCCESS {
            Some(Notice::OldPassphraseError(rc))
        } else if prelim && !is_full(length) {
            Some(Notice::OldPassphraseMissing)
        } else {
            None
        },
        (ChangePhase::NewPass { old_there }, ChangeReply::Pass { rc, length }) => if rc
            != PAM_SUCCESS {
            Some(Notice::NewPassphraseError(rc))
        } else if !old_there || !is_full(length) {
            Some(Notice::PassphraseMissing)
        } else {
            None
        },
        (ChangePhase::Conf, ChangeReply::Exists(false)) => Some(Notice::NoConfToChange),
        (ChangePhase::Pipe, ChangeReply::Pipe { rc, .. }) => if rc != 0 {
            Some(Notice::StdinPipeFailed)
        } else {
            None
        },
        (ChangePhase::Drop { .. }, ChangeReply::Dropped(false)) => Some(Notice::ChangeDropFailed),
        (ChangePhase::Fork { .. }, ChangeReply::Forked(pid)) => if pid < 0 {
            Some(Notice::ChangeForkFailed)
        } else {
            None
        },
        (ChangePhase::Feed { .. }, ChangeReply::Written { wrote, size }) => if wrote_all(
            wrote,
            size as nat,
        ) {
            None
        } else {
            Some(Notice::StdinWriteFailed)
        },
        _ => None,
    }
}

/// The phase that follows, and what the reply makes the change report.
fn advance(prelim: bool, phase: ChangePhase, reply: &ChangeReply) -> (r: (
    ChangePhase,
    Option<Notice>,
))
    ensures
        r.0 == change_next(prelim, phase, *reply),
        r.1 == change_notice(prelim, phase, *reply),
{
    match (phase, reply) {
        (ChangePhase::User, ChangeReply::User(user)) => {
            if user.is_some() {
                (ChangePhase::OldPass, None)
            } else {
                (ChangePhase::Done(PAM_SUCCESS), None)
            }
        },
        (ChangePhase::OldPass, ChangeReply::Pass { rc, length }) => {
            let full: bool = match length {
                Some(n) => *n > 0,
                None => false,
            };
            if *rc != PAM_SUCCESS {
                (ChangePhase::Done(PAM_SUCCESS), Some(Notice::OldPassphraseError(*rc)))
            } else if !prelim {
                (ChangePhase::NewPass { old_there: length.is_some() }, None)
            } else if full {
                (ChangePhase::Done(PAM_SUCCESS), None)
            } else {
                (
                    ChangePhase::Done(PAM_AUTHTOK_RECOVERY_ERR),
                    Some(Notice::OldPassphraseMissing),
                )
            }
        },
        (ChangePhase::NewPass { old_there }, ChangeReply::Pass { rc, length }) => {
            let full: bool = match length {
                Some(n) => *n > 0,
                None => false,
            };
            if *rc != PAM_SUCCESS {
                (ChangePhase::Done(PAM_SUCCESS), Some(Notice::NewPassphraseError(*rc)))
            } else if !old_there || !full {
                (ChangePhase::Done(PAM_AUTHTOK_RECOVERY_ERR), Some(Notice::PassphraseMissing))
            } else {
                (ChangePhase::Config, None)
            }
        },
        (ChangePhase::Config, ChangeReply::Config(_)) => (ChangePhase::Conf, None),
        (ChangePhase::Conf, ChangeReply::Exists(there)) => {
            if *there {
                (ChangePhase::Pipe2, None)
            } else {
                (ChangePhase::Done(PAM_SUCCESS), Some(Notice::NoConfToChange))
            }
        },
        (ChangePhase::Pipe2, ChangeReply::Pipe { rc, read_fd, write_fd }) => {
            if *rc == 0 {
                (ChangePhase::Drop { read_fd: *read_fd, write_fd: *write_fd }, None)
            } else {
                (ChangePhase::Pipe, None)
            }
        },
        (ChangePhase::Pipe, ChangeReply::Pipe { rc, read_fd, write_fd }) => {
            if *rc == 0 {
                (ChangePhase::Drop { read_fd: *read_fd, write_fd: *write_fd }, None)
            } else {
                (ChangePhase::Done(PAM_SUCCESS), Some(Notice::StdinPipeFailed))
            }
        },
        (ChangePhase::Drop { read_fd, write_fd }, ChangeReply::Dropped(dropped)) => {
            if *dropped {
                (ChangePhase::Fork { read_fd, write_fd }, None)
            } else {
                (ChangePhase::AbortRead { read_fd, write_fd }, Some(Notice::ChangeDropFailed))
            }
        },
        (ChangePhase::Fork { read_fd, write_fd }, ChangeReply::Forked(pid)) => {
            if *pid < 0 {
                (ChangePhase::AbortRead { read_fd, write_fd }, Some(Notice::ChangeForkFailed))
            } else if *pid == 0 {
                (ChangePhase::Helper { read_fd, write_fd }, None)
            } else {
                (ChangePhase::CloseRead { read_fd, write_fd, pid: *pid }, None)
            }
        },
        (ChangePhase::AbortRead { write_fd, .. }, ChangeReply::Done) => (
            ChangePhase::AbortWrite { write_fd },
            None,
        ),
        (ChangePhase::AbortWrite { .. }, ChangeReply::Done) => (ChangePhase::Restore, None),
        (ChangePhase::CloseRead { write_fd, pid, .. }, ChangeReply::Done) => (
            ChangePhase::Feed { write_fd, pid },
            None,
        ),
        (ChangePhase::Feed { write_fd, pid }, ChangeReply::Written { wrote, size }) => {
            if *wrote < 0 || *wrote as usize != *size {
                (ChangePhase::CloseWrite { write_fd, pid }, Some(Notice::StdinWriteFailed))
            } else {
                (ChangePhase::CloseWrite { write_fd, pid }, None)
            }
        },
        (ChangePhase::CloseWrite { pid, .. }, ChangeReply::Done) => (
            ChangePhase::Wait { pid },
            None,
        ),
        (ChangePhase::Wait { .. }, ChangeReply::Done) => (ChangePhase::Restore, None),
        (ChangePhase::Restore, ChangeReply::Done) => (ChangePhase::Done(PAM_SUCCESS), None),
        _ => (phase, None),
    }
}

impl ChangeState {
    /// The user is known from the old passphrase on, and the paths from the
    /// configuration of the file system on.
    pub open spec fn wf(self) -> bool {
        match self.phase {
            ChangePhase::User | ChangePhase::Done(_) => true,
            ChangePhase::OldPass | ChangePhase::NewPass { .. } | ChangePhase::Config => self.user
                is Some,
            _ => self.user is Some && self.site is Some,
        }
    }

    /// A reply takes the change to `next`: the phase follows from the reply, the
    /// user from the first reply, and the paths from the configuration file.
    /// Nothing else changes.
    pub open spec fn steps_to(self, reply: ChangeReply, next: ChangeState) -> bool {
        &&& next.prelim == self.prelim
        &&& next.args == self.args
        &&& next.phase == change_next(self.prelim, self.phase, reply)
        &&& next.user == match (self.phase, reply) {
            (ChangePhase::User, ChangeReply::User(user)) => user,
            _ => self.user,
        }
        &&& match (self.phase, reply) {
            (ChangePhase::Config, ChangeReply::Config(config)) => {
                &&& next.site is Some
                &&& next.site->0.follows(
                    self.user->0,
                    file_bytes(config),
                    opt_text(self.args.0),
                    opt_text(self.args.1),
                )
            },
            _ => next.site == self.site,
        }
    }

    /// `request` is the step that the change takes now.
    pub open spec fn asks(self, request: ChangeRequest) -> bool {
        match (self.phase, request) {
            (ChangePhase::User, ChangeRequest::FetchUser) => true,
            (ChangePhase::OldPass, ChangeRequest::GetOldPass(item)) => item == PAM_OLDAUTHTOK,
            (ChangePhase::NewPass { .. }, ChangeRequest::GetNewPass(item)) => item == PAM_AUTHTOK,
            (ChangePhase::Config, ChangeRequest::ReadConfig(path)) => path@ == config_file(
                self.user->0,
            ),
            (ChangePhase::Conf, ChangeRequest::FileExists(path)) => path@ == path_in(
                self.site->0.paths.cipher_dir@,
                "gocryptfs.conf"@,
            ),
            (ChangePhase::Pipe2, ChangeRequest::MakePipe2) => true,
            (ChangePhase::Pipe, ChangeRequest::MakePipe) => true,
            (ChangePhase::Drop { .. }, ChangeRequest::DropPrivileges { uid, gid }) => {
                &&& uid == self.user->0.uid
                &&& gid == self.user->0.gid
            },
            (ChangePhase::Fork { .. }, ChangeRequest::Fork) => true,
            (
                ChangePhase::Helper { read_fd, write_fd },
                ChangeRequest::BecomeHelper { read_fd: r, write_fd: w, cipher_dir },
            ) => {
                &&& r == read_fd
                &&& w == write_fd
                &&& cipher_dir@ == self.site->0.paths.cipher_dir@
            },
            (ChangePhase::AbortRead { read_fd, .. }, ChangeRequest::Close(fd)) => fd == read_fd,
            (ChangePhase::AbortWrite { write_fd }, ChangeRequest::Close(fd)) => fd == write_fd,
            (ChangePhase::CloseRead { read_fd, .. }, ChangeRequest::Close(fd)) => fd == read_fd,
            (ChangePhase::Feed { .. }, ChangeRequest::WritePassphrases) => true,
            (ChangePhase::CloseWrite { write_fd, .. }, ChangeRequest::Close(fd)) => fd == write_fd,
            (ChangePhase::Wait { pid }, ChangeRequest::Wait(wait)) => wait@.begins(
                pid,
                HELPER_TIMEOUT_SECS,
            ),
            (ChangePhase::Restore, ChangeRequest::RestorePrivileges) => true,
            (ChangePhase::Done(code), ChangeRequest::Return(c)) => c == code,
            _ => false,
        }
    }

    /// The step that the change takes now.
    fn request(&self) -> (r: ChangeRequest)
        requires
            self.wf(),
        ensures
            self.asks(r),
    {
        match self.phase {
            ChangePhase::User => ChangeRequest::FetchUser,
            ChangePhase::OldPass => ChangeRequest::GetOldPass(PAM_OLDAUTHTOK),
            ChangePhase::NewPass { .. } => ChangeRequest::GetNewPass(PAM_AUTHTOK),
            ChangePhase::Config => match &self.user {
                Some(pwd) => ChangeRequest::ReadConfig(user_config_path(pwd)),
                None => ChangeRequest::FetchUser,
            },
            ChangePhase::Conf => match &self.site {
                Some(site) => ChangeRequest::FileExists(
                    file_in(site.paths.cipher_dir.as_str(), "gocryptfs.conf"),
                ),
                None => ChangeRequest::FetchUser,
            },
            ChangePhase::Pipe2 => ChangeRequest::MakePipe2,
            ChangePhase::Pipe => ChangeRequest::MakePipe,
            ChangePhase::Drop { .. } => match &self.user {
                Some(pwd) => ChangeRequest::DropPrivileges { uid: pwd.uid, gid: pwd.gid },
                None => ChangeRequest::FetchUser,
            },
            ChangePhase::Fork { .. } => ChangeRequest::Fork,
            ChangePhase::Helper { read_fd, write_fd } => match &self.site {
                Some(site) => ChangeRequest::BecomeHelper {
                    read_fd,
                    write_fd,
                    cipher_dir: site.paths.cipher_dir.clone(),
                },
                None => ChangeRequest::FetchUser,
            },
            ChangePhase::AbortRead { read_fd, .. } => ChangeRequest::Close(read_fd),
            ChangePhase::AbortWrite { write_fd } => ChangeRequest::Close(write_fd),
            ChangePhase::CloseRead { read_fd, .. } => ChangeRequest::Close(read_fd),
            ChangePhase::Feed { .. } => ChangeRequest::WritePassphrases,
            ChangePhase::CloseWrite { write_fd, .. } => ChangeRequest::Close(write_fd),
            ChangePhase::Wait { pid } => ChangeRequest::Wait(helper_wait(pid)),
            ChangePhase::Restore => ChangeRequest::RestorePrivileges,
            ChangePhase::Done(code) => ChangeRequest::Return(code),
        }
    }

    /// Takes the change one step on.
    fn reply(self, reply: ChangeReply) -> (r: (ChangeState, Option<Notice>))
        requires
            self.wf(),
        ensures
            r.0.wf(),
            self.steps_to(reply, r.0),
            r.1 == change_notice(self.prelim, self.phase, reply),
    {
        let (next, notice) = advance(self.prelim, self.phase, &reply);
        let ChangeState { phase, prelim, args, user, site } = self;
        match (phase, reply) {
            (ChangePhase::User, ChangeReply::User(found)) => (
                ChangeState { phase: next, prelim, args, user: found, site },
                notice,
            ),
            (ChangePhase::Config, ChangeReply::Config(config)) => {
                let found: Option<Site> = match &user {
                    Some(pwd) => Some(user_site(pwd, config.as_ref(), &args)),
                    None => None,
                };
                (ChangeState { phase: next, prelim, args, user, site: found }, notice)
            },
            _ => (ChangeState { phase: next, prelim, args, user, site }, notice),
        }
    }

    /// A call of the hook with these flags and arguments, at its beginning.
    pub open spec fn begins(self, flags: c_int, args: Seq<Option<Vec<u8>>>) -> bool {
        &&& self.wf()
        &&& self.phase == ChangePhase::User
        &&& self.user is None
        &&& self.site is None
        &&& self.prelim == (flags & PAM_PRELIM_CHECK != 0)
        &&& opt_text(self.args.0) == last_setting(argument_texts(args), "cipherdir="@)
        &&& opt_text(self.args.1) == last_setting(argument_texts(args), "mountpoint="@)
    }
}

impl View for ChangeRun {
    type V = ChangeState;

    closed spec fn view(&self) -> ChangeState {
        self.state
    }
}

impl ChangeRun {
    #[verifier::type_invariant]
    spec fn inv(self) -> bool {
        self.state.wf()
    }

    /// How far the change has come.
    pub fn state(&self) -> (r: &ChangeState)
        ensures
            *r == self@,
            r.wf(),
    {
        proof {
            use_type_invariant(self);
        }
        &self.state
    }

    /// The step that the change takes now.
    pub fn request(&self) -> (r: ChangeRequest)
        ensures
            self@.asks(r),
    {
        proof {
            use_type_invariant(self);
        }
        self.state.request()
    }

    /// Takes the change one step on.
    pub fn reply(self, reply: ChangeReply) -> (r: (ChangeRun, Option<Notice>))
        ensures
            self@.steps_to(reply, r.0@),
            r.1 == change_notice(self@.prelim, self@.phase, reply),
    {
        proof {
            use_type_invariant(&self);
        }
        let (state, notice) = self.state.reply(reply);
        (ChangeRun { state }, notice)
    }

    /// What is written where, when the passphrases are handed to the helper: the
    /// lines with the old passphrase and the new one twice, to the write end of
    /// the pipe. In any other phase nothing is written.
    pub fn feed(&self, old_pass: &[u8], new_pass: &[u8]) -> (r: Option<(c_int, Vec<u8>)>)
        requires
            change_lines(old_pass@, new_pass@).len() <= usize::MAX,
        ensures
            match (self@.phase, r) {
                (ChangePhase::Feed { write_fd, .. }, Some((fd, bytes))) => {
                    &&& fd == write_fd
                    &&& bytes@ == change_lines(old_pass@, new_pass@)
                },
                (ChangePhase::Feed { .. }, None) => false,
                (_, written) => written is None,
            },
    {
        match self.state.phase {
            ChangePhase::Feed { write_fd, .. } => Some((write_fd, change_file(old_pass, new_pass))),
            _ => None,
        }
    }
}

/// What writing the passphrases came to, where the write returned `wrote`: it is
/// held against the length of the lines.
pub fn feed_reply(wrote: isize, old_pass: &[u8], new_pass: &[u8]) -> (r: ChangeReply)
    requires
        change_lines(old_pass@, new_pass@).len() <= usize::MAX,
    ensures
        r matches ChangeReply::Written { wrote: w, size } && w == wrote && size == change_lines(
            old_pass@,
            new_pass@,
        ).len(),
{
    ChangeReply::Written { wrote, size: old_pass.len() + new_pass.len() * 2 + 3 }
}

/// Begins a change of the password, in which the passphrase of the file system
/// is changed too.
pub fn pam_sm_chauthtok(flags: c_int, args: &Vec<Option<Vec<u8>>>) -> (r: ChangeRun)
    ensures
        r@.begins(flags, args@),
{
    let state = ChangeState {
        phase: ChangePhase::User,
        prelim: (flags & PAM_PRELIM_CHECK) != 0,
        args: parse_pam_args(args),
        user: None,
        site: None,
    };
    ChangeRun { state }
}

/// The arguments of gocryptfs when it changes the passphrase of the file system
/// in `cipher_dir`. It reads the passphrases from its standard input.
pub open spec fn change_argv(cipher_dir: Seq<char>) -> Seq<Seq<char>> {
    seq!["gocryptfs"@, "-q"@, "-nosyslog"@, "-passwd"@, cipher_dir]
}

/// The command that changes the passphrase of the file system in `cipher_dir`.
pub fn change_command(cipher_dir: &str) -> (r: Command)
    ensures
        r.starts("/usr/bin/gocryptfs"@, change_argv(cipher_dir@)),
{
    let mut argv: Vec<String> = Vec::new();
    argv.push("gocryptfs".to_owned());
    argv.push("-q".to_owned());
    argv.push("-nosyslog".to_owned());
    argv.push("-passwd".to_owned());
    argv.push(cipher_dir.to_owned());
    assert(strings(argv@) =~= change_argv(cipher_dir@));
    Command { bin: "/usr/bin/gocryptfs".to_owned(), argv }
}

/// How far the helper process that changes the passphrase has come.
#[derive(Clone, Copy, Debug, PartialEq, Eq, Structural)]
pub enum ChangeHelperPhase {
    /// It becomes the user.
    Impersonate,
    /// It closes the write end of the pipe.
    CloseWrite,
    /// It makes the read end its standard input.
    TakeInput,
    /// It closes the read end, which it has as its standard input.
    CloseRead,
    /// It turns into gocryptfs.
    Exec,
    /// It ends, with a failure.
    Exit,
}

/// The phase that follows one in which the step succeeded or not. Whether a
/// descriptor could be closed makes no difference, and turning into gocryptfs
/// does not return if it succeeds.
pub open spec fn change_helper_next(phase: ChangeHelperPhase, ok: bool) -> ChangeHelperPhase {
    match phase {
        ChangeHelperPhase::Impersonate if ok => ChangeHelperPhase::CloseWrite,
        ChangeHelperPhase::CloseWrite => ChangeHelperPhase::TakeInput,
        ChangeHelperPhase::TakeInput if ok => ChangeHelperPhase::CloseRead,
        ChangeHelperPhase::CloseRead => ChangeHelperPhase::Exec,
        _ => ChangeHelperPhase::Exit,
    }
}

/// Takes the helper process that changes the passphrase one step on.
pub fn change_helper(phase: ChangeHelperPhase, ok: bool) -> (r: ChangeHelperPhase)
    ensures
        r == change_helper_next(phase, ok),
{
    match phase {
        ChangeHelperPhase::Impersonate if ok => ChangeHelperPhase::CloseWrite,
        ChangeHelperPhase::CloseWrite => ChangeHelperPhase::TakeInput,
        ChangeHelperPhase::TakeInput if ok => ChangeHelperPhase::CloseRead,
        ChangeHelperPhase::CloseRead => ChangeHelperPhase::Exec,
        _ => ChangeHelperPhase::Exit,
    }
}

/// What a step of the helper is.
#[derive(Debug)]
pub enum ChangeHelperRequest {
    Impersonate,
    Close(c_int),
    /// Makes the descriptor `to` the same as `from`.
    Duplicate { from: c_int, to: c_int },
    Exec(Command),
    Exit(c_int),
}

/// `request` is the step that the helper in this phase takes.
pub open spec fn change_helper_asks(
    phase: ChangeHelperPhase,
    read_fd: c_int,
    write_fd: c_int,
    cipher_dir: Seq<char>,
    request: ChangeHelperRequest,
) -> bool {
    match (phase, request) {
        (ChangeHelperPhase::Impersonate, ChangeHelperRequest::Impersonate) => true,
        (ChangeHelperPhase::CloseWrite, ChangeHelperRequest::Close(fd)) => fd == write_fd,
        (ChangeHelperPhase::TakeInput, ChangeHelperRequest::Duplicate { from, to }) => {
            &&& from == read_fd
            &&& to == STANDARD_INPUT
        },
        (ChangeHelperPhase::CloseRead, ChangeHelperRequest::Close(fd)) => fd == read_fd,
        (ChangeHelperPhase::Exec, ChangeHelperRequest::Exec(command)) => command.starts(
            "/usr/bin/gocryptfs"@,
            change_argv(cipher_dir),
        ),
        (ChangeHelperPhase::Exit, ChangeHelperRequest::Exit(status)) => status == 1,
        _ => false,
    }
}

/// The step that the helper in this phase takes.
pub fn change_helper_request(
    phase: ChangeHelperPhase,
    read_fd: c_int,
    write_fd: c_int,
    cipher_dir: &str,
) -> (r: ChangeHelperRequest)
    ensures
        change_helper_asks(phase, read_fd, write_fd, cipher_dir@, r),
{
    match phase {
        ChangeHelperPhase::Impersonate => ChangeHelperRequest::Impersonate,
        ChangeHelperPhase::CloseWrite => ChangeHelperRequest::Close(write_fd),
        ChangeHelperPhase::TakeInput => ChangeHelperRequest::Duplicate {
            from: read_fd,
            to: STANDARD_INPUT,
        },
        ChangeHelperPhase::CloseRead => ChangeHelperRequest::Close(read_fd),
        ChangeHelperPhase::Exec => ChangeHelperRequest::Exec(change_command(cipher_dir)),
        ChangeHelperPhase::Exit => ChangeHelperRequest::Exit(1),
    }
}

/// The world that the hook is called in: who the user is, what PAM returns for
/// the two passphrases and how long they are, what the configuration file
/// holds, which files there are, what making a pipe returns and its ends,
/// whether privileges can be dropped, and what starting the helper and writing
/// to it return.
pub struct ChangeWorld {
    pub user: Option<PasswordInfo>,
    pub old_pass: (c_int, Option<usize>),
    pub new_pass: (c_int, Option<usize>),
    pub config: Option<Vec<u8>>,
    pub files: spec_fn(Seq<char>) -> bool,
    pub pipe2: (c_int, c_int, c_int),
    pub pipe: (c_int, c_int, c_int),
    pub dropped: bool,
    pub pid: pid_t,
    pub wrote: isize,
    pub size: usize,
}

impl ChangeWorld {
    /// The cipher directory whose passphrase changes.
    pub open spec fn cipher_dir(self, args: Seq<Option<Vec<u8>>>) -> Seq<char> {
        let cipher = first_set(
            last_setting(file_lines(file_bytes(self.config)), "cipherdir="@),
            last_setting(argument_texts(args), "cipherdir="@),
        );
        path_in(config_directory(self.user->0, cipher), "gocryptfs"@)
    }

    /// Whether there is a file system whose passphrase could change.
    pub open spec fn has_conf(self, args: Seq<Option<Vec<u8>>>) -> bool {
        (self.files)(path_in(self.cipher_dir(args), "gocryptfs.conf"@))
    }

    /// What the hook is answered in a phase.
    pub open spec fn answer(self, args: Seq<Option<Vec<u8>>>, phase: ChangePhase) -> ChangeReply {
        match phase {
            ChangePhase::User => ChangeReply::User(self.user),
            ChangePhase::OldPass => ChangeReply::Pass {
                rc: self.old_pass.0,
                length: self.old_pass.1,
            },
            ChangePhase::NewPass { .. } => ChangeReply::Pass {
                rc: self.new_pass.0,
                length: self.new_pass.1,
            },
            ChangePhase::Config => ChangeReply::Config(self.config),
            ChangePhase::Conf => ChangeReply::Exists(self.has_conf(args)),
            ChangePhase::Pipe2 => ChangeReply::Pipe {
                rc: self.pipe2.0,
                read_fd: self.pipe2.1,
                write_fd: self.pipe2.2,
            },
            ChangePhase::Pipe => ChangeReply::Pipe {
                rc: self.pipe.0,
                read_fd: self.pipe.1,
                write_fd: self.pipe.2,
            },
            ChangePhase::Drop { .. } => ChangeReply::Dropped(self.dropped),
            ChangePhase::Fork { .. } => ChangeReply::Forked(self.pid),
            ChangePhase::Feed { .. } => ChangeReply::Written {
                wrote: self.wrote,
                size: self.size,
            },
            _ => ChangeReply::Done,
        }
    }

    /// The reply is what the step of the run comes to in this world.
    pub open spec fn replies(
        self,
        args: Seq<Option<Vec<u8>>>,
        run: ChangeState,
        reply: ChangeReply,
    ) -> bool {
        match run.phase {
            ChangePhase::Conf => reply == ChangeReply::Exists(
                (self.files)(path_in(run.site->0.paths.cipher_dir@, "gocryptfs.conf"@)),
            ),
            ChangePhase::Helper { .. } | ChangePhase::Done(_) => false,
            phase => reply == self.answer(args, phase),
        }
    }

    /// Whether PAM hands out what the change needs: the old passphrase, and a
    /// new one that is not empty.
    pub open spec fn has_both(self) -> bool {
        &&& self.old_pass.0 == PAM_SUCCESS && self.old_pass.1 is Some
        &&& self.new_pass.0 == PAM_SUCCESS && is_full(self.new_pass.1)
    }

    /// Whether there is a pipe.
    pub open spec fn has_pipe(self) -> bool {
        self.pipe2.0 == 0 || self.pipe.0 == 0
    }

    /// The read end of the pipe.
    pub open spec fn read_fd(self) -> c_int {
        if self.pipe2.0 == 0 {
            self.pipe2.1
        } else {
            self.pipe.1
        }
    }

    /// The write end of the pipe.
    pub open spec fn write_fd(self) -> c_int {
        if self.pipe2.0 == 0 {
            self.pipe2.2
        } else {
            self.pipe.2
        }
    }

    /// The run knows of this world what it should.
    spec fn known(self, args: Seq<Option<Vec<u8>>>, prelim: bool, run: ChangeState) -> bool {
        &&& run.prelim == prelim
        &&& opt_text(run.args.0) == last_setting(argument_texts(args), "cipherdir="@)
        &&& opt_text(run.args.1) == last_setting(argument_texts(args), "mountpoint="@)
        &&& !(run.phase is User || run.phase is Done) ==> run.user == self.user && self.user is Some
        &&& !(run.phase is User || run.phase is OldPass || run.phase is NewPass || run.phase
            is Config || run.phase is Done) ==> run.site is Some && run.site->0.follows(
            self.user->0,
            file_bytes(self.config),
            opt_text(run.args.0),
            opt_text(run.args.1),
        )
    }
}

/// How many steps the change has left at most.
pub open spec fn change_steps_left(phase: ChangePhase) -> nat {
    match phase {
        ChangePhase::User => 14,
        ChangePhase::OldPass => 13,
        ChangePhase::NewPass { .. } => 12,
        ChangePhase::Config => 11,
        ChangePhase::Conf => 10,
        ChangePhase::Pipe2 => 9,
        ChangePhase::Pipe => 8,
        ChangePhase::Drop { .. } => 7,
        ChangePhase::Fork { .. } => 6,
        ChangePhase::CloseRead { .. } => 5,
        ChangePhase::Feed { .. } => 4,
        ChangePhase::CloseWrite { .. } => 3,
        ChangePhase::AbortRead { .. } => 3,
        ChangePhase::AbortWrite { .. } => 2,
        ChangePhase::Wait { .. } => 2,
        ChangePhase::Restore => 1,
        ChangePhase::Helper { .. } => 0,
        ChangePhase::Done(_) => 0,
    }
}

/// Whether the change passes through `target` from `phase` on, in this world.
pub open spec fn change_passes(
    world: ChangeWorld,
    args: Seq<Option<Vec<u8>>>,
    prelim: bool,
    phase: ChangePhase,
    target: ChangePhase,
) -> bool
    decreases change_steps_left(phase),
{
    ||| phase == target
    ||| change_steps_left(phase) > 0 && change_passes(
        world,
        args,
        prelim,
        change_next(prelim, phase, world.answer(args, phase)),
        target,
    )
}

/// A step in the world leads where the world says.
proof fn lemma_change_step(
    world: ChangeWorld,
    args: Seq<Option<Vec<u8>>>,
    prelim: bool,
    run: ChangeState,
    reply: ChangeReply,
    next: ChangeState,
)
    requires
        world.known(args, prelim, run),
        world.replies(args, run, reply),
        run.steps_to(reply, next),
    ensures
        world.known(args, prelim, next),
        next.phase == change_next(prelim, run.phase, world.answer(args, run.phase)),
{
}

/// A complete call of the hook in a world: it begins with the flags and the
/// arguments, each step is answered as the world has it, and the end is
/// reached.
pub open spec fn complete_change(
    world: ChangeWorld,
    flags: c_int,
    args: Seq<Option<Vec<u8>>>,
    runs: Seq<ChangeState>,
    replies: Seq<ChangeReply>,
) -> bool {
    &&& runs.len() == replies.len() + 1
    &&& runs[0].begins(flags, args)
    &&& runs.last().phase is Done
    &&& forall|i: int|
        #![trigger replies[i]]
        0 <= i < replies.len() ==> world.replies(args, runs[i], replies[i]) && runs[i].steps_to(
            replies[i],
            runs[i + 1],
        )
}

/// Whether a call of the hook is in a phase at some time.
pub open spec fn change_reaches(runs: Seq<ChangeState>, phase: ChangePhase) -> bool {
    exists|i: int| 0 <= i < runs.len() && (#[trigger] runs[i]).phase == phase
}

proof fn lemma_change_follows_world(
    world: ChangeWorld,
    flags: c_int,
    args: Seq<Option<Vec<u8>>>,
    runs: Seq<ChangeState>,
    replies: Seq<ChangeReply>,
    target: ChangePhase,
    n: int,
)
    requires
        complete_change(world, flags, args, runs, replies),
        0 <= n < runs.len(),
    ensures
        world.known(args, runs[0].prelim, runs[n]),
        change_passes(world, args, runs[0].prelim, ChangePhase::User, target) <==> (change_reaches(
            runs.take(n),
            target,
        ) || change_passes(world, args, runs[0].prelim, runs[n].phase, target)),
    decreases n,
{
    let before = runs.take(n);
    if n > 0 {
        lemma_change_follows_world(world, flags, args, runs, replies, target, n - 1);
        let earlier = runs.take(n - 1);
        let _ = replies[n - 1];
        lemma_change_step(
            world,
            args,
            runs[0].prelim,
            runs[n - 1],
            replies[n - 1],
            runs[n],
        );
        assert(before[n - 1] == runs[n - 1]);
        if change_reaches(earlier, target) {
            let i = choose|i: int| 0 <= i < earlier.len() && (#[trigger] earlier[i]).phase == target;
            assert(before[i] == earlier[i]);
        }
        if change_reaches(before, target) && !change_reaches(earlier, target) {
            let i = choose|i: int| 0 <= i < before.len() && (#[trigger] before[i]).phase == target;
            if i < n - 1 {
                assert(earlier[i] == before[i]);
            }
            assert(runs[n - 1].phase == target);
        }
    }
}

/// A call of the hook reaches exactly the phases that the world leads through.
proof fn lemma_change_reaches(
    world: ChangeWorld,
    flags: c_int,
    args: Seq<Option<Vec<u8>>>,
    runs: Seq<ChangeState>,
    replies: Seq<ChangeReply>,
    target: ChangePhase,
)
    requires
        complete_change(world, flags, args, runs, replies),
    ensures
        change_reaches(runs, target) <==> change_passes(
            world,
            args,
            runs[0].prelim,
            ChangePhase::User,
            target,
        ),
{
    let n = runs.len() - 1;
    lemma_change_follows_world(world, flags, args, runs, replies, target, n);
    let before = runs.take(n);
    if change_reaches(before, target) {
        let i = choose|i: int| 0 <= i < before.len() && (#[trigger] before[i]).phase == target;
        assert(runs[i] == before[i]);
    }
    if change_reaches(runs, target) {
        let i = choose|i: int| 0 <= i < runs.len() && (#[trigger] runs[i]).phase == target;
        if i < n {
            assert(before[i] == runs[i]);
        }
    }
    assert(runs[n].phase is Done);
    assert(change_steps_left(runs[n].phase) == 0);
}

/// Where the change goes once privileges are to be taken back.
proof fn lemma_from_restore(
    world: ChangeWorld,
    args: Seq<Option<Vec<u8>>>,
    prelim: bool,
    target: ChangePhase,
)
    ensures
        change_passes(world, args, prelim, ChangePhase::Restore, target) <==> {
            ||| target == ChangePhase::Restore
            ||| target == ChangePhase::Done(PAM_SUCCESS)
        },
{
    reveal_with_fuel(change_passes, 2);
}

/// Where the change goes without a helper.
proof fn lemma_from_abort(
    world: ChangeWorld,
    args: Seq<Option<Vec<u8>>>,
    prelim: bool,
    read_fd: c_int,
    write_fd: c_int,
    target: ChangePhase,
)
    ensures
        change_passes(world, args, prelim, ChangePhase::AbortRead { read_fd, write_fd }, target)
            <==> {
            ||| target == ChangePhase::AbortRead { read_fd, write_fd }
            ||| target == ChangePhase::AbortWrite { write_fd }
            ||| change_passes(world, args, prelim, ChangePhase::Restore, target)
        },
{
    reveal_with_fuel(change_passes, 2);
}

/// Where the change goes with a helper.
proof fn lemma_from_close_read(
    world: ChangeWorld,
    args: Seq<Option<Vec<u8>>>,
    prelim: bool,
    read_fd: c_int,
    write_fd: c_int,
    pid: pid_t,
    target: ChangePhase,
)
    ensures
        change_passes(
            world,
            args,
            prelim,
            ChangePhase::CloseRead { read_fd, write_fd, pid },
            target,
        ) <==> {
            ||| target == ChangePhase::CloseRead { read_fd, write_fd, pid }
            ||| target == ChangePhase::Feed { write_fd, pid }
            ||| target == ChangePhase::CloseWrite { write_fd, pid }
            ||| target == ChangePhase::Wait { pid }
            ||| change_passes(world, args, prelim, ChangePhase::Restore, target)
        },
{
    reveal_with_fuel(change_passes, 4);
}

/// Where the change goes from the start of the helper.
proof fn lemma_from_fork(
    world: ChangeWorld,
    args: Seq<Option<Vec<u8>>>,
    prelim: bool,
    read_fd: c_int,
    write_fd: c_int,
    target: ChangePhase,
)
    ensures
        change_passes(world, args, prelim, ChangePhase::Fork { read_fd, write_fd }, target) <==> {
            ||| target == ChangePhase::Fork { read_fd, write_fd }
            ||| world.pid < 0 && change_passes(
                world,
                args,
                prelim,
                ChangePhase::AbortRead { read_fd, write_fd },
                target,
            )
            ||| world.pid == 0 && target == ChangePhase::Helper { read_fd, write_fd }
            ||| world.pid > 0 && change_passes(
                world,
                args,
                prelim,
                ChangePhase::CloseRead { read_fd, write_fd, pid: world.pid },
                target,
            )
        },
{
    reveal_with_fuel(change_passes, 2);
}

/// Where the change goes from dropping privileges.
proof fn lemma_from_drop(
    world: ChangeWorld,
    args: Seq<Option<Vec<u8>>>,
    prelim: bool,
    read_fd: c_int,
    write_fd: c_int,
    target: ChangePhase,
)
    ensures
        change_passes(world, args, prelim, ChangePhase::Drop { read_fd, write_fd }, target) <==> {
            ||| target == ChangePhase::Drop { read_fd, write_fd }
            ||| world.dropped && change_passes(
                world,
                args,
                prelim,
                ChangePhase::Fork { read_fd, write_fd },
                target,
            )
            ||| !world.dropped && change_passes(
                world,
                args,
                prelim,
                ChangePhase::AbortRead { read_fd, write_fd },
                target,
            )
        },
{
}

/// Where the change goes from making a pipe.
proof fn lemma_from_pipe(
    world: ChangeWorld,
    args: Seq<Option<Vec<u8>>>,
    prelim: bool,
    target: ChangePhase,
)
    ensures
        change_passes(world, args, prelim, ChangePhase::Pipe2, target) <==> {
            ||| target == ChangePhase::Pipe2
            ||| world.pipe2.0 != 0 && target == ChangePhase::Pipe
            ||| world.has_pipe() && change_passes(
                world,
                args,
                prelim,
                ChangePhase::Drop { read_fd: world.read_fd(), write_fd: world.write_fd() },
                target,
            )
            ||| !world.has_pipe() && target == ChangePhase::Done(PAM_SUCCESS)
        },
{
    reveal_with_fuel(change_passes, 3);
}

/// Where the change goes once both passphrases are there.
proof fn lemma_from_config(
    world: ChangeWorld,
    args: Seq<Option<Vec<u8>>>,
    prelim: bool,
    target: ChangePhase,
)
    ensures
        change_passes(world, args, prelim, ChangePhase::Config, target) <==> {
            ||| target == ChangePhase::Config
            ||| target == ChangePhase::Conf
            ||| world.has_conf(args) && change_passes(
                world,
                args,
                prelim,
                ChangePhase::Pipe2,
                target,
            )
            ||| !world.has_conf(args) && target == ChangePhase::Done(PAM_SUCCESS)
        },
{
    reveal_with_fuel(change_passes, 3);
}

/// The code with which the hook returns before it does anything, if it does.
pub open spec fn early_code(world: ChangeWorld, prelim: bool) -> Option<c_int> {
    if world.user is None || world.old_pass.0 != PAM_SUCCESS {
        Some(PAM_SUCCESS)
    } else if prelim {
        Some(
            if is_full(world.old_pass.1) {
                PAM_SUCCESS
            } else {
                PAM_AUTHTOK_RECOVERY_ERR
            },
        )
    } else if world.new_pass.0 != PAM_SUCCESS {
        Some(PAM_SUCCESS)
    } else if world.has_both() {
        None
    } else {
        Some(PAM_AUTHTOK_RECOVERY_ERR)
    }
}

/// Where the change goes from its beginning, to any phase but those in which it
/// finds out about the user and the passphrases.
proof fn lemma_from_user(
    world: ChangeWorld,
    args: Seq<Option<Vec<u8>>>,
    prelim: bool,
    target: ChangePhase,
)
    requires
        !(target is User || target is OldPass || target is NewPass),
    ensures
        change_passes(world, args, prelim, ChangePhase::User, target) <==> match early_code(
            world,
            prelim,
        ) {
            Some(code) => target == ChangePhase::Done(code),
            None => change_passes(world, args, prelim, ChangePhase::Config, target),
        },
{
    reveal_with_fuel(change_passes, 4);
}

/// Whether there is a pipe in the end: PAM asked for the change, both
/// passphrases are there, there is a file system, and a pipe could be made.
pub open spec fn piped(world: ChangeWorld, flags: c_int, args: Seq<Option<Vec<u8>>>) -> bool {
    &&& world.user is Some
    &&& flags & PAM_PRELIM_CHECK == 0
    &&& world.has_both()
    &&& world.has_conf(args)
    &&& world.has_pipe()
}

/// A phase in which there is a pipe, or was one.
spec fn is_late(phase: ChangePhase) -> bool {
    match phase {
        ChangePhase::User
        | ChangePhase::OldPass
        | ChangePhase::NewPass { .. }
        | ChangePhase::Config
        | ChangePhase::Conf
        | ChangePhase::Pipe2
        | ChangePhase::Pipe
        | ChangePhase::Done(_) => false,
        _ => true,
    }
}

/// A call reaches a late phase if and only if there is a pipe and the way from
/// dropping privileges leads there.
proof fn lemma_reaches_late(
    world: ChangeWorld,
    flags: c_int,
    args: Seq<Option<Vec<u8>>>,
    runs: Seq<ChangeState>,
    replies: Seq<ChangeReply>,
    target: ChangePhase,
)
    requires
        complete_change(world, flags, args, runs, replies),
        is_late(target),
    ensures
        change_reaches(runs, target) <==> piped(world, flags, args) && change_passes(
            world,
            args,
            runs[0].prelim,
            ChangePhase::Drop { read_fd: world.read_fd(), write_fd: world.write_fd() },
            target,
        ),
{
    let prelim = runs[0].prelim;
    lemma_change_reaches(world, flags, args, runs, replies, target);
    lemma_from_user(world, args, prelim, target);
    lemma_from_config(world, args, prelim, target);
    lemma_from_pipe(world, args, prelim, target);
}

/// Where a call ends.
proof fn lemma_change_end(
    world: ChangeWorld,
    flags: c_int,
    args: Seq<Option<Vec<u8>>>,
    runs: Seq<ChangeState>,
    replies: Seq<ChangeReply>,
)
    requires
        complete_change(world, flags, args, runs, replies),
    ensures
        runs.last().phase == ChangePhase::Done(
            match early_code(world, runs[0].prelim) {
                Some(code) => code,
                None => PAM_SUCCESS,
            },
        ),
        piped(world, flags, args) && world.dropped ==> world.pid != 0,
{
    let prelim = runs[0].prelim;
    let end = runs.last().phase;
    let (read_fd, write_fd) = (world.read_fd(), world.write_fd());
    assert(runs[runs.len() - 1].phase == end);
    lemma_change_reaches(world, flags, args, runs, replies, end);
    lemma_from_user(world, args, prelim, end);
    lemma_from_config(world, args, prelim, end);
    lemma_from_pipe(world, args, prelim, end);
    lemma_from_drop(world, args, prelim, read_fd, write_fd, end);
    lemma_from_fork(world, args, prelim, read_fd, write_fd, end);
    lemma_from_abort(world, args, prelim, read_fd, write_fd, end);
    lemma_from_close_read(world, args, prelim, read_fd, write_fd, world.pid, end);
    lemma_from_restore(world, args, prelim, end);
}

/// The hook reports a missing passphrase if and only if PAM asked for the check
/// and there is no old passphrase, or PAM asked for the change and it lacks the
/// old passphrase or a new one that is not empty. Whatever else goes wrong, the
/// change of the password is not held up.
pub proof fn law_change_code(
    world: ChangeWorld,
    flags: c_int,
    args: Seq<Option<Vec<u8>>>,
    runs: Seq<ChangeState>,
    replies: Seq<ChangeReply>,
)
    requires
        complete_change(world, flags, args, runs, replies),
    ensures
        runs.last().phase == ChangePhase::Done(
            if world.user is Some && world.old_pass.0 == PAM_SUCCESS && (if flags
                & PAM_PRELIM_CHECK != 0 {
                !is_full(world.old_pass.1)
            } else {
                world.new_pass.0 == PAM_SUCCESS && (world.old_pass.1 is None || !is_full(
                    world.new_pass.1,
                ))
            }) {
                PAM_AUTHTOK_RECOVERY_ERR
            } else {
                PAM_SUCCESS
            },
        ),
{
    lemma_change_end(world, flags, args, runs, replies);
}

/// The helper that changes the passphrase is started if and only if there is a
/// pipe to it and privileges could be dropped. Once it runs it is fed and waited
/// for.
pub proof fn law_change(
    world: ChangeWorld,
    flags: c_int,
    args: Seq<Option<Vec<u8>>>,
    runs: Seq<ChangeState>,
    replies: Seq<ChangeReply>,
)
    requires
        complete_change(world, flags, args, runs, replies),
    ensures
        ({
            let (read_fd, write_fd) = (world.read_fd(), world.write_fd());
            let pid = world.pid;
            let started = piped(world, flags, args) && world.dropped;
            &&& change_reaches(runs, ChangePhase::Fork { read_fd, write_fd }) <==> started
            &&& change_reaches(runs, ChangePhase::Feed { write_fd, pid }) <==> started && pid > 0
            &&& change_reaches(runs, ChangePhase::Wait { pid }) <==> started && pid > 0
        }),
{
    let (read_fd, write_fd) = (world.read_fd(), world.write_fd());
    let pid = world.pid;
    lemma_late_phase(world, flags, args, runs, replies, ChangePhase::Fork { read_fd, write_fd });
    lemma_late_phase(world, flags, args, runs, replies, ChangePhase::Feed { write_fd, pid });
    lemma_late_phase(world, flags, args, runs, replies, ChangePhase::Wait { pid });
}

/// Privileges are touched if and only if there is a pipe, and then they are
/// taken back.
pub proof fn law_change_privileges(
    world: ChangeWorld,
    flags: c_int,
    args: Seq<Option<Vec<u8>>>,
    runs: Seq<ChangeState>,
    replies: Seq<ChangeReply>,
)
    requires
        complete_change(world, flags, args, runs, replies),
    ensures
        ({
            let (read_fd, write_fd) = (world.read_fd(), world.write_fd());
            &&& change_reaches(runs, ChangePhase::Drop { read_fd, write_fd }) <==> piped(
                world,
                flags,
                args,
            )
            &&& change_reaches(runs, ChangePhase::Restore) <==> piped(world, flags, args)
        }),
{
    let (read_fd, write_fd) = (world.read_fd(), world.write_fd());
    lemma_late_phase(world, flags, args, runs, replies, ChangePhase::Drop { read_fd, write_fd });
    lemma_late_phase(world, flags, args, runs, replies, ChangePhase::Restore);
}

/// The phases of a change come one after the other: none comes twice.
proof fn lemma_no_change_phase_twice(
    world: ChangeWorld,
    flags: c_int,
    args: Seq<Option<Vec<u8>>>,
    runs: Seq<ChangeState>,
    replies: Seq<ChangeReply>,
    i: int,
    j: int,
)
    requires
        complete_change(world, flags, args, runs, replies),
        0 <= i < j < runs.len(),
    ensures
        change_steps_left(runs[j].phase) < change_steps_left(runs[i].phase),
    decreases j,
{
    let _ = replies[j - 1];
    law_change_ends(runs[j - 1], replies[j - 1], runs[j]);
    if i < j - 1 {
        lemma_no_change_phase_twice(world, flags, args, runs, replies, i, j - 1);
    }
}

/// Once privileges were touched, they are taken back exactly once, and that is
/// the last step before the hook returns.
pub proof fn law_change_takes_back_last(
    world: ChangeWorld,
    flags: c_int,
    args: Seq<Option<Vec<u8>>>,
    runs: Seq<ChangeState>,
    replies: Seq<ChangeReply>,
    i: int,
)
    requires
        complete_change(world, flags, args, runs, replies),
        0 <= i < runs.len(),
        runs[i].phase is Drop,
    ensures
        i < runs.len() - 2,
        forall|j: int|
            0 <= j < runs.len() ==> ((#[trigger] runs[j]).phase == ChangePhase::Restore <==> j
                == runs.len() - 2),
        forall|j: int| 0 <= j < runs.len() && (#[trigger] runs[j]).phase is Drop ==> j == i,
{
    lemma_late_phase(world, flags, args, runs, replies, runs[i].phase);
    lemma_late_phase(world, flags, args, runs, replies, ChangePhase::Restore);
    assert(change_reaches(runs, runs[i].phase));
    let last = runs.len() - 1;
    assert forall|j: int|
        0 <= j < runs.len() && (#[trigger] runs[j]).phase == ChangePhase::Restore implies j == last
        - 1 by {
        let _ = replies[j];
        if j + 1 < last {
            lemma_no_change_phase_twice(world, flags, args, runs, replies, j + 1, last);
        }
    }
    let k = choose|k: int| 0 <= k < runs.len() && (#[trigger] runs[k]).phase
        == ChangePhase::Restore;
    assert(runs[k].phase == ChangePhase::Restore);
    if k < i {
        lemma_no_change_phase_twice(world, flags, args, runs, replies, k, i);
    }
    assert forall|j: int| 0 <= j < runs.len() && (#[trigger] runs[j]).phase is Drop implies j
        == i by {
        if i < j {
            lemma_no_change_phase_twice(world, flags, args, runs, replies, i, j);
        } else if j < i {
            lemma_no_change_phase_twice(world, flags, args, runs, replies, j, i);
        }
    }
}

/// Both ends of the pipe are closed, with a helper and without one.
pub proof fn law_change_pipe_is_closed(
    world: ChangeWorld,
    flags: c_int,
    args: Seq<Option<Vec<u8>>>,
    runs: Seq<ChangeState>,
    replies: Seq<ChangeReply>,
)
    requires
        complete_change(world, flags, args, runs, replies),
    ensures
        ({
            let (read_fd, write_fd) = (world.read_fd(), world.write_fd());
            let pid = world.pid;
            let made = piped(world, flags, args);
            let helped = made && world.dropped && pid > 0;
            let alone = made && !(world.dropped && pid > 0);
            &&& change_reaches(runs, ChangePhase::CloseRead { read_fd, write_fd, pid }) <==> helped
            &&& change_reaches(runs, ChangePhase::CloseWrite { write_fd, pid }) <==> helped
            &&& change_reaches(runs, ChangePhase::AbortRead { read_fd, write_fd }) <==> alone
            &&& change_reaches(runs, ChangePhase::AbortWrite { write_fd }) <==> alone
        }),
{
    let (read_fd, write_fd) = (world.read_fd(), world.write_fd());
    let pid = world.pid;
    let close_read = ChangePhase::CloseRead { read_fd, write_fd, pid };
    lemma_late_phase(world, flags, args, runs, replies, close_read);
    lemma_late_phase(world, flags, args, runs, replies, ChangePhase::CloseWrite { write_fd, pid });
    let abort_read = ChangePhase::AbortRead { read_fd, write_fd };
    lemma_late_phase(world, flags, args, runs, replies, abort_read);
    lemma_late_phase(world, flags, args, runs, replies, ChangePhase::AbortWrite { write_fd });
}

/// When a call reaches a late phase.
proof fn lemma_late_phase(
    world: ChangeWorld,
    flags: c_int,
    args: Seq<Option<Vec<u8>>>,
    runs: Seq<ChangeState>,
    replies: Seq<ChangeReply>,
    target: ChangePhase,
)
    requires
        complete_change(world, flags, args, runs, replies),
        is_late(target),
    ensures
        ({
            let (read_fd, write_fd) = (world.read_fd(), world.write_fd());
            let pid = world.pid;
            let helped = world.dropped && pid > 0;
            change_reaches(runs, target) <==> piped(world, flags, args) && {
                ||| target == ChangePhase::Drop { read_fd, write_fd }
                ||| target == ChangePhase::Restore
                ||| world.dropped && target == ChangePhase::Fork { read_fd, write_fd }
                ||| helped && target == ChangePhase::CloseRead { read_fd, write_fd, pid }
                ||| helped && target == ChangePhase::Feed { write_fd, pid }
                ||| helped && target == ChangePhase::CloseWrite { write_fd, pid }
                ||| helped && target == ChangePhase::Wait { pid }
                ||| !helped && target == ChangePhase::AbortRead { read_fd, write_fd }
                ||| !helped && target == ChangePhase::AbortWrite { write_fd }
            }
        }),
{
    let prelim = runs[0].prelim;
    let (read_fd, write_fd) = (world.read_fd(), world.write_fd());
    lemma_change_end(world, flags, args, runs, replies);
    lemma_reaches_late(world, flags, args, runs, replies, target);
    lemma_from_drop(world, args, prelim, read_fd, write_fd, target);
    lemma_from_fork(world, args, prelim, read_fd, write_fd, target);
    lemma_from_abort(world, args, prelim, read_fd, write_fd, target);
    lemma_from_close_read(world, args, prelim, read_fd, write_fd, world.pid, target);
    lemma_from_restore(world, args, prelim, target);
}

/// What is changed is the passphrase of the file system of the user: the helper
/// is started with the cipher directory that the configuration file, the module
/// arguments and the home directory of the user give. How the mount point is set
/// makes no difference.
pub proof fn law_change_is_for_the_user(
    world: ChangeWorld,
    flags: c_int,
    args: Seq<Option<Vec<u8>>>,
    runs: Seq<ChangeState>,
    replies: Seq<ChangeReply>,
    i: int,
)
    requires
        complete_change(world, flags, args, runs, replies),
        0 <= i < runs.len(),
        runs[i].phase is Fork,
    ensures
        world.user is Some && runs[i].user == world.user,
        runs[i].site is Some && runs[i].site->0.paths.cipher_dir@ == world.cipher_dir(args),
{
    lemma_change_follows_world(world, flags, args, runs, replies, ChangePhase::Restore, i);
}

/// A write of the passphrases is reported as failed if and only if it did not
/// write every byte of the lines.
pub proof fn law_short_feed_is_reported(
    prelim: bool,
    write_fd: c_int,
    pid: pid_t,
    wrote: isize,
    size: usize,
    old_pass: Seq<u8>,
    new_pass: Seq<u8>,
)
    requires
        size == change_lines(old_pass, new_pass).len(),
    ensures
        change_notice(
            prelim,
            ChangePhase::Feed { write_fd, pid },
            ChangeReply::Written { wrote, size },
        ) == (if wrote == change_lines(old_pass, new_pass).len() {
            None
        } else {
            Some(Notice::StdinWriteFailed)
        }),
        change_lines(old_pass, new_pass).len() == old_pass.len() + 2 * new_pass.len() + 3,
{
}

/// Every reply that takes the change on brings it closer to its end, so that it
/// takes no more than fourteen steps.
pub proof fn law_change_ends(run: ChangeState, reply: ChangeReply, next: ChangeState)
    requires
        run.steps_to(reply, next),
        next.phase != run.phase,
    ensures
        change_steps_left(next.phase) < change_steps_left(run.phase) <= 14,
{
}

/// gocryptfs runs as the user with the passphrases on its standard input, or
/// not at all.
pub proof fn law_change_helper(user: bool, input: bool, ok: bool)
    ensures
        ({
            let first = change_helper_next(ChangeHelperPhase::Impersonate, user);
            let second = change_helper_next(first, ok);
            let third = change_helper_next(second, input);
            let fourth = change_helper_next(third, ok);
            let fifth = change_helper_next(fourth, ok);
            &&& first == ChangeHelperPhase::CloseWrite <==> user
            &&& fourth == ChangeHelperPhase::Exec <==> user && input
            &&& fifth == ChangeHelperPhase::Exit
        }),
{
}

/// The command that changes the passphrase works on the cipher directory it was
/// made for, character for character, and has no passphrase among its arguments.
pub proof fn law_change_command(command: Command, cipher_dir: Seq<char>)
    requires
        command.starts("/usr/bin/gocryptfs"@, change_argv(cipher_dir)),
    ensures
        command.bin@ == "/usr/bin/gocryptfs"@,
        command.argv@.len() == 5,
        command.argv@[0]@ == "gocryptfs"@,
        command.argv@[1]@ == "-q"@,
        command.argv@[2]@ == "-nosyslog"@,
        command.argv@[3]@ == "-passwd"@,
        command.argv@[4]@ == cipher_dir,
        change_argv(cipher_dir).len() == 5,
        change_argv(cipher_dir)[3] == "-passwd"@,
        change_argv(cipher_dir)[4] == cipher_dir,
{
    law_command(command, "/usr/bin/gocryptfs"@, change_argv(cipher_dir));
}

/// What the helper that changes the passphrase works on: it closes the write end
/// of the pipe, reads from the read end as its standard input, and turns into
/// gocryptfs for the cipher directory. It ends with a failure if it cannot.
pub proof fn law_change_helper_requests(
    phase: ChangeHelperPhase,
    read_fd: c_int,
    write_fd: c_int,
    cipher_dir: Seq<char>,
    request: ChangeHelperRequest,
)
    requires
        change_helper_asks(phase, read_fd, write_fd, cipher_dir, request),
    ensures
        phase == ChangeHelperPhase::Impersonate <==> request is Impersonate,
        phase == ChangeHelperPhase::CloseWrite ==> request == ChangeHelperRequest::Close(write_fd),
        phase == ChangeHelperPhase::TakeInput ==> request == (ChangeHelperRequest::Duplicate {
            from: read_fd,
            to: 0,
        }),
        phase == ChangeHelperPhase::CloseRead ==> request == ChangeHelperRequest::Close(read_fd),
        phase == ChangeHelperPhase::Exec <==> request is Exec,
        request matches ChangeHelperRequest::Exec(command) ==> command.bin@
            == "/usr/bin/gocryptfs"@ && command.argv@.len() == 5 && command.argv@[3]@
            == "-passwd"@ && command.argv@[4]@ == cipher_dir,
        phase == ChangeHelperPhase::Exit ==> request == ChangeHelperRequest::Exit(1),
{
    if let ChangeHelperRequest::Exec(command) = request {
        law_change_command(command, cipher_dir);
    }
}

/// What each step of the change works on: the old and the new passphrase of the
/// transaction, the configuration file in the home directory, the configuration
/// of the file system in the cipher directory, the user and the group of the
/// user, and both ends of the pipe. The helper is made for the cipher directory
/// in which that configuration was looked for.
pub proof fn law_change_requests(state: ChangeState, request: ChangeRequest)
    requires
        state.asks(request),
    ensures
        state.phase == ChangePhase::User <==> request is FetchUser,
        state.phase == ChangePhase::OldPass ==> request == ChangeRequest::GetOldPass(7),
        state.phase is NewPass ==> request == ChangeRequest::GetNewPass(6),
        state.phase == ChangePhase::Config <==> request is ReadConfig,
        request matches ChangeRequest::ReadConfig(path) ==> path@ == until_nul(
            lossy_text(state.user->0.dir@) + "/.gocryptfs/config"@,
        ),
        state.phase == ChangePhase::Conf <==> request is FileExists,
        request matches ChangeRequest::FileExists(path) ==> path@ == until_nul(
            state.site->0.paths.cipher_dir@ + "/gocryptfs.conf"@,
        ),
        state.phase == ChangePhase::Pipe2 <==> request is MakePipe2,
        state.phase == ChangePhase::Pipe <==> request is MakePipe,
        state.phase is Drop <==> request is DropPrivileges,
        request matches ChangeRequest::DropPrivileges { uid, gid } ==> uid == state.user->0.uid
            && gid == state.user->0.gid,
        state.phase is Fork <==> request is Fork,
        state.phase matches ChangePhase::Helper { read_fd, write_fd } ==> (
        request matches ChangeRequest::BecomeHelper { read_fd: r, write_fd: w, cipher_dir } && r
            == read_fd && w == write_fd && cipher_dir@ == state.site->0.paths.cipher_dir@),
        state.phase matches ChangePhase::AbortRead { read_fd, .. } ==> request
            == ChangeRequest::Close(read_fd),
        state.phase matches ChangePhase::AbortWrite { write_fd } ==> request
            == ChangeRequest::Close(write_fd),
        state.phase matches ChangePhase::CloseRead { read_fd, .. } ==> request
            == ChangeRequest::Close(read_fd),
        state.phase is Feed <==> request is WritePassphrases,
        state.phase matches ChangePhase::CloseWrite { write_fd, .. } ==> request
            == ChangeRequest::Close(write_fd),
        state.phase matches ChangePhase::Wait { pid } ==> (
        request matches ChangeRequest::Wait(wait) && wait@.pid == pid && wait@.max_polls == 600
            && wait@.polls == 0),
        state.phase == ChangePhase::Restore <==> request is RestorePrivileges,
        state.phase matches ChangePhase::Done(code) ==> request == ChangeRequest::Return(code),
{
    reveal_strlit("/");
    reveal_strlit("config");
    reveal_strlit(".gocryptfs");
    reveal_strlit("/.gocryptfs/config");
    reveal_strlit("gocryptfs.conf");
    reveal_strlit("/gocryptfs.conf");
    let home = lossy_text(state.user->0.dir@);
    law_slashed(home, ".gocryptfs"@);
    let dir = slashed(home, ".gocryptfs"@);
    law_path_in(dir, "config"@);
    assert(dir + "/"@ + "config"@ =~= home + "/.gocryptfs/config"@);
    let cipher_dir = state.site->0.paths.cipher_dir@;
    law_path_in(cipher_dir, "gocryptfs.conf"@);
    assert(cipher_dir + "/"@ + "gocryptfs.conf"@ =~= cipher_dir + "/gocryptfs.conf"@);
}

/// What the change says: which passphrase PAM did not hand out or is missing,
/// what could not be made, and that not all was written. Nothing else is said.
pub proof fn law_change_notices(
    prelim: bool,
    old_there: bool,
    rc: c_int,
    length: Option<usize>,
    flag: bool,
    fds: (c_int, c_int),
    pid: pid_t,
    forked: pid_t,
    wrote: isize,
    size: usize,
)
    ensures
        ({
            let (read_fd, write_fd) = fds;
            let pass = ChangeReply::Pass { rc, length };
            let full = length matches Some(n) && n > 0;
            &&& change_notice(prelim, ChangePhase::OldPass, pass) == if rc != 0 {
                Some(Notice::OldPassphraseError(rc))
            } else if prelim && !full {
                Some(Notice::OldPassphraseMissing)
            } else {
                None
            }
            &&& change_notice(prelim, ChangePhase::NewPass { old_there }, pass) == if rc != 0 {
                Some(Notice::NewPassphraseError(rc))
            } else if !old_there || !full {
                Some(Notice::PassphraseMissing)
            } else {
                None
            }
            &&& change_notice(prelim, ChangePhase::Conf, ChangeReply::Exists(flag)) == if flag {
                None
            } else {
                Some(Notice::NoConfToChange)
            }
            &&& change_notice(
                prelim,
                ChangePhase::Pipe,
                ChangeReply::Pipe { rc, read_fd, write_fd },
            ) == if rc == 0 {
                None
            } else {
                Some(Notice::StdinPipeFailed)
            }
            &&& change_notice(
                prelim,
                ChangePhase::Pipe2,
                ChangeReply::Pipe { rc, read_fd, write_fd },
            ) is None
            &&& change_notice(
                prelim,
                ChangePhase::Drop { read_fd, write_fd },
                ChangeReply::Dropped(flag),
            ) == if flag {
                None
            } else {
                Some(Notice::ChangeDropFailed)
            }
            &&& change_notice(
                prelim,
                ChangePhase::Fork { read_fd, write_fd },
                ChangeReply::Forked(forked),
            ) == if forked < 0 {
                Some(Notice::ChangeForkFailed)
            } else {
                None
            }
            &&& change_notice(
                prelim,
                ChangePhase::Feed { write_fd, pid },
                ChangeReply::Written { wrote, size },
            ) == if wrote == size {
                None
            } else {
                Some(Notice::StdinWriteFailed)
            }
        }),
{
}

/// When the passphrase is changed, spelled out: PAM asked for the change and not
/// for the check, handed out an old passphrase and a new one that is not empty,
/// there is a configuration in the cipher directory of the user, a pipe could be
/// made in one of two ways, and privileges could be dropped.
pub proof fn law_change_happens(
    world: ChangeWorld,
    flags: c_int,
    args: Seq<Option<Vec<u8>>>,
    runs: Seq<ChangeState>,
    replies: Seq<ChangeReply>,
)
    requires
        complete_change(world, flags, args, runs, replies),
    ensures
        ({
            let pwd = world.user->0;
            let cipher = match last_setting(file_lines(file_bytes(world.config)), "cipherdir="@) {
                Some(value) => Some(value),
                None => last_setting(argument_texts(args), "cipherdir="@),
            };
            let dir = match cipher {
                Some(specifier) => specified(pwd, specifier),
                None => lossy_text(pwd.dir@) + "/.gocryptfs"@,
            };
            let conf = until_nul(until_nul(dir + "/gocryptfs"@) + "/gocryptfs.conf"@);
            let first = world.pipe2.0 == 0;
            let read_fd = if first {
                world.pipe2.1
            } else {
                world.pipe.1
            };
            let write_fd = if first {
                world.pipe2.2
            } else {
                world.pipe.2
            };
            let pid = world.pid;
            let started = {
                &&& world.user is Some
                &&& flags & 0x4000 == 0
                &&& world.old_pass.0 == 0 && world.old_pass.1 is Some
                &&& world.new_pass.0 == 0 && (world.new_pass.1 matches Some(n) && n > 0)
                &&& (world.files)(conf)
                &&& first || world.pipe.0 == 0
                &&& world.dropped
            };
            &&& change_reaches(runs, ChangePhase::Fork { read_fd, write_fd }) <==> started
            &&& change_reaches(runs, ChangePhase::Feed { write_fd, pid }) <==> started && pid > 0
            &&& change_reaches(runs, ChangePhase::Wait { pid }) <==> started && pid > 0
        }),
{
    reveal_strlit("/");
    reveal_strlit("gocryptfs");
    reveal_strlit("/gocryptfs");
    reveal_strlit(".gocryptfs");
    reveal_strlit("/.gocryptfs");
    reveal_strlit("gocryptfs.conf");
    reveal_strlit("/gocryptfs.conf");
    law_change(world, flags, args, runs, replies);
    let pwd = world.user->0;
    let home = lossy_text(pwd.dir@);
    let cipher = first_set(
        last_setting(file_lines(file_bytes(world.config)), "cipherdir="@),
        last_setting(argument_texts(args), "cipherdir="@),
    );
    law_slashed(home, ".gocryptfs"@);
    assert(home + "/"@ + ".gocryptfs"@ =~= home + "/.gocryptfs"@);
    let dir = config_directory(pwd, cipher);
    law_path_in(dir, "gocryptfs"@);
    assert(dir + "/"@ + "gocryptfs"@ =~= dir + "/gocryptfs"@);
    let cipher_dir = world.cipher_dir(args);
    law_path_in(cipher_dir, "gocryptfs.conf"@);
    assert(cipher_dir + "/"@ + "gocryptfs.conf"@ =~= cipher_dir + "/gocryptfs.conf"@);
}

/// The change begins knowing nothing but its flags and what its arguments set.
pub proof fn law_change_begins(state: ChangeState, flags: c_int, args: Seq<Option<Vec<u8>>>)
    requires
        state.begins(flags, args),
    ensures
        state.phase == ChangePhase::User,
        state.user is None && state.site is None,
        state.prelim <==> flags & 0x4000 != 0,
        opt_text(state.args.0) == last_setting(argument_texts(args), "cipherdir="@),
        opt_text(state.args.1) == last_setting(argument_texts(args), "mountpoint="@),
{
}

} // verus!
