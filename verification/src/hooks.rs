//! The hooks of the module for authentication and sessions: when a passphrase
//! is kept, and when the file system of a user is mounted and unmounted.

use libc::{c_int, gid_t, uid_t};
use vstd::prelude::*;
use vstd::string::*;

use crate::config::{
    argument_texts, config_directory, config_file, file_in, file_lines, first_set, flags_of,
    last_setting, law_path_in, law_paths, mount_directory, opt_bytes, parse_pam_args, path_in,
    read_config, user_config_path, user_paths, Paths,
};
use crate::expand::specified;
use crate::mounts::{is_mounted, mounts_contains};
use crate::notice::Notice;
use crate::outside::lossy_text;
use crate::password::{store_asks, Cleanup, StorePhase, StoreRequest, UNIQUE_DATA_KEY};
use crate::text::{law_slashed, law_strings, opt_text, slashed, strings, until_nul};
use crate::user::{PasswordInfo, PAM_SUCCESS};

verus! {

/// The code with which a module asks to be left out of the outcome.
pub const PAM_IGNORE: c_int = 25;

/// A hook that PAM calls.
#[derive(Clone, Copy, Debug, PartialEq, Eq, Structural)]
pub enum Hook {
    /// The user proves who they are.
    Authenticate,
    /// A session of the user begins.
    OpenSession,
    /// A session of the user ends.
    CloseSession,
}

/// What a hook does.
#[derive(Clone, Copy, Debug, PartialEq, Eq, Structural)]
pub enum HookPhase {
    /// Finds out who the user is.
    User,
    /// Reads the configuration file of the user.
    Config,
    /// Looks for the file by which the user opts in.
    Toggle,
    /// Looks whether the file system is mounted.
    Mounts,
    /// Gets the passphrase from the user.
    Ask,
    /// Keeps the passphrase for the session.
    Store,
    /// Drops privileges to the user.
    Drop,
    /// Takes the passphrase that authentication kept.
    Stored,
    /// Mounts the file system.
    Mount,
    /// Unmounts the file system.
    Unmount,
    /// Takes privileges back.
    Restore,
    /// Returns to PAM.
    Done,
}

/// The paths and the options that hold for a user.
#[derive(Debug)]
pub struct Site {
    pub paths: Paths,
    pub options: Vec<String>,
}

impl Site {
    /// This is what holds for a user with such a configuration file, where the
    /// module arguments set these paths.
    pub open spec fn follows(
        self,
        pwd: PasswordInfo,
        config: Option<Seq<u8>>,
        cipher_arg: Option<Seq<char>>,
        mount_arg: Option<Seq<char>>,
    ) -> bool {
        let lines = file_lines(config);
        &&& self.paths.follow(
            pwd,
            first_set(last_setting(lines, "cipherdir="@), cipher_arg),
            first_set(last_setting(lines, "mountpoint="@), mount_arg),
        )
        &&& strings(self.options@) == flags_of(lines)
    }
}

/// What holds for a user with such a configuration file, where the module
/// arguments set these paths.
pub fn user_site(
    pwd: &PasswordInfo,
    config: Option<&Vec<u8>>,
    args: &(Option<String>, Option<String>),
) -> (r: Site)
    ensures
        r.follows(*pwd, opt_bytes(config), opt_text(args.0), opt_text(args.1)),
{
    let config = read_config(config);
    let paths = user_paths(pwd, &config, args);
    Site { paths, options: config.options }
}

/// The contents of an optional file.
pub open spec fn file_bytes(contents: Option<Vec<u8>>) -> Option<Seq<u8>> {
    match contents {
        Some(bytes) => Some(bytes@),
        None => None,
    }
}

/// How far a call of a hook has come.
#[derive(Debug)]
pub struct HookState {
    pub hook: Hook,
    pub phase: HookPhase,
    /// The cipher directory and the mount point that the arguments set.
    pub args: (Option<String>, Option<String>),
    pub user: Option<PasswordInfo>,
    pub site: Option<Site>,
}

/// A call of a hook.
#[derive(Debug)]
pub struct HookRun {
    state: HookState,
}

/// What came of a step.
#[derive(Debug)]
pub enum HookReply {
    /// The user, if there is one.
    User(Option<PasswordInfo>),
    /// The contents of the configuration file, if there is one.
    Config(Option<Vec<u8>>),
    /// Whether the file is there.
    Exists(bool),
    /// The table of mounted file systems, if it could be read.
    Mounts(Option<String>),
    /// Whether there is a passphrase.
    Passphrase(bool),
    /// Whether privileges were dropped.
    Dropped(bool),
    /// What PAM returned.
    Code(c_int),
    /// The step is done.
    Done,
}

/// What a step is.
#[derive(Debug)]
pub enum HookRequest {
    FetchUser,
    ReadConfig(String),
    FileExists(String),
    ReadMounts,
    AskPassphrase,
    StorePassphrase,
    DropPrivileges { uid: uid_t, gid: gid_t },
    TakePassphrase(String),
    Mount,
    Unmount(String),
    RestorePrivileges,
    Return(c_int),
}

/// What a hook returns to PAM.
pub open spec fn hook_code(hook: Hook) -> c_int {
    match hook {
        Hook::Authenticate => PAM_IGNORE,
        _ => PAM_SUCCESS,
    }
}

/// The file by which a user opts in to what a hook does.
pub open spec fn toggle_name(hook: Hook) -> Seq<char> {
    match hook {
        Hook::CloseSession => "auto-umount"@,
        _ => "auto-mount"@,
    }
}

/// The phase that follows, where `go` says whether the hook has reason to go
/// on. Once privileges were touched they are taken back in any case.
pub open spec fn hook_next(hook: Hook, phase: HookPhase, go: bool) -> HookPhase {
    match phase {
        HookPhase::User if go => HookPhase::Config,
        HookPhase::Config => HookPhase::Toggle,
        HookPhase::Toggle if go => HookPhase::Mounts,
        HookPhase::Mounts if go => if hook == Hook::Authenticate {
            HookPhase::Ask
        } else {
            HookPhase::Drop
        },
        HookPhase::Ask if go => HookPhase::Store,
        HookPhase::Drop if go => if hook == Hook::OpenSession {
            HookPhase::Stored
        } else {
            HookPhase::Unmount
        },
        HookPhase::Drop => HookPhase::Restore,
        HookPhase::Stored if go => HookPhase::Mount,
        HookPhase::Stored | HookPhase::Mount | HookPhase::Unmount => HookPhase::Restore,
        _ => HookPhase::Done,
    }
}

/// What a hook reports when it has no reason to go on.
pub open spec fn stop_notice(hook: Hook, phase: HookPhase) -> Option<Notice> {
    match (hook, phase) {
        (Hook::Authenticate, HookPhase::Toggle) => Some(Notice::AutoMountOff),
        (Hook::Authenticate, HookPhase::Mounts) => Some(Notice::AlreadyMounted),
        (Hook::Authenticate, HookPhase::Ask) => Some(Notice::NoPassphrase),
        (Hook::OpenSession, HookPhase::Drop) => Some(Notice::MountDropFailed),
        (Hook::OpenSession, HookPhase::Stored) => Some(Notice::NothingStored),
        (Hook::CloseSession, HookPhase::Toggle) => Some(Notice::AutoUmountOff),
        (Hook::CloseSession, HookPhase::Mounts) => Some(Notice::NotMounted),
        (Hook::CloseSession, HookPhase::Drop) => Some(Notice::UmountDropFailed),
        _ => None,
    }
}

impl HookState {
    /// The user is known from the configuration on, and the paths from the
    /// toggle on.
    pub open spec fn wf(self) -> bool {
        match self.phase {
            HookPhase::User | HookPhase::Done => true,
            HookPhase::Config => self.user is Some,
            _ => self.user is Some && self.site is Some,
        }
    }

    /// Whether a reply gives reason to go on. A reply to another phase gives no
    /// answer.
    pub open spec fn answer(self, reply: HookReply) -> Option<bool> {
        match (self.phase, reply) {
            (HookPhase::User, HookReply::User(user)) => Some(user is Some),
            (HookPhase::Config, HookReply::Config(_)) => Some(true),
            (HookPhase::Toggle, HookReply::Exists(there)) => Some(there),
            (HookPhase::Mounts, HookReply::Mounts(table)) => {
                let mounted = is_mounted(opt_text(table), self.site->0.paths.mountpoint@);
                Some(mounted == (self.hook == Hook::CloseSession))
            },
            (HookPhase::Ask, HookReply::Passphrase(there)) => Some(there),
            (HookPhase::Store, HookReply::Code(_)) => Some(true),
            (HookPhase::Drop, HookReply::Dropped(dropped)) => Some(dropped),
            (HookPhase::Stored, HookReply::Code(rc)) => Some(rc == PAM_SUCCESS),
            (HookPhase::Mount, HookReply::Done) => Some(true),
            (HookPhase::Unmount, HookReply::Done) => Some(true),
            (HookPhase::Restore, HookReply::Done) => Some(true),
            _ => None,
        }
    }

    /// A reply takes the hook to `next`: the phase follows from the answer, the
    /// user from the first reply, and the paths and options from the
    /// configuration file. Nothing else changes.
    pub open spec fn steps_to(self, reply: HookReply, next: HookState) -> bool {
        &&& next.hook == self.hook
        &&& next.args == self.args
        &&& next.phase == match self.answer(reply) {
            Some(go) => hook_next(self.hook, self.phase, go),
            None => self.phase,
        }
        &&& next.user == match (self.phase, reply) {
            (HookPhase::User, HookReply::User(user)) => user,
            _ => self.user,
        }
        &&& match (self.phase, reply) {
            (HookPhase::Config, HookReply::Config(config)) => {
                &&& next.site is Some
                &&& next.site->0.follows(
                    self.user->0,
                    file_bytes(config),
                    opt_text(self.args.0),
                    opt_text(self.args.1),
                )
            },
            _ => next.site == self.site,
        }
    }

    /// `request` is the step that the hook takes now.
    pub open spec fn asks(self, request: HookRequest) -> bool {
        match (self.phase, request) {
            (HookPhase::User, HookRequest::FetchUser) => true,
            (HookPhase::Config, HookRequest::ReadConfig(path)) => path@ == config_file(
                self.user->0,
            ),
            (HookPhase::Toggle, HookRequest::FileExists(path)) => path@ == path_in(
                self.site->0.paths.config_dir@,
                toggle_name(self.hook),
            ),
            (HookPhase::Mounts, HookRequest::ReadMounts) => true,
            (HookPhase::Ask, HookRequest::AskPassphrase) => true,
            (HookPhase::Store, HookRequest::StorePassphrase) => true,
            (HookPhase::Drop, HookRequest::DropPrivileges { uid, gid }) => {
                &&& uid == self.user->0.uid
                &&& gid == self.user->0.gid
            },
            (HookPhase::Stored, HookRequest::TakePassphrase(key)) => key@ == UNIQUE_DATA_KEY@,
            (HookPhase::Mount, HookRequest::Mount) => true,
            (HookPhase::Unmount, HookRequest::Unmount(mountpoint)) => mountpoint@
                == self.site->0.paths.mountpoint@,
            (HookPhase::Restore, HookRequest::RestorePrivileges) => true,
            (HookPhase::Done, HookRequest::Return(code)) => code == hook_code(self.hook),
            _ => false,
        }
    }

    /// A call of a hook with these arguments, at its beginning.
    pub open spec fn begins(self, hook: Hook, args: Seq<Option<Vec<u8>>>) -> bool {
        &&& self.wf()
        &&& self.hook == hook
        &&& self.phase == HookPhase::User
        &&& self.user is None
        &&& self.site is None
        &&& opt_text(self.args.0) == last_setting(argument_texts(args), "cipherdir="@)
        &&& opt_text(self.args.1) == last_setting(argument_texts(args), "mountpoint="@)
    }

    /// The step that the hook takes now.
    fn request(&self) -> (r: HookRequest)
        requires
            self.wf(),
        ensures
            self.asks(r),
    {
        match self.phase {
            HookPhase::User => HookRequest::FetchUser,
            HookPhase::Config => match &self.user {
                Some(pwd) => HookRequest::ReadConfig(user_config_path(pwd)),
                None => HookRequest::FetchUser,
            },
            HookPhase::Toggle => match &self.site {
                Some(site) => {
                    let file: &str = match self.hook {
                        Hook::CloseSession => "auto-umount",
                        _ => "auto-mount",
                    };
                    HookRequest::FileExists(file_in(site.paths.config_dir.as_str(), file))
                },
                None => HookRequest::FetchUser,
            },
            HookPhase::Mounts => HookRequest::ReadMounts,
            HookPhase::Ask => HookRequest::AskPassphrase,
            HookPhase::Store => HookRequest::StorePassphrase,
            HookPhase::Drop => match &self.user {
                Some(pwd) => HookRequest::DropPrivileges { uid: pwd.uid, gid: pwd.gid },
                None => HookRequest::FetchUser,
            },
            HookPhase::Stored => HookRequest::TakePassphrase(UNIQUE_DATA_KEY.to_owned()),
            HookPhase::Mount => HookRequest::Mount,
            HookPhase::Unmount => match &self.site {
                Some(site) => HookRequest::Unmount(site.paths.mountpoint.clone()),
                None => HookRequest::FetchUser,
            },
            HookPhase::Restore => HookRequest::RestorePrivileges,
            HookPhase::Done => HookRequest::Return(
                match self.hook {
                    Hook::Authenticate => PAM_IGNORE,
                    _ => PAM_SUCCESS,
                },
            ),
        }
    }

    /// Whether gocryptfs is mounted at the mount point of the user.
    fn mounted(&self, table: &Option<String>) -> (r: bool)
        requires
            self.site is Some,
        ensures
            r == is_mounted(opt_text(*table), self.site->0.paths.mountpoint@),
    {
        let contents: Option<&str> = match table {
            Some(text) => Some(text.as_str()),
            None => None,
        };
        match &self.site {
            Some(site) => mounts_contains(contents, site.paths.mountpoint.as_str()),
            None => false,
        }
    }

    /// The state in the phase that follows, and what the hook reports.
    fn advance(self, go: bool) -> (r: (HookState, Option<Notice>))
        ensures
            r.0 == (HookState { phase: hook_next(self.hook, self.phase, go), ..self }),
            r.1 == (if go {
                None
            } else {
                stop_notice(self.hook, self.phase)
            }),
    {
        let HookState { hook, phase, args, user, site } = self;
        let next: HookPhase = match phase {
            HookPhase::User if go => HookPhase::Config,
            HookPhase::Config => HookPhase::Toggle,
            HookPhase::Toggle if go => HookPhase::Mounts,
            HookPhase::Mounts if go => match hook {
                Hook::Authenticate => HookPhase::Ask,
                _ => HookPhase::Drop,
            },
            HookPhase::Ask if go => HookPhase::Store,
            HookPhase::Drop if go => match hook {
                Hook::OpenSession => HookPhase::Stored,
                _ => HookPhase::Unmount,
            },
            HookPhase::Drop => HookPhase::Restore,
            HookPhase::Stored if go => HookPhase::Mount,
            HookPhase::Stored => HookPhase::Restore,
            HookPhase::Mount => HookPhase::Restore,
            HookPhase::Unmount => HookPhase::Restore,
            _ => HookPhase::Done,
        };
        let notice: Option<Notice> = if go {
            None
        } else {
            match (hook, phase) {
                (Hook::Authenticate, HookPhase::Toggle) => Some(Notice::AutoMountOff),
                (Hook::Authenticate, HookPhase::Mounts) => Some(Notice::AlreadyMounted),
                (Hook::Authenticate, HookPhase::Ask) => Some(Notice::NoPassphrase),
                (Hook::OpenSession, HookPhase::Drop) => Some(Notice::MountDropFailed),
                (Hook::OpenSession, HookPhase::Stored) => Some(Notice::NothingStored),
                (Hook::CloseSession, HookPhase::Toggle) => Some(Notice::AutoUmountOff),
                (Hook::CloseSession, HookPhase::Mounts) => Some(Notice::NotMounted),
                (Hook::CloseSession, HookPhase::Drop) => Some(Notice::UmountDropFailed),
                _ => None,
            }
        };
        (HookState { hook, phase: next, args, user, site }, notice)
    }

    /// Takes the hook one step on.
    fn reply(self, reply: HookReply) -> (r: (HookState, Option<Notice>))
        requires
            self.wf(),
        ensures
            r.0.wf(),
            self.steps_to(reply, r.0),
            r.1 == (match self.answer(reply) {
                Some(false) => stop_notice(self.hook, self.phase),
                _ => None,
            }),
    {
        match (self.phase, reply) {
            (HookPhase::User, HookReply::User(user)) => {
                let go: bool = user.is_some();
                HookState { user, ..self }.advance(go)
            },
            (HookPhase::Config, HookReply::Config(config)) => {
                let site: Option<Site> = match &self.user {
                    Some(pwd) => Some(user_site(pwd, config.as_ref(), &self.args)),
                    None => None,
                };
                HookState { site, ..self }.advance(true)
            },
            (HookPhase::Toggle, HookReply::Exists(there)) => self.advance(there),
            (HookPhase::Mounts, HookReply::Mounts(table)) => {
                let mounted: bool = self.mounted(&table);
                let go: bool = match self.hook {
                    Hook::CloseSession => mounted,
                    _ => !mounted,
                };
                self.advance(go)
            },
            (HookPhase::Ask, HookReply::Passphrase(there)) => self.advance(there),
            (HookPhase::Store, HookReply::Code(_)) => self.advance(true),
            (HookPhase::Drop, HookReply::Dropped(dropped)) => self.advance(dropped),
            (HookPhase::Stored, HookReply::Code(rc)) => self.advance(rc == PAM_SUCCESS),
            (HookPhase::Mount, HookReply::Done) => self.advance(true),
            (HookPhase::Unmount, HookReply::Done) => self.advance(true),
            (HookPhase::Restore, HookReply::Done) => self.advance(true),
            _ => (self, None),
        }
    }
}

impl View for HookRun {
    type V = HookState;

    closed spec fn view(&self) -> HookState {
        self.state
    }
}

impl HookRun {
    #[verifier::type_invariant]
    spec fn inv(self) -> bool {
        self.state.wf()
    }

    fn begin(hook: Hook, args: &Vec<Option<Vec<u8>>>) -> (r: HookRun)
        ensures
            r@.begins(hook, args@),
    {
        let args = parse_pam_args(args);
        let state = HookState { hook, phase: HookPhase::User, args, user: None, site: None };
        HookRun { state }
    }

    /// How far the hook has come.
    pub fn state(&self) -> (r: &HookState)
        ensures
            *r == self@,
            r.wf(),
    {
        proof {
            use_type_invariant(self);
        }
        &self.state
    }

    /// The step that the hook takes now.
    pub fn request(&self) -> (r: HookRequest)
        ensures
            self@.asks(r),
    {
        proof {
            use_type_invariant(self);
        }
        self.state.request()
    }

    /// Takes the hook one step on.
    pub fn reply(self, reply: HookReply) -> (r: (HookRun, Option<Notice>))
        ensures
            self@.steps_to(reply, r.0@),
            r.1 == (match self@.answer(reply) {
                Some(false) => stop_notice(self@.hook, self@.phase),
                _ => None,
            }),
    {
        proof {
            use_type_invariant(&self);
        }
        let (state, notice) = self.state.reply(reply);
        (HookRun { state }, notice)
    }
}

/// Begins authentication, in which the passphrase is kept for the session.
pub fn pam_sm_authenticate(args: &Vec<Option<Vec<u8>>>) -> (r: HookRun)
    ensures
        r@.begins(Hook::Authenticate, args@),
{
    HookRun::begin(Hook::Authenticate, args)
}

/// Establishes credentials, of which the module has none.
pub fn pam_sm_setcred() -> (r: c_int)
    ensures
        r == PAM_SUCCESS,
{
    PAM_SUCCESS
}

/// Begins the opening of a session, in which the file system is mounted.
pub fn pam_sm_open_session(args: &Vec<Option<Vec<u8>>>) -> (r: HookRun)
    ensures
        r@.begins(Hook::OpenSession, args@),
{
    HookRun::begin(Hook::OpenSession, args)
}

/// Begins the closing of a session, in which the file system is unmounted.
pub fn pam_sm_close_session(args: &Vec<Option<Vec<u8>>>) -> (r: HookRun)
    ensures
        r@.begins(Hook::CloseSession, args@),
{
    HookRun::begin(Hook::CloseSession, args)
}

/// The world that a hook is called in: who the user is, what their
/// configuration file holds, which files there are, what is mounted, whether
/// the user gives a passphrase, whether privileges can be dropped, and what PAM
/// returns for the passphrase that was kept.
pub struct HookWorld {
    pub user: Option<PasswordInfo>,
    pub config: Option<Seq<u8>>,
    pub files: spec_fn(Seq<char>) -> bool,
    pub mounts: Option<Seq<char>>,
    pub passphrase: bool,
    pub dropped: bool,
    pub stored: c_int,
}

impl HookWorld {
    /// The setting of the cipher directory that counts.
    pub open spec fn cipher(self, args: Seq<Option<Vec<u8>>>) -> Option<Seq<char>> {
        first_set(
            last_setting(file_lines(self.config), "cipherdir="@),
            last_setting(argument_texts(args), "cipherdir="@),
        )
    }

    /// The setting of the mount point that counts.
    pub open spec fn mount(self, args: Seq<Option<Vec<u8>>>) -> Option<Seq<char>> {
        first_set(
            last_setting(file_lines(self.config), "mountpoint="@),
            last_setting(argument_texts(args), "mountpoint="@),
        )
    }

    /// Whether the user has opted in to what a hook does.
    pub open spec fn opted_in(self, hook: Hook, args: Seq<Option<Vec<u8>>>) -> bool {
        (self.files)(
            path_in(
                until_nul(config_directory(self.user->0, self.cipher(args))),
                toggle_name(hook),
            ),
        )
    }

    /// Whether the file system of the user is mounted.
    pub open spec fn mounted(self, args: Seq<Option<Vec<u8>>>) -> bool {
        is_mounted(self.mounts, until_nul(mount_directory(self.user->0, self.mount(args))))
    }

    /// Whether a hook has reason to go on from a phase.
    pub open spec fn go(self, hook: Hook, args: Seq<Option<Vec<u8>>>, phase: HookPhase) -> bool {
        match phase {
            HookPhase::User => self.user is Some,
            HookPhase::Toggle => self.opted_in(hook, args),
            HookPhase::Mounts => self.mounted(args) == (hook == Hook::CloseSession),
            HookPhase::Ask => self.passphrase,
            HookPhase::Drop => self.dropped,
            HookPhase::Stored => self.stored == PAM_SUCCESS,
            _ => true,
        }
    }

    /// The reply is what the step of the run comes to in this world.
    pub open spec fn replies(self, run: HookState, reply: HookReply) -> bool {
        match (run.phase, reply) {
            (HookPhase::User, HookReply::User(user)) => user == self.user,
            (HookPhase::Config, HookReply::Config(config)) => file_bytes(config) == self.config,
            (HookPhase::Toggle, HookReply::Exists(there)) => there == (self.files)(
                path_in(run.site->0.paths.config_dir@, toggle_name(run.hook)),
            ),
            (HookPhase::Mounts, HookReply::Mounts(table)) => opt_text(table) == self.mounts,
            (HookPhase::Ask, HookReply::Passphrase(there)) => there == self.passphrase,
            (HookPhase::Store, HookReply::Code(_)) => true,
            (HookPhase::Drop, HookReply::Dropped(dropped)) => dropped == self.dropped,
            (HookPhase::Stored, HookReply::Code(rc)) => rc == self.stored,
            (HookPhase::Mount, HookReply::Done) => true,
            (HookPhase::Unmount, HookReply::Done) => true,
            (HookPhase::Restore, HookReply::Done) => true,
            _ => false,
        }
    }

    /// The run knows of this world what it should.
    spec fn known(self, hook: Hook, args: Seq<Option<Vec<u8>>>, run: HookState) -> bool {
        &&& run.hook == hook
        &&& opt_text(run.args.0) == last_setting(argument_texts(args), "cipherdir="@)
        &&& opt_text(run.args.1) == last_setting(argument_texts(args), "mountpoint="@)
        &&& run.phase != HookPhase::User && run.phase != HookPhase::Done ==> run.user == self.user
            && self.user is Some
        &&& run.phase != HookPhase::User && run.phase != HookPhase::Config && run.phase
            != HookPhase::Done ==> run.site is Some && run.site->0.follows(
            self.user->0,
            self.config,
            opt_text(run.args.0),
            opt_text(run.args.1),
        )
    }
}

/// How many steps a hook has left at most.
pub open spec fn hook_steps_left(phase: HookPhase) -> nat {
    match phase {
        HookPhase::User => 8,
        HookPhase::Config => 7,
        HookPhase::Toggle => 6,
        HookPhase::Mounts => 5,
        HookPhase::Ask => 4,
        HookPhase::Drop => 4,
        HookPhase::Stored => 3,
        HookPhase::Mount => 2,
        HookPhase::Unmount => 2,
        HookPhase::Store => 1,
        HookPhase::Restore => 1,
        HookPhase::Done => 0,
    }
}

/// Whether a hook passes through `target` from `phase` on, in this world.
pub open spec fn hook_passes(
    world: HookWorld,
    hook: Hook,
    args: Seq<Option<Vec<u8>>>,
    phase: HookPhase,
    target: HookPhase,
) -> bool
    decreases hook_steps_left(phase),
{
    ||| phase == target
    ||| phase != HookPhase::Done && hook_passes(
        world,
        hook,
        args,
        hook_next(hook, phase, world.go(hook, args, phase)),
        target,
    )
}

/// A step in the world leads where the world says.
proof fn lemma_hook_step(
    world: HookWorld,
    hook: Hook,
    args: Seq<Option<Vec<u8>>>,
    run: HookState,
    reply: HookReply,
    next: HookState,
)
    requires
        world.known(hook, args, run),
        world.replies(run, reply),
        run.steps_to(reply, next),
    ensures
        world.known(hook, args, next),
        next.phase == hook_next(hook, run.phase, world.go(hook, args, run.phase)),
{
}

/// A complete call of a hook in a world: it begins with the arguments, each
/// step is answered as the world has it, and the end is reached.
pub open spec fn complete_run(
    world: HookWorld,
    hook: Hook,
    args: Seq<Option<Vec<u8>>>,
    runs: Seq<HookState>,
    replies: Seq<HookReply>,
) -> bool {
    &&& runs.len() == replies.len() + 1
    &&& runs[0].begins(hook, args)
    &&& runs.last().phase == HookPhase::Done
    &&& forall|i: int|
        #![trigger replies[i]]
        0 <= i < replies.len() ==> world.replies(runs[i], replies[i]) && runs[i].steps_to(
            replies[i],
            runs[i + 1],
        )
}

/// Whether a call of a hook is in a phase at some time.
pub open spec fn reaches(runs: Seq<HookState>, phase: HookPhase) -> bool {
    exists|i: int| 0 <= i < runs.len() && (#[trigger] runs[i]).phase == phase
}

proof fn lemma_runs_follow_world(
    world: HookWorld,
    hook: Hook,
    args: Seq<Option<Vec<u8>>>,
    runs: Seq<HookState>,
    replies: Seq<HookReply>,
    target: HookPhase,
    n: int,
)
    requires
        complete_run(world, hook, args, runs, replies),
        0 <= n < runs.len(),
    ensures
        world.known(hook, args, runs[n]),
        hook_passes(world, hook, args, HookPhase::User, target) <==> (reaches(
            runs.take(n),
            target,
        ) || hook_passes(world, hook, args, runs[n].phase, target)),
    decreases n,
{
    let before = runs.take(n);
    if n > 0 {
        lemma_runs_follow_world(world, hook, args, runs, replies, target, n - 1);
        let earlier = runs.take(n - 1);
        let _ = replies[n - 1];
        lemma_hook_step(world, hook, args, runs[n - 1], replies[n - 1], runs[n]);
        assert(before[n - 1] == runs[n - 1]);
        if reaches(earlier, target) {
            let i = choose|i: int| 0 <= i < earlier.len() && (#[trigger] earlier[i]).phase == target;
            assert(before[i] == earlier[i]);
        }
        if reaches(before, target) && !reaches(earlier, target) {
            let i = choose|i: int| 0 <= i < before.len() && (#[trigger] before[i]).phase == target;
            if i < n - 1 {
                assert(earlier[i] == before[i]);
            }
            assert(runs[n - 1].phase == target);
        }
    }
}

/// A call of a hook reaches exactly the phases that the world leads through.
proof fn lemma_reaches(
    world: HookWorld,
    hook: Hook,
    args: Seq<Option<Vec<u8>>>,
    runs: Seq<HookState>,
    replies: Seq<HookReply>,
    target: HookPhase,
)
    requires
        complete_run(world, hook, args, runs, replies),
    ensures
        reaches(runs, target) <==> hook_passes(world, hook, args, HookPhase::User, target),
{
    let n = runs.len() - 1;
    lemma_runs_follow_world(world, hook, args, runs, replies, target, n);
    let before = runs.take(n);
    if reaches(before, target) {
        let i = choose|i: int| 0 <= i < before.len() && (#[trigger] before[i]).phase == target;
        assert(runs[i] == before[i]);
    }
    if reaches(runs, target) {
        let i = choose|i: int| 0 <= i < runs.len() && (#[trigger] runs[i]).phase == target;
        if i < n {
            assert(before[i] == runs[i]);
        }
    }
    assert(runs[n].phase == HookPhase::Done);
}

/// Authentication keeps a passphrase if and only if the user has opted in to
/// mounting, the file system is not mounted, and there is a passphrase. It
/// never mounts, and leaves the privileges and the outcome alone.
pub proof fn law_authenticate(
    world: HookWorld,
    args: Seq<Option<Vec<u8>>>,
    runs: Seq<HookState>,
    replies: Seq<HookReply>,
)
    requires
        complete_run(world, Hook::Authenticate, args, runs, replies),
    ensures
        reaches(runs, HookPhase::Store) <==> world.user is Some && world.opted_in(
            Hook::Authenticate,
            args,
        ) && !world.mounted(args) && world.passphrase,
        reaches(runs, HookPhase::Ask) <==> world.user is Some && world.opted_in(
            Hook::Authenticate,
            args,
        ) && !world.mounted(args),
        !reaches(runs, HookPhase::Drop),
        !reaches(runs, HookPhase::Mount),
        !reaches(runs, HookPhase::Unmount),
        hook_code(Hook::Authenticate) == PAM_IGNORE,
{
    let hook = Hook::Authenticate;
    reveal_with_fuel(hook_passes, 9);
    lemma_reaches(world, hook, args, runs, replies, HookPhase::Store);
    lemma_reaches(world, hook, args, runs, replies, HookPhase::Ask);
    lemma_reaches(world, hook, args, runs, replies, HookPhase::Drop);
    lemma_reaches(world, hook, args, runs, replies, HookPhase::Mount);
    lemma_reaches(world, hook, args, runs, replies, HookPhase::Unmount);
}

/// Opening a session mounts the file system if and only if the user has opted
/// in to mounting, it is not mounted, privileges could be dropped and a
/// passphrase was kept. Whenever privileges were touched they are taken back.
/// The session is never refused.
pub proof fn law_open_session(
    world: HookWorld,
    args: Seq<Option<Vec<u8>>>,
    runs: Seq<HookState>,
    replies: Seq<HookReply>,
)
    requires
        complete_run(world, Hook::OpenSession, args, runs, replies),
    ensures
        reaches(runs, HookPhase::Mount) <==> world.user is Some && world.opted_in(
            Hook::OpenSession,
            args,
        ) && !world.mounted(args) && world.dropped && world.stored == PAM_SUCCESS,
        reaches(runs, HookPhase::Drop) <==> world.user is Some && world.opted_in(
            Hook::OpenSession,
            args,
        ) && !world.mounted(args),
        reaches(runs, HookPhase::Restore) <==> reaches(runs, HookPhase::Drop),
        !reaches(runs, HookPhase::Unmount),
        hook_code(Hook::OpenSession) == PAM_SUCCESS,
{
    let hook = Hook::OpenSession;
    reveal_with_fuel(hook_passes, 9);
    lemma_reaches(world, hook, args, runs, replies, HookPhase::Mount);
    lemma_reaches(world, hook, args, runs, replies, HookPhase::Drop);
    lemma_reaches(world, hook, args, runs, replies, HookPhase::Restore);
    lemma_reaches(world, hook, args, runs, replies, HookPhase::Unmount);
}

/// Closing a session unmounts the file system if and only if the user has opted
/// in to unmounting, it is mounted and privileges could be dropped. Whenever
/// privileges were touched they are taken back. Closing never fails.
pub proof fn law_close_session(
    world: HookWorld,
    args: Seq<Option<Vec<u8>>>,
    runs: Seq<HookState>,
    replies: Seq<HookReply>,
)
    requires
        complete_run(world, Hook::CloseSession, args, runs, replies),
    ensures
        reaches(runs, HookPhase::Unmount) <==> world.user is Some && world.opted_in(
            Hook::CloseSession,
            args,
        ) && world.mounted(args) && world.dropped,
        reaches(runs, HookPhase::Drop) <==> world.user is Some && world.opted_in(
            Hook::CloseSession,
            args,
        ) && world.mounted(args),
        reaches(runs, HookPhase::Restore) <==> reaches(runs, HookPhase::Drop),
        !reaches(runs, HookPhase::Mount),
        hook_code(Hook::CloseSession) == PAM_SUCCESS,
{
    let hook = Hook::CloseSession;
    reveal_with_fuel(hook_passes, 9);
    lemma_reaches(world, hook, args, runs, replies, HookPhase::Unmount);
    lemma_reaches(world, hook, args, runs, replies, HookPhase::Drop);
    lemma_reaches(world, hook, args, runs, replies, HookPhase::Restore);
    lemma_reaches(world, hook, args, runs, replies, HookPhase::Mount);
}

/// The phases of a call come one after the other: none comes twice.
proof fn lemma_no_phase_twice(
    world: HookWorld,
    hook: Hook,
    args: Seq<Option<Vec<u8>>>,
    runs: Seq<HookState>,
    replies: Seq<HookReply>,
    i: int,
    j: int,
)
    requires
        complete_run(world, hook, args, runs, replies),
        0 <= i < j < runs.len(),
    ensures
        hook_steps_left(runs[j].phase) < hook_steps_left(runs[i].phase),
    decreases j,
{
    let _ = replies[j - 1];
    law_hook_ends(runs[j - 1], replies[j - 1], runs[j]);
    if i < j - 1 {
        lemma_no_phase_twice(world, hook, args, runs, replies, i, j - 1);
    }
}

/// Once privileges were touched, they are taken back exactly once, and that is
/// the last step before the hook returns.
pub proof fn law_takes_back_last(
    world: HookWorld,
    hook: Hook,
    args: Seq<Option<Vec<u8>>>,
    runs: Seq<HookState>,
    replies: Seq<HookReply>,
    i: int,
)
    requires
        complete_run(world, hook, args, runs, replies),
        0 <= i < runs.len(),
        runs[i].phase == HookPhase::Drop,
    ensures
        i < runs.len() - 2,
        forall|j: int|
            0 <= j < runs.len() ==> ((#[trigger] runs[j]).phase == HookPhase::Restore <==> j
                == runs.len() - 2),
        forall|j: int|
            0 <= j < runs.len() && (#[trigger] runs[j]).phase == HookPhase::Drop ==> j == i,
{
    let last = runs.len() - 1;
    lemma_runs_follow_world(world, hook, args, runs, replies, HookPhase::Restore, i);
    lemma_reaches(world, hook, args, runs, replies, HookPhase::Restore);
    law_privileges_frame_the_work(world, hook, args);
    assert forall|j: int|
        0 <= j < runs.len() && (#[trigger] runs[j]).phase == HookPhase::Restore implies j == last
        - 1 by {
        let _ = replies[j];
        if j + 1 < last {
            lemma_no_phase_twice(world, hook, args, runs, replies, j + 1, last);
        }
    }
    let k = choose|k: int| 0 <= k < runs.len() && (#[trigger] runs[k]).phase == HookPhase::Restore;
    assert(runs[k].phase == HookPhase::Restore);
    if k < i {
        lemma_no_phase_twice(world, hook, args, runs, replies, k, i);
    }
    assert forall|j: int|
        0 <= j < runs.len() && (#[trigger] runs[j]).phase == HookPhase::Drop implies j == i by {
        if i < j {
            lemma_no_phase_twice(world, hook, args, runs, replies, i, j);
        } else if j < i {
            lemma_no_phase_twice(world, hook, args, runs, replies, j, i);
        }
    }
}

/// What is mounted or unmounted is the file system of the user: the paths and
/// the flags are those that the configuration file, the module arguments and the
/// home directory of the user give. It is mounted or unmounted once.
pub proof fn law_work_is_for_the_user(
    world: HookWorld,
    hook: Hook,
    args: Seq<Option<Vec<u8>>>,
    runs: Seq<HookState>,
    replies: Seq<HookReply>,
    i: int,
)
    requires
        complete_run(world, hook, args, runs, replies),
        0 <= i < runs.len(),
        runs[i].phase == HookPhase::Mount || runs[i].phase == HookPhase::Unmount,
    ensures
        world.user is Some && runs[i].user == world.user,
        runs[i].site is Some && runs[i].site->0.follows(
            world.user->0,
            world.config,
            last_setting(argument_texts(args), "cipherdir="@),
            last_setting(argument_texts(args), "mountpoint="@),
        ),
        runs[i].site->0.paths.follow(world.user->0, world.cipher(args), world.mount(args)),
        forall|j: int|
            0 <= j < runs.len() && (#[trigger] runs[j]).phase == runs[i].phase ==> j == i,
{
    lemma_runs_follow_world(world, hook, args, runs, replies, HookPhase::Done, i);
    assert forall|j: int|
        0 <= j < runs.len() && (#[trigger] runs[j]).phase == runs[i].phase implies j == i by {
        if i < j {
            lemma_no_phase_twice(world, hook, args, runs, replies, i, j);
        } else if j < i {
            lemma_no_phase_twice(world, hook, args, runs, replies, j, i);
        }
    }
}

/// The passphrase that a session takes is looked for under the very name under
/// which authentication keeps it, and what is kept is wiped in the end.
pub proof fn law_kept_is_taken(keep: StoreRequest, run: HookState, take: HookRequest)
    requires
        store_asks(StorePhase::Keep, keep),
        run.phase == HookPhase::Stored,
        run.asks(take),
    ensures
        keep matches StoreRequest::Keep { key, cleanup } && cleanup == Cleanup::Wipe && (
        take matches HookRequest::TakePassphrase(name) && name@ == key@),
{
}

/// Every answered step brings a hook closer to its end, so that no hook takes
/// more than eight of them.
pub proof fn law_hook_ends(run: HookState, reply: HookReply, next: HookState)
    requires
        run.phase != HookPhase::Done,
        run.answer(reply) is Some,
        run.steps_to(reply, next),
    ensures
        hook_steps_left(next.phase) < hook_steps_left(run.phase) <= 8,
{
}

/// Dropping privileges comes before mounting and unmounting, and taking them
/// back comes after, in every world.
pub proof fn law_privileges_frame_the_work(
    world: HookWorld,
    hook: Hook,
    args: Seq<Option<Vec<u8>>>,
)
    ensures
        hook_passes(world, hook, args, HookPhase::Drop, HookPhase::Restore),
        hook_passes(world, hook, args, HookPhase::Mount, HookPhase::Restore),
        hook_passes(world, hook, args, HookPhase::Unmount, HookPhase::Restore),
        !hook_passes(world, hook, args, HookPhase::Restore, HookPhase::Mount),
        !hook_passes(world, hook, args, HookPhase::Restore, HookPhase::Unmount),
        !hook_passes(world, hook, args, HookPhase::Mount, HookPhase::Drop),
        !hook_passes(world, hook, args, HookPhase::Unmount, HookPhase::Drop),
{
    reveal_with_fuel(hook_passes, 5);
}

/// The contents of an optional file are there if and only if the file is.
pub proof fn law_file_bytes(contents: Option<Vec<u8>>)
    ensures
        file_bytes(contents) is Some <==> contents is Some,
        contents matches Some(bytes) ==> file_bytes(contents) == Some(bytes@),
{
}

/// What holds for a user: the flags are all those of the configuration file, and
/// each path is set by that file, or else by the module arguments, or else by
/// default.
pub proof fn law_site(
    site: Site,
    pwd: PasswordInfo,
    config: Option<Seq<u8>>,
    cipher_arg: Option<Seq<char>>,
    mount_arg: Option<Seq<char>>,
)
    requires
        site.follows(pwd, config, cipher_arg, mount_arg),
    ensures
        ({
            let home = lossy_text(pwd.dir@);
            let cipher = match last_setting(file_lines(config), "cipherdir="@) {
                Some(value) => Some(value),
                None => cipher_arg,
            };
            let mount = match last_setting(file_lines(config), "mountpoint="@) {
                Some(value) => Some(value),
                None => mount_arg,
            };
            let dir = match cipher {
                Some(specifier) => specified(pwd, specifier),
                None => home + "/.gocryptfs"@,
            };
            let place = match mount {
                Some(specifier) => specified(pwd, specifier),
                None => home + "/Private"@,
            };
            &&& site.paths.config_dir@ == until_nul(dir)
            &&& site.paths.cipher_dir@ == until_nul(dir + "/gocryptfs"@)
            &&& site.paths.mountpoint@ == until_nul(place)
            &&& site.options@.len() == flags_of(file_lines(config)).len()
            &&& forall|i: int|
                0 <= i < site.options@.len() ==> (#[trigger] site.options@[i])@ == flags_of(
                    file_lines(config),
                )[i]
        }),
{
    let lines = file_lines(config);
    law_paths(
        site.paths,
        pwd,
        first_set(last_setting(lines, "cipherdir="@), cipher_arg),
        first_set(last_setting(lines, "mountpoint="@), mount_arg),
    );
    law_strings(site.options@);
    assert forall|i: int| 0 <= i < site.options@.len() implies (#[trigger] site.options@[i])@
        == flags_of(lines)[i] by {
        assert(strings(site.options@)[i] == site.options@[i]@);
    }
}

/// What each step of a hook works on: the configuration file in the home
/// directory, the toggle for mounting or for unmounting beside the cipher data,
/// the user and the group of the user, the passphrase under the name of the
/// module, and the mount point of the user.
pub proof fn law_hook_requests(state: HookState, request: HookRequest)
    requires
        state.asks(request),
    ensures
        state.phase == HookPhase::User <==> request is FetchUser,
        state.phase == HookPhase::Config <==> request is ReadConfig,
        request matches HookRequest::ReadConfig(path) ==> path@ == until_nul(
            lossy_text(state.user->0.dir@) + "/.gocryptfs/config"@,
        ),
        state.phase == HookPhase::Toggle <==> request is FileExists,
        request matches HookRequest::FileExists(path) ==> path@ == until_nul(
            state.site->0.paths.config_dir@ + if state.hook == Hook::CloseSession {
                "/auto-umount"@
            } else {
                "/auto-mount"@
            },
        ),
        state.phase == HookPhase::Mounts <==> request is ReadMounts,
        state.phase == HookPhase::Ask <==> request is AskPassphrase,
        state.phase == HookPhase::Store <==> request is StorePassphrase,
        state.phase == HookPhase::Drop <==> request is DropPrivileges,
        request matches HookRequest::DropPrivileges { uid, gid } ==> uid == state.user->0.uid && gid
            == state.user->0.gid,
        state.phase == HookPhase::Stored <==> request is TakePassphrase,
        request matches HookRequest::TakePassphrase(key) ==> key@ == "pam_gocryptfs.authtok"@,
        state.phase == HookPhase::Mount <==> request is Mount,
        state.phase == HookPhase::Unmount <==> request is Unmount,
        request matches HookRequest::Unmount(mountpoint) ==> mountpoint@
            == state.site->0.paths.mountpoint@,
        state.phase == HookPhase::Restore <==> request is RestorePrivileges,
        state.phase == HookPhase::Done <==> request is Return,
        request matches HookRequest::Return(code) ==> code == if state.hook == Hook::Authenticate {
            25int
        } else {
            0
        },
{
    reveal_strlit("/");
    reveal_strlit("config");
    reveal_strlit(".gocryptfs");
    reveal_strlit("/.gocryptfs/config");
    reveal_strlit("auto-mount");
    reveal_strlit("/auto-mount");
    reveal_strlit("auto-umount");
    reveal_strlit("/auto-umount");
    let home = lossy_text(state.user->0.dir@);
    law_slashed(home, ".gocryptfs"@);
    let dir = slashed(home, ".gocryptfs"@);
    law_path_in(dir, "config"@);
    assert(dir + "/"@ + "config"@ =~= home + "/.gocryptfs/config"@);
    let toggles = state.site->0.paths.config_dir@;
    law_path_in(toggles, "auto-mount"@);
    law_path_in(toggles, "auto-umount"@);
    assert(toggles + "/"@ + "auto-mount"@ =~= toggles + "/auto-mount"@);
    assert(toggles + "/"@ + "auto-umount"@ =~= toggles + "/auto-umount"@);
}

/// What a hook says when it stops: authentication says why it asks for no
/// passphrase or has none, a session that opens why it cannot go on as the user
/// or has no passphrase, and one that closes why there is nothing to do or it
/// cannot go on. Nothing else is said.
pub proof fn law_hook_notices(hook: Hook, phase: HookPhase)
    ensures
        stop_notice(Hook::Authenticate, HookPhase::Toggle) == Some(Notice::AutoMountOff),
        stop_notice(Hook::Authenticate, HookPhase::Mounts) == Some(Notice::AlreadyMounted),
        stop_notice(Hook::Authenticate, HookPhase::Ask) == Some(Notice::NoPassphrase),
        stop_notice(Hook::OpenSession, HookPhase::Drop) == Some(Notice::MountDropFailed),
        stop_notice(Hook::OpenSession, HookPhase::Stored) == Some(Notice::NothingStored),
        stop_notice(Hook::CloseSession, HookPhase::Toggle) == Some(Notice::AutoUmountOff),
        stop_notice(Hook::CloseSession, HookPhase::Mounts) == Some(Notice::NotMounted),
        stop_notice(Hook::CloseSession, HookPhase::Drop) == Some(Notice::UmountDropFailed),
        stop_notice(hook, phase) is Some ==> match hook {
            Hook::Authenticate => phase == HookPhase::Toggle || phase == HookPhase::Mounts || phase
                == HookPhase::Ask,
            Hook::OpenSession => phase == HookPhase::Drop || phase == HookPhase::Stored,
            Hook::CloseSession => phase == HookPhase::Toggle || phase == HookPhase::Mounts || phase
                == HookPhase::Drop,
        },
{
}

/// What a reply means to a hook: whether there is a user, whether the toggle is
/// there, whether the file system of the user is mounted, which has to be so for
/// unmounting and not so otherwise, whether there is a passphrase, and whether
/// privileges were dropped.
pub proof fn law_hook_answers(state: HookState, reply: HookReply)
    ensures
        state.phase == HookPhase::User && (reply matches HookReply::User(user)) ==> state.answer(
            reply,
        ) == Some(reply->User_0 is Some),
        state.phase == HookPhase::Toggle && reply is Exists ==> state.answer(reply) == Some(
            reply->Exists_0,
        ),
        state.phase == HookPhase::Mounts && reply is Mounts ==> state.answer(reply) == Some(
            is_mounted(opt_text(reply->Mounts_0), state.site->0.paths.mountpoint@) == (state.hook
                == Hook::CloseSession),
        ),
        state.phase == HookPhase::Ask && reply is Passphrase ==> state.answer(reply) == Some(
            reply->Passphrase_0,
        ),
        state.phase == HookPhase::Drop && reply is Dropped ==> state.answer(reply) == Some(
            reply->Dropped_0,
        ),
        state.phase == HookPhase::Stored && reply is Code ==> state.answer(reply) == Some(
            reply->Code_0 == 0,
        ),
{
}

/// What the world decides, spelled out: the settings that count, the toggle that
/// has to be there, and the place that has to be mounted or not.
pub proof fn law_world(world: HookWorld, args: Seq<Option<Vec<u8>>>)
    ensures
        ({
            let pwd = world.user->0;
            let home = lossy_text(pwd.dir@);
            let cipher = match last_setting(file_lines(world.config), "cipherdir="@) {
                Some(value) => Some(value),
                None => last_setting(argument_texts(args), "cipherdir="@),
            };
            let mount = match last_setting(file_lines(world.config), "mountpoint="@) {
                Some(value) => Some(value),
                None => last_setting(argument_texts(args), "mountpoint="@),
            };
            let dir = until_nul(
                match cipher {
                    Some(specifier) => specified(pwd, specifier),
                    None => home + "/.gocryptfs"@,
                },
            );
            let place = until_nul(
                match mount {
                    Some(specifier) => specified(pwd, specifier),
                    None => home + "/Private"@,
                },
            );
            &&& world.opted_in(Hook::Authenticate, args) <==> (world.files)(
                until_nul(dir + "/auto-mount"@),
            )
            &&& world.opted_in(Hook::OpenSession, args) <==> (world.files)(
                until_nul(dir + "/auto-mount"@),
            )
            &&& world.opted_in(Hook::CloseSession, args) <==> (world.files)(
                until_nul(dir + "/auto-umount"@),
            )
            &&& world.mounted(args) <==> is_mounted(world.mounts, place)
        }),
{
    reveal_strlit("/");
    reveal_strlit("auto-mount");
    reveal_strlit("/auto-mount");
    reveal_strlit("auto-umount");
    reveal_strlit("/auto-umount");
    reveal_strlit(".gocryptfs");
    reveal_strlit("/.gocryptfs");
    reveal_strlit("Private");
    reveal_strlit("/Private");
    let pwd = world.user->0;
    let home = lossy_text(pwd.dir@);
    law_slashed(home, ".gocryptfs"@);
    law_slashed(home, "Private"@);
    assert(home + "/"@ + ".gocryptfs"@ =~= home + "/.gocryptfs"@);
    assert(home + "/"@ + "Private"@ =~= home + "/Private"@);
    let dir = until_nul(config_directory(pwd, world.cipher(args)));
    law_path_in(dir, "auto-mount"@);
    law_path_in(dir, "auto-umount"@);
    assert(dir + "/"@ + "auto-mount"@ =~= dir + "/auto-mount"@);
    assert(dir + "/"@ + "auto-umount"@ =~= dir + "/auto-umount"@);
}

/// A hook begins knowing nothing but what its arguments set: of several that set
/// the same thing the last one counts.
pub proof fn law_hook_begins(state: HookState, hook: Hook, args: Seq<Option<Vec<u8>>>)
    requires
        state.begins(hook, args),
    ensures
        state.hook == hook,
        state.phase == HookPhase::User,
        state.user is None && state.site is None,
        opt_text(state.args.0) == last_setting(argument_texts(args), "cipherdir="@),
        opt_text(state.args.1) == last_setting(argument_texts(args), "mountpoint="@),
{
}

} // verus!
