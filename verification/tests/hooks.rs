use pam_gocryptfs::hooks::{
    pam_sm_authenticate, pam_sm_close_session, pam_sm_open_session, pam_sm_setcred, HookReply,
    HookRequest, HookRun,
};
use pam_gocryptfs::notice::Notice;
use pam_gocryptfs::user::PasswordInfo;

/// What the steps of a hook come to.
struct World {
    user: bool,
    config: Option<&'static [u8]>,
    file: &'static str,
    mounts: Option<&'static str>,
    passphrase: bool,
    dropped: bool,
    stored: i32,
}

const MOUNTED: &str = "x /home/alice/Private fuse.gocryptfs rw 0 0\n";

fn world() -> World {
    World {
        user: true,
        config: None,
        file: "/home/alice/.gocryptfs/auto-mount",
        mounts: Some(""),
        passphrase: true,
        dropped: true,
        stored: 0,
    }
}

fn alice() -> PasswordInfo {
    PasswordInfo {
        name: b"alice".to_vec(),
        dir: b"/home/alice".to_vec(),
        uid: 1000,
        gid: 407,
    }
}

/// Runs a hook, and returns the steps it took, its notices and its code.
fn run(mut run: HookRun, w: &World) -> (Vec<&'static str>, Vec<Notice>, i32) {
    let (mut steps, mut notices) = (Vec::new(), Vec::new());
    loop {
        let (step, reply) = match run.request() {
            HookRequest::FetchUser => ("user", HookReply::User(w.user.then_some(alice()))),
            HookRequest::ReadConfig(path) => {
                assert_eq!(path, "/home/alice/.gocryptfs/config");
                ("config", HookReply::Config(w.config.map(|c| c.to_vec())))
            }
            HookRequest::FileExists(path) => ("toggle", HookReply::Exists(path == w.file)),
            HookRequest::ReadMounts => {
                ("mounts", HookReply::Mounts(w.mounts.map(|m| m.to_string())))
            }
            HookRequest::AskPassphrase => ("ask", HookReply::Passphrase(w.passphrase)),
            HookRequest::StorePassphrase => ("store", HookReply::Code(w.stored)),
            HookRequest::DropPrivileges { uid, gid } => {
                assert_eq!((uid, gid), (1000, 407));
                ("drop", HookReply::Dropped(w.dropped))
            }
            HookRequest::TakePassphrase(key) => {
                assert_eq!(key, "pam_gocryptfs.authtok");
                ("take", HookReply::Code(w.stored))
            }
            HookRequest::Mount => ("mount", HookReply::Done),
            HookRequest::Unmount(mountpoint) => {
                assert_eq!(mountpoint, "/home/alice/Private");
                ("unmount", HookReply::Done)
            }
            HookRequest::RestorePrivileges => ("restore", HookReply::Done),
            HookRequest::Return(code) => return (steps, notices, code),
        };
        steps.push(step);
        let (next, notice) = run.reply(reply);
        notices.extend(notice);
        run = next;
    }
}

fn no_args() -> Vec<Option<Vec<u8>>> {
    Vec::new()
}

#[test]
fn credentials_are_no_concern() {
    assert_eq!(pam_sm_setcred(), 0);
}

#[test]
fn authentication_keeps_the_passphrase() {
    let r = run(pam_sm_authenticate(&no_args()), &world());
    assert_eq!(r, (vec!["user", "config", "toggle", "mounts", "ask", "store"], vec![], 25));
}

#[test]
fn authentication_ignores_a_failed_store() {
    let r = run(pam_sm_authenticate(&no_args()), &World { stored: 5, ..world() });
    assert_eq!(r, (vec!["user", "config", "toggle", "mounts", "ask", "store"], vec![], 25));
}

#[test]
fn authentication_stops_early() {
    let begin = || pam_sm_authenticate(&no_args());
    let r = run(begin(), &World { user: false, ..world() });
    assert_eq!(r, (vec!["user"], vec![], 25));
    let r = run(begin(), &World { file: "/other", ..world() });
    assert_eq!(r, (vec!["user", "config", "toggle"], vec![Notice::AutoMountOff], 25));
    let r = run(begin(), &World { mounts: Some(MOUNTED), ..world() });
    let steps = vec!["user", "config", "toggle", "mounts"];
    assert_eq!(r, (steps, vec![Notice::AlreadyMounted], 25));
    let r = run(begin(), &World { passphrase: false, ..world() });
    let steps = vec!["user", "config", "toggle", "mounts", "ask"];
    assert_eq!(r, (steps, vec![Notice::NoPassphrase], 25));
}

#[test]
fn opening_a_session_mounts() {
    let r = run(pam_sm_open_session(&no_args()), &world());
    let steps =
        vec!["user", "config", "toggle", "mounts", "drop", "take", "mount", "restore"];
    assert_eq!(r, (steps, vec![], 0));
}

#[test]
fn opening_a_session_without_a_table_mounts() {
    let r = run(pam_sm_open_session(&no_args()), &World { mounts: None, ..world() });
    assert!(r.0.contains(&"mount"));
}

#[test]
fn opening_a_session_stops_early() {
    let begin = || pam_sm_open_session(&no_args());
    let r = run(begin(), &World { user: false, ..world() });
    assert_eq!(r, (vec!["user"], vec![], 0));
    let r = run(begin(), &World { file: "/other", ..world() });
    assert_eq!(r, (vec!["user", "config", "toggle"], vec![], 0));
    let r = run(begin(), &World { mounts: Some(MOUNTED), ..world() });
    assert_eq!(r, (vec!["user", "config", "toggle", "mounts"], vec![], 0));
}

#[test]
fn opening_a_session_always_takes_privileges_back() {
    let begin = || pam_sm_open_session(&no_args());
    let r = run(begin(), &World { dropped: false, ..world() });
    let steps = vec!["user", "config", "toggle", "mounts", "drop", "restore"];
    assert_eq!(r, (steps, vec![Notice::MountDropFailed], 0));
    let r = run(begin(), &World { stored: 18, ..world() });
    let steps = vec!["user", "config", "toggle", "mounts", "drop", "take", "restore"];
    assert_eq!(r, (steps, vec![Notice::NothingStored], 0));
}

fn closing() -> World {
    let file = "/home/alice/.gocryptfs/auto-umount";
    World { file, mounts: Some(MOUNTED), ..world() }
}

#[test]
fn closing_a_session_unmounts() {
    let r = run(pam_sm_close_session(&no_args()), &closing());
    let steps = vec!["user", "config", "toggle", "mounts", "drop", "unmount", "restore"];
    assert_eq!(r, (steps, vec![], 0));
}

#[test]
fn closing_a_session_stops_early() {
    let begin = || pam_sm_close_session(&no_args());
    let r = run(begin(), &World { user: false, ..closing() });
    assert_eq!(r, (vec!["user"], vec![], 0));
    let r = run(begin(), &World { file: "/home/alice/.gocryptfs/auto-mount", ..closing() });
    assert_eq!(r, (vec!["user", "config", "toggle"], vec![Notice::AutoUmountOff], 0));
    let r = run(begin(), &World { mounts: Some(""), ..closing() });
    let steps = vec!["user", "config", "toggle", "mounts"];
    assert_eq!(r, (steps, vec![Notice::NotMounted], 0));
    let r = run(begin(), &World { dropped: false, ..closing() });
    let steps = vec!["user", "config", "toggle", "mounts", "drop", "restore"];
    assert_eq!(r, (steps, vec![Notice::UmountDropFailed], 0));
}

#[test]
fn configuration_and_arguments_move_the_toggle_and_the_mount_point() {
    let args = vec![Some(b"cipherdir=/arg/%(USER)".to_vec()), Some(b"mountpoint=/n".to_vec())];
    let w = World { file: "/arg/alice/auto-mount", mounts: Some("x /n gocryptfs\n"), ..world() };
    let r = run(pam_sm_open_session(&args), &w);
    assert_eq!(r.0, ["user", "config", "toggle", "mounts"]);
    let w = World {
        config: Some(b"cipherdir=/cfg\nmountpoint=%(HOME)\n-allow_other\n"),
        file: "/cfg/auto-mount",
        ..w
    };
    let r = run(pam_sm_open_session(&args), &w);
    assert!(r.0.contains(&"mount"));
}

#[test]
fn options_of_the_configuration_are_kept() {
    let begin = pam_sm_open_session(&no_args());
    let (next, _) = begin.reply(HookReply::User(Some(alice())));
    let (next, _) = next.reply(HookReply::Config(Some(b"-allow_other\n-fg".to_vec())));
    let site = next.state().site.as_ref().unwrap();
    assert_eq!(site.options, ["-allow_other", "-fg"]);
    assert_eq!(site.paths.cipher_dir, "/home/alice/.gocryptfs/gocryptfs");
}

#[test]
fn reply_to_another_phase_of_a_hook_changes_nothing() {
    let begin = pam_sm_open_session(&no_args());
    let (next, notice) = begin.reply(HookReply::Dropped(false));
    assert_eq!(notice, None);
    assert!(matches!(next.request(), HookRequest::FetchUser));
}
