use pam_gocryptfs::change::{
    change_command, change_helper, change_helper_request, feed_reply, pam_sm_chauthtok,
    ChangeHelperPhase, ChangeHelperRequest, ChangeReply, ChangeRequest,
};
use pam_gocryptfs::notice::Notice;
use pam_gocryptfs::user::PasswordInfo;

/// What the steps of the hook come to.
#[derive(Clone, Copy)]
struct World {
    user: bool,
    old_pass: (i32, Option<usize>),
    new_pass: (i32, Option<usize>),
    conf: &'static str,
    pipe2: i32,
    pipe: i32,
    dropped: bool,
    pid: i32,
    wrote: isize,
}

const WORLD: World = World {
    user: true,
    old_pass: (0, Some(3)),
    new_pass: (0, Some(4)),
    conf: "/home/alice/.gocryptfs/gocryptfs/gocryptfs.conf",
    pipe2: 0,
    pipe: -1,
    dropped: true,
    pid: 77,
    wrote: 14,
};

fn alice() -> PasswordInfo {
    PasswordInfo {
        name: b"alice".to_vec(),
        dir: b"/home/alice".to_vec(),
        uid: 1000,
        gid: 407,
    }
}

/// Runs the hook, and returns the steps it took, its notices and its code.
fn run(flags: i32, w: World) -> (String, Vec<Notice>, i32) {
    let mut run = pam_sm_chauthtok(flags, &Vec::new());
    let (mut steps, mut notices) = (Vec::new(), Vec::new());
    loop {
        let (step, reply) = match run.request() {
            ChangeRequest::FetchUser => {
                ("user".to_string(), ChangeReply::User(w.user.then_some(alice())))
            }
            ChangeRequest::GetOldPass(item) => {
                assert_eq!(item, 7);
                let (rc, length) = w.old_pass;
                ("old".to_string(), ChangeReply::Pass { rc, length })
            }
            ChangeRequest::GetNewPass(item) => {
                assert_eq!(item, 6);
                let (rc, length) = w.new_pass;
                ("new".to_string(), ChangeReply::Pass { rc, length })
            }
            ChangeRequest::ReadConfig(path) => {
                assert_eq!(path, "/home/alice/.gocryptfs/config");
                ("config".to_string(), ChangeReply::Config(None))
            }
            ChangeRequest::FileExists(path) => {
                ("conf".to_string(), ChangeReply::Exists(path == w.conf))
            }
            ChangeRequest::MakePipe2 => {
                ("pipe2".to_string(), ChangeReply::Pipe { rc: w.pipe2, read_fd: 5, write_fd: 6 })
            }
            ChangeRequest::MakePipe => {
                ("pipe".to_string(), ChangeReply::Pipe { rc: w.pipe, read_fd: 7, write_fd: 8 })
            }
            ChangeRequest::DropPrivileges { uid, gid } => {
                assert_eq!((uid, gid), (1000, 407));
                ("drop".to_string(), ChangeReply::Dropped(w.dropped))
            }
            ChangeRequest::Fork => ("fork".to_string(), ChangeReply::Forked(w.pid)),
            ChangeRequest::BecomeHelper { read_fd, write_fd, cipher_dir } => {
                assert_eq!(cipher_dir, "/home/alice/.gocryptfs/gocryptfs");
                steps.push(format!("helper{}{}", read_fd, write_fd));
                return (steps.join(" "), notices, -1);
            }
            ChangeRequest::Close(fd) => (format!("close{}", fd), ChangeReply::Done),
            ChangeRequest::WritePassphrases => {
                let (fd, bytes) = run.feed(b"old", b"newp").unwrap();
                assert_eq!(bytes, b"old\nnewp\nnewp\n");
                (format!("write{}", fd), feed_reply(w.wrote, b"old", b"newp"))
            }
            ChangeRequest::Wait(wait) => {
                assert_eq!(wait.state().max_polls, 600);
                (format!("wait{}", wait.state().pid), ChangeReply::Done)
            }
            ChangeRequest::RestorePrivileges => ("restore".to_string(), ChangeReply::Done),
            ChangeRequest::Return(code) => return (steps.join(" "), notices, code),
        };
        steps.push(step);
        let (next, notice) = run.reply(reply);
        notices.extend(notice);
        run = next;
    }
}

fn expect(r: (String, Vec<Notice>, i32), steps: &str, notices: &[Notice], code: i32) {
    assert_eq!((r.0.as_str(), r.1.as_slice(), r.2), (steps, notices, code));
}

const PRELIM: i32 = 0x4000;

#[test]
fn passphrase_is_changed() {
    let steps =
        "user old new config conf pipe2 drop fork close5 write6 close6 wait77 restore";
    expect(run(0, WORLD), steps, &[], 0);
    expect(run(0x2000, WORLD), steps, &[], 0);
}

#[test]
fn preliminary_check_wants_the_old_passphrase() {
    expect(run(PRELIM, WORLD), "user old", &[], 0);
    for length in [None, Some(0)] {
        let w = World { old_pass: (0, length), ..WORLD };
        expect(run(PRELIM | 0x8000, w), "user old", &[Notice::OldPassphraseMissing], 21);
    }
}

#[test]
fn codes_of_pam_do_not_hold_up_a_change() {
    expect(run(0, World { user: false, ..WORLD }), "user", &[], 0);
    let w = World { old_pass: (9, Some(3)), ..WORLD };
    expect(run(PRELIM, w), "user old", &[Notice::OldPassphraseError(9)], 0);
    let w = World { new_pass: (9, None), ..WORLD };
    expect(run(0, w), "user old new", &[Notice::NewPassphraseError(9)], 0);
}

#[test]
fn missing_passphrases_are_reported() {
    let missing = [Notice::PassphraseMissing];
    expect(run(0, World { old_pass: (0, None), ..WORLD }), "user old new", &missing, 21);
    expect(run(0, World { new_pass: (0, None), ..WORLD }), "user old new", &missing, 21);
    expect(run(0, World { new_pass: (0, Some(0)), ..WORLD }), "user old new", &missing, 21);
}

#[test]
fn empty_old_passphrase_is_passed_on() {
    let r = run(0, World { old_pass: (0, Some(0)), ..WORLD });
    assert!(r.0.contains("write6"));
}

#[test]
fn change_without_a_file_system() {
    let w = World { conf: "/other", ..WORLD };
    expect(run(0, w), "user old new config conf", &[Notice::NoConfToChange], 0);
}

#[test]
fn change_falls_back_to_a_plain_pipe() {
    let steps =
        "user old new config conf pipe2 pipe drop fork close7 write8 close8 wait77 restore";
    expect(run(0, World { pipe2: -1, pipe: 0, ..WORLD }), steps, &[], 0);
    let w = World { pipe2: -1, ..WORLD };
    let steps = "user old new config conf pipe2 pipe";
    expect(run(0, w), steps, &[Notice::StdinPipeFailed], 0);
}

#[test]
fn change_cleans_up_without_a_helper() {
    let w = World { dropped: false, ..WORLD };
    let steps = "user old new config conf pipe2 drop close5 close6 restore";
    expect(run(0, w), steps, &[Notice::ChangeDropFailed], 0);
    let w = World { pid: -1, ..WORLD };
    let steps = "user old new config conf pipe2 drop fork close5 close6 restore";
    expect(run(0, w), steps, &[Notice::ChangeForkFailed], 0);
}

#[test]
fn change_reports_a_short_write() {
    let r = run(0, World { wrote: 13, ..WORLD });
    assert_eq!((r.1, r.2), (vec![Notice::StdinWriteFailed], 0));
    let r = run(0, World { wrote: -1, ..WORLD });
    assert_eq!((r.1, r.2), (vec![Notice::StdinWriteFailed], 0));
}

#[test]
fn helper_side_of_the_change() {
    let r = run(0, World { pid: 0, ..WORLD });
    assert!(r.0.ends_with("fork helper56"));
}

#[test]
fn command_that_changes_the_passphrase() {
    let command = change_command("/c/gocryptfs");
    assert_eq!(command.bin, "/usr/bin/gocryptfs");
    let argv = ["gocryptfs", "-q", "-nosyslog", "-passwd", "/c/gocryptfs"];
    assert_eq!(command.argv, argv);
}

#[test]
fn helper_that_changes_the_passphrase() {
    let mut phase = ChangeHelperPhase::Impersonate;
    let mut phases = Vec::new();
    for ok in [true, false, true, false, false] {
        phase = change_helper(phase, ok);
        phases.push(phase);
    }
    let expected = [
        ChangeHelperPhase::CloseWrite,
        ChangeHelperPhase::TakeInput,
        ChangeHelperPhase::CloseRead,
        ChangeHelperPhase::Exec,
        ChangeHelperPhase::Exit,
    ];
    assert_eq!(phases, expected);
    assert_eq!(change_helper(ChangeHelperPhase::Impersonate, false), ChangeHelperPhase::Exit);
    assert_eq!(change_helper(ChangeHelperPhase::TakeInput, false), ChangeHelperPhase::Exit);
}

#[test]
fn steps_of_the_changing_helper() {
    let step = |phase| change_helper_request(phase, 5, 6, "/c");
    assert!(matches!(step(ChangeHelperPhase::Impersonate), ChangeHelperRequest::Impersonate));
    assert!(matches!(step(ChangeHelperPhase::CloseWrite), ChangeHelperRequest::Close(6)));
    assert!(matches!(step(ChangeHelperPhase::TakeInput),
        ChangeHelperRequest::Duplicate { from: 5, to: 0 }));
    assert!(matches!(step(ChangeHelperPhase::CloseRead), ChangeHelperRequest::Close(5)));
    assert!(matches!(step(ChangeHelperPhase::Exec),
        ChangeHelperRequest::Exec(command) if command.argv == change_command("/c").argv));
    assert!(matches!(step(ChangeHelperPhase::Exit), ChangeHelperRequest::Exit(1)));
}

#[test]
fn mount_point_makes_no_difference_to_the_change() {
    let args = vec![Some(b"mountpoint=/m".to_vec()), Some(b"cipherdir=/c".to_vec())];
    let begin = pam_sm_chauthtok(0, &args);
    let (run, _) = begin.reply(ChangeReply::User(Some(alice())));
    let (run, _) = run.reply(ChangeReply::Pass { rc: 0, length: Some(1) });
    let (run, _) = run.reply(ChangeReply::Pass { rc: 0, length: Some(1) });
    let (run, _) = run.reply(ChangeReply::Config(Some(b"mountpoint=/n".to_vec())));
    assert!(matches!(run.request(),
        ChangeRequest::FileExists(path) if path == "/c/gocryptfs/gocryptfs.conf"));
}

#[test]
fn nothing_is_fed_before_there_is_a_helper() {
    let run = pam_sm_chauthtok(0, &Vec::new());
    assert!(run.feed(b"old", b"new").is_none());
}

#[test]
fn feeding_is_held_against_the_length_of_the_lines() {
    assert!(matches!(feed_reply(-1, b"ab", b"c"), ChangeReply::Written { wrote: -1, size: 7 }));
    assert!(matches!(feed_reply(3, b"", b""), ChangeReply::Written { wrote: 3, size: 3 }));
}
