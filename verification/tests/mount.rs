use pam_gocryptfs::config::Paths;
use pam_gocryptfs::hooks::Site;
use pam_gocryptfs::mount::{
    helper_request, mount_command, mount_gocryptfs_as_user, mount_helper, mount_request,
    unmount_gocryptfs_as_user, unmount_helper, unmount_helper_request, unmount_request,
    HelperPhase, HelperReply, HelperRequest, MountPhase, MountReply, MountRequest,
    UnmountHelperPhase, UnmountHelperRequest, UnmountPhase, UnmountReply, UnmountRequest,
};
use pam_gocryptfs::notice::Notice;

fn paths() -> Paths {
    Paths {
        cipher_dir: "/c/gocryptfs".to_string(),
        mountpoint: "/m".to_string(),
        config_dir: "/c".to_string(),
    }
}

const FORK: MountPhase = MountPhase::Fork { read_fd: 5, write_fd: 6 };
const CLOSE: MountPhase = MountPhase::CloseRead { read_fd: 5, write_fd: 6 };
const WAIT: MountPhase = MountPhase::Wait { read_fd: 5, write_fd: 6, pid: 77 };

#[test]
fn command_that_mounts() {
    let command = mount_command(
        5,
        Some(&b"-allow_other\n-fg\n".to_vec()),
        &vec!["-nonempty".to_string()],
        &paths(),
    );
    assert_eq!(command.bin, "/usr/bin/gocryptfs");
    let argv = [
        "gocryptfs",
        "-q",
        "-passfile",
        "/proc/self/fd/5",
        "-allow_other",
        "-nonempty",
        "/c/gocryptfs",
        "/m",
    ];
    assert_eq!(command.argv, argv);
}

#[test]
fn command_that_mounts_without_options() {
    let command = mount_command(123, None, &Vec::new(), &paths());
    let argv = ["gocryptfs", "-q", "-passfile", "/proc/self/fd/123", "/c/gocryptfs", "/m"];
    assert_eq!(command.argv, argv);
}

#[test]
fn mounting_needs_a_file_system_a_place_and_a_pipe() {
    let step = mount_gocryptfs_as_user;
    assert_eq!(step(MountPhase::Conf, MountReply::Exists(true)), (MountPhase::Dir, None));
    assert_eq!(
        step(MountPhase::Conf, MountReply::Exists(false)),
        (MountPhase::Done, Some(Notice::NoConfToMount))
    );
    assert_eq!(step(MountPhase::Dir, MountReply::Exists(true)), (MountPhase::Pipe, None));
    assert_eq!(
        step(MountPhase::Dir, MountReply::Exists(false)),
        (MountPhase::Done, Some(Notice::MountPointFailed))
    );
    let pipe = MountReply::Pipe { read_fd: 5, write_fd: 6 };
    assert_eq!(step(MountPhase::Pipe, pipe), (FORK, None));
    assert_eq!(
        step(MountPhase::Pipe, MountReply::NoPipe),
        (MountPhase::Done, Some(Notice::PassPipeFailed))
    );
}

#[test]
fn mounting_helper_is_started_and_waited_for() {
    let step = mount_gocryptfs_as_user;
    assert_eq!(step(FORK, MountReply::Forked(77)), (WAIT, None));
    let helper = MountPhase::Helper { read_fd: 5, write_fd: 6 };
    assert_eq!(step(FORK, MountReply::Forked(0)), (helper, None));
    assert_eq!(step(FORK, MountReply::Forked(-1)), (CLOSE, Some(Notice::MountForkFailed)));
    assert_eq!(step(WAIT, MountReply::Exited(0)), (CLOSE, None));
    assert_eq!(step(WAIT, MountReply::Exited(256)), (CLOSE, Some(Notice::MountFailed)));
    assert_eq!(step(WAIT, MountReply::GaveUp), (CLOSE, Some(Notice::MountTimedOut)));
}

#[test]
fn pipe_is_closed_after_mounting() {
    let step = mount_gocryptfs_as_user;
    let second = MountPhase::CloseWrite { write_fd: 6 };
    assert_eq!(step(CLOSE, MountReply::Done), (second, None));
    assert_eq!(step(second, MountReply::Done), (MountPhase::Done, None));
    assert_eq!(step(second, MountReply::GaveUp), (second, None));
}

#[test]
fn steps_of_mounting() {
    let p = paths();
    assert!(matches!(mount_request(MountPhase::Conf, &p),
        MountRequest::FileExists(f) if f == "/c/gocryptfs/gocryptfs.conf"));
    assert!(matches!(mount_request(MountPhase::Dir, &p),
        MountRequest::EnsureDir(d, 0o700) if d == "/m"));
    assert!(matches!(mount_request(WAIT, &p),
        MountRequest::Wait(w) if w.state().pid == 77 && w.state().max_polls == 600));
    assert!(matches!(mount_request(CLOSE, &p), MountRequest::Close(5)));
    let second = MountPhase::CloseWrite { write_fd: 6 };
    assert!(matches!(mount_request(second, &p), MountRequest::Close(6)));
}

#[test]
fn helper_that_mounts() {
    let mut phase = HelperPhase::Impersonate;
    let flags = 8 | libc::FD_CLOEXEC;
    let replies = [
        HelperReply::Became(true),
        HelperReply::Done,
        HelperReply::Code(flags),
        HelperReply::Done,
        HelperReply::Done,
        HelperReply::Done,
    ];
    let mut phases = Vec::new();
    for reply in replies {
        phase = mount_helper(phase, reply);
        phases.push(phase);
    }
    let expected = [
        HelperPhase::CloseWrite,
        HelperPhase::Flags,
        HelperPhase::SetFlags(8),
        HelperPhase::Options,
        HelperPhase::Exec,
        HelperPhase::Exit,
    ];
    assert_eq!(phases, expected);
}

#[test]
fn helper_runs_nothing_as_someone_else() {
    let next = mount_helper(HelperPhase::Impersonate, HelperReply::Became(false));
    assert_eq!(next, HelperPhase::Exit);
    assert_eq!(mount_helper(HelperPhase::Flags, HelperReply::Code(-1)), HelperPhase::Options);
}

#[test]
fn steps_of_the_mounting_helper() {
    let site = Site { paths: paths(), options: vec!["-nonempty".to_string()] };
    let file = b"-allow_other".to_vec();
    let step = |phase| helper_request(phase, 5, 6, &site, Some(&file));
    assert!(matches!(step(HelperPhase::Impersonate), HelperRequest::Impersonate));
    assert!(matches!(step(HelperPhase::CloseWrite), HelperRequest::Close(6)));
    assert!(matches!(step(HelperPhase::Flags), HelperRequest::GetFlags(5)));
    assert!(matches!(step(HelperPhase::SetFlags(8)), HelperRequest::SetFlags(5, 8)));
    assert!(matches!(step(HelperPhase::Options),
        HelperRequest::ReadOptions(f) if f == "/c/mount-options"));
    let line = "gocryptfs -q -passfile /proc/self/fd/5 -allow_other -nonempty /c/gocryptfs /m";
    assert!(matches!(step(HelperPhase::Exec),
        HelperRequest::Exec(c) if c.bin == "/usr/bin/gocryptfs" && c.argv.join(" ") == line));
    assert!(matches!(step(HelperPhase::Exit), HelperRequest::Exit(1)));
}

#[test]
fn commands_that_unmount() {
    let command = |i| match unmount_helper_request(UnmountHelperPhase::Exec(i), "/m") {
        UnmountHelperRequest::Exec(c) => (c.bin, c.argv.join(" ")),
        _ => panic!("no command"),
    };
    let expected = [
        ("/bin/fusermount3".to_string(), "fusermount3 -u /m".to_string()),
        ("/bin/fusermount".to_string(), "fusermount -u /m".to_string()),
        ("/bin/umount".to_string(), "umount /m".to_string()),
    ];
    assert_eq!([command(0), command(1), command(2)], expected);
}

#[test]
fn unmounting_helper_ends_with_a_failure() {
    let step = |phase| unmount_helper_request(phase, "/m");
    assert!(matches!(step(UnmountHelperPhase::Impersonate), UnmountHelperRequest::Impersonate));
    assert!(matches!(step(UnmountHelperPhase::Exit), UnmountHelperRequest::Exit(1)));
    assert!(matches!(step(UnmountHelperPhase::Exec(3)), UnmountHelperRequest::Exit(1)));
}

#[test]
fn steps_of_unmounting() {
    assert!(matches!(unmount_request(UnmountPhase::Fork), UnmountRequest::Fork));
    assert!(matches!(unmount_request(UnmountPhase::Helper), UnmountRequest::BecomeHelper));
    assert!(matches!(unmount_request(UnmountPhase::Wait(77)),
        UnmountRequest::Wait(w) if w.state().pid == 77 && w.state().max_polls == 600));
    assert!(matches!(unmount_request(UnmountPhase::Done), UnmountRequest::Finished));
}

#[test]
fn unmounting_helper_is_started_and_waited_for() {
    let step = unmount_gocryptfs_as_user;
    let fork = UnmountPhase::Fork;
    assert_eq!(step(fork, UnmountReply::Forked(77)), (UnmountPhase::Wait(77), None));
    assert_eq!(step(fork, UnmountReply::Forked(0)), (UnmountPhase::Helper, None));
    assert_eq!(
        step(fork, UnmountReply::Forked(-1)),
        (UnmountPhase::Done, Some(Notice::UnmountForkFailed))
    );
    let wait = UnmountPhase::Wait(77);
    let failed = (UnmountPhase::Done, Some(Notice::UnmountFailed));
    assert_eq!(step(wait, UnmountReply::Exited(0)), (UnmountPhase::Done, None));
    assert_eq!(step(wait, UnmountReply::Exited(1)), failed);
    assert_eq!(step(wait, UnmountReply::GaveUp), failed);
}

#[test]
fn unmounting_tries_each_command() {
    let mut phase = unmount_helper(UnmountHelperPhase::Impersonate, true);
    let mut tried = Vec::new();
    while let UnmountHelperPhase::Exec(i) = phase {
        tried.push(i);
        phase = unmount_helper(phase, false);
    }
    assert_eq!((tried, phase), (vec![0, 1, 2], UnmountHelperPhase::Exit));
    let refused = unmount_helper(UnmountHelperPhase::Impersonate, false);
    assert_eq!(refused, UnmountHelperPhase::Exit);
}
