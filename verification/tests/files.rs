use pam_gocryptfs::files::{ensure_dir, DirPhase, DirReply};

fn stat(rc: i32, mode: u32) -> DirPhase {
    ensure_dir(DirPhase::Stat, DirReply::Stat { rc, mode })
}

#[test]
fn directory_is_there() {
    assert_eq!(stat(0, libc::S_IFDIR | 0o755), DirPhase::Done(true));
}

#[test]
fn something_else_is_there() {
    assert_eq!(stat(0, libc::S_IFREG | 0o644), DirPhase::Done(false));
    assert_eq!(stat(0, libc::S_IFBLK), DirPhase::Done(false));
    assert_eq!(stat(0, libc::S_IFLNK | 0o777), DirPhase::Done(false));
    assert_eq!(stat(0, 0), DirPhase::Done(false));
}

#[test]
fn directory_is_made() {
    assert_eq!(stat(-1, 0), DirPhase::Mkdir);
    assert_eq!(ensure_dir(DirPhase::Mkdir, DirReply::Mkdir(0)), DirPhase::Done(true));
    assert_eq!(ensure_dir(DirPhase::Mkdir, DirReply::Mkdir(-1)), DirPhase::Done(false));
    assert_eq!(ensure_dir(DirPhase::Stat, DirReply::Mkdir(0)), DirPhase::Stat);
}
