use pam_gocryptfs::notice::Notice;
use pam_gocryptfs::user::{
    fetch_pwd, pam_handle_t, FetchPhase, FetchPwd, FetchReply, PamHandle, PasswordInfo,
};

fn search() -> FetchPwd {
    FetchPwd::new(PamHandle::new(pam_handle_t { address: 4711 }))
}

fn step(search: FetchPwd, reply: FetchReply) -> FetchPwd {
    let (next, notice) = fetch_pwd(search, reply);
    assert_eq!(notice, None);
    next
}

fn at_lookup(hint: isize) -> FetchPwd {
    let s = step(search(), FetchReply::User { rc: 0, named: true });
    assert_eq!(s.phase, FetchPhase::SizeHint);
    step(s, FetchReply::SizeHint(hint))
}

fn entry() -> Option<PasswordInfo> {
    Some(PasswordInfo { name: b"al".to_vec(), dir: b"/h".to_vec(), uid: 7, gid: 8 })
}

#[test]
fn handle_is_kept() {
    let pam = PamHandle::new(pam_handle_t { address: 99 });
    assert_eq!(pam.handle.address, 99);
    assert_eq!(search().pam.handle.address, 4711);
}

#[test]
fn no_user_ends_the_search() {
    let (s, notice) = fetch_pwd(search(), FetchReply::User { rc: 10, named: true });
    assert_eq!((s.phase, notice), (FetchPhase::Failed, Some(Notice::UserError(10))));
    let (s, notice) = fetch_pwd(search(), FetchReply::User { rc: 0, named: false });
    assert_eq!((s.phase, notice), (FetchPhase::Failed, Some(Notice::UserError(0))));
    assert!(s.entry.is_none());
}

#[test]
fn first_buffer_size() {
    assert_eq!(at_lookup(1024).phase, FetchPhase::Lookup(1024));
    assert_eq!(at_lookup(0).phase, FetchPhase::Lookup(16384));
    assert_eq!(at_lookup(-1).phase, FetchPhase::Lookup(16384));
    assert_eq!(at_lookup(3_000_000).phase, FetchPhase::Lookup(3_000_000));
}

#[test]
fn entry_is_found() {
    let s = step(at_lookup(1024), FetchReply::Lookup { code: 0, entry: entry() });
    assert_eq!(s.phase, FetchPhase::Found);
    let pwd = s.entry.unwrap();
    assert_eq!((pwd.name, pwd.dir, pwd.uid, pwd.gid), (b"al".to_vec(), b"/h".to_vec(), 7, 8));
}

#[test]
fn lookup_without_entry_fails() {
    let (s, notice) = fetch_pwd(at_lookup(1), FetchReply::Lookup { code: 0, entry: None });
    assert_eq!((s.phase, notice), (FetchPhase::Failed, Some(Notice::LookupFailed)));
    let reply = FetchReply::Lookup { code: libc::EIO, entry: None };
    let (s, notice) = fetch_pwd(at_lookup(1), reply);
    assert_eq!((s.phase, notice), (FetchPhase::Failed, Some(Notice::LookupFailed)));
}

#[test]
fn buffer_grows_up_to_the_limit() {
    let mut s = at_lookup(300_000);
    let mut sizes = Vec::new();
    while let FetchPhase::Lookup(size) = s.phase {
        sizes.push(size);
        s = fetch_pwd(s, FetchReply::Lookup { code: libc::ERANGE, entry: None }).0;
    }
    assert_eq!(sizes, [300_000, 600_000, 1 << 20]);
    assert_eq!(s.phase, FetchPhase::Failed);
}

#[test]
fn reply_to_another_phase_of_the_search_changes_nothing() {
    let s = step(search(), FetchReply::SizeHint(5));
    assert_eq!(s.phase, FetchPhase::User);
    let s = step(s, FetchReply::Lookup { code: 0, entry: entry() });
    assert_eq!(s.phase, FetchPhase::User);
    assert!(s.entry.is_none());
}
