use pam_gocryptfs::expand::{expand_vars, map_var};
use pam_gocryptfs::user::PasswordInfo;

fn alice() -> PasswordInfo {
    PasswordInfo {
        name: b"alice".to_vec(),
        dir: b"/home/alice".to_vec(),
        uid: 1000,
        gid: 407,
    }
}

fn expand(s: &str) -> String {
    expand_vars(&alice(), s.to_string())
}

#[test]
fn variables_stand_for_the_user() {
    assert_eq!(map_var(&alice(), "USER"), "alice");
    assert_eq!(map_var(&alice(), "HOME"), "/home/alice");
    assert_eq!(map_var(&alice(), "USERUID"), "1000");
    assert_eq!(map_var(&alice(), "USERGID"), "407");
    assert_eq!(map_var(&alice(), "user"), "%(user)");
    assert_eq!(map_var(&alice(), ""), "%()");
}

#[test]
fn numbers_are_decimal() {
    let root = PasswordInfo { name: Vec::new(), dir: Vec::new(), uid: 0, gid: u32::MAX };
    assert_eq!(map_var(&root, "USERUID"), "0");
    assert_eq!(map_var(&root, "USERGID"), "4294967295");
}

#[test]
fn tilde_means_home_only_in_front() {
    assert_eq!(expand("~/Private"), "/home/alice/Private");
    assert_eq!(expand("~"), "~");
    assert_eq!(expand("~bob/x"), "~bob/x");
    assert_eq!(expand("/x/~/y"), "/x/~/y");
    assert_eq!(expand("~/~/y"), "/home/alice/~/y");
}

#[test]
fn specifiers_of_the_manual() {
    assert_eq!(expand("/home/%(USER)/.gocryptfs"), "/home/alice/.gocryptfs");
    assert_eq!(expand("/home/.gocryptfs/%(USER)"), "/home/.gocryptfs/alice");
    assert_eq!(expand("%(HOME)"), "/home/alice");
    assert_eq!(expand("/run/%(USERUID)-%(USERGID)/m"), "/run/1000-407/m");
}

#[test]
fn plain_text_is_left_alone() {
    assert_eq!(expand(""), "");
    assert_eq!(expand("100%"), "100%");
    assert_eq!(expand("a%b%%c"), "a%b%%c");
    assert_eq!(expand("(USER)"), "(USER)");
}

#[test]
fn percent_before_a_variable_is_kept() {
    assert_eq!(expand("%%(USER)"), "%alice");
    assert_eq!(expand("%(USER)%(USER)"), "alicealice");
}

#[test]
fn unknown_variables_are_kept() {
    assert_eq!(expand("/a/%(SHELL)/b"), "/a/%(SHELL)/b");
    assert_eq!(expand("%( USER)"), "%( USER)");
}

#[test]
fn variable_without_end_reaches_to_the_end() {
    assert_eq!(expand("/a/%(USER"), "/a/alice");
    assert_eq!(expand("/a/%(NAME"), "/a/%(NAME)");
    assert_eq!(expand("/a/%("), "/a/%()");
}

#[test]
fn variables_in_the_home_directory_are_expanded() {
    let odd = PasswordInfo { name: b"eve".to_vec(), dir: b"/h/%(USER)".to_vec(), uid: 1, gid: 1 };
    assert_eq!(expand_vars(&odd, "~/x".to_string()), "/h/eve/x");
    assert_eq!(expand_vars(&odd, "%(HOME)/x".to_string()), "/h/%(USER)/x");
}

#[test]
fn malformed_names_are_made_readable() {
    let odd = PasswordInfo { name: b"a\xffb".to_vec(), dir: "/h/\u{e9}".into(), uid: 1, gid: 1 };
    assert_eq!(map_var(&odd, "USER"), "a\u{fffd}b");
    assert_eq!(map_var(&odd, "HOME"), "/h/\u{e9}");
}
