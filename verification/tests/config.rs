use pam_gocryptfs::config::{
    build_default_paths, file_in, parse_pam_args, read_config, read_mount_options,
    user_config_path, user_paths,
};
use pam_gocryptfs::user::PasswordInfo;

fn alice() -> PasswordInfo {
    PasswordInfo {
        name: b"alice".to_vec(),
        dir: b"/home/alice".to_vec(),
        uid: 1000,
        gid: 1000,
    }
}

fn args(list: &[&str]) -> Vec<Option<Vec<u8>>> {
    list.iter().map(|a| Some(a.as_bytes().to_vec())).collect()
}

fn options(contents: &[u8]) -> Vec<String> {
    let mut list = vec!["first".to_string()];
    read_mount_options(Some(&contents.to_vec()), &mut list);
    assert_eq!(list.remove(0), "first");
    list
}

#[test]
fn module_arguments_set_paths() {
    let r = parse_pam_args(&args(&["cipherdir=/c", "debug", "mountpoint=~/m"]));
    assert_eq!(r, (Some("/c".to_string()), Some("~/m".to_string())));
    assert_eq!(parse_pam_args(&args(&[])), (None, None));
    assert_eq!(parse_pam_args(&args(&["cipherdir", "Mountpoint=/m"])), (None, None));
    assert_eq!(parse_pam_args(&args(&["cipherdir="])), (Some(String::new()), None));
}

#[test]
fn last_module_argument_counts() {
    let r = parse_pam_args(&args(&["cipherdir=/a", "cipherdir=/b", "mountpoint=/m"]));
    assert_eq!(r, (Some("/b".to_string()), Some("/m".to_string())));
}

#[test]
fn missing_and_malformed_arguments() {
    let list = vec![None, Some(b"mountpoint=/m\xff".to_vec()), None];
    assert_eq!(parse_pam_args(&list), (None, Some("/m\u{fffd}".to_string())));
}

#[test]
fn mount_options_are_flags_one_per_line() {
    assert_eq!(options(b"-allow_other\n  -nonempty \r\n"), ["-allow_other", "-nonempty"]);
    assert_eq!(options(b"-o a,b\n-"), ["-o a,b", "-"]);
    assert_eq!(options(b"allow_other\n# -x\n\n"), Vec::<String>::new());
}

#[test]
fn foreground_flags_are_left_out() {
    assert_eq!(options(b"-f\n-fg\n -f \n-fgx\n-ff"), ["-fgx", "-ff"]);
}

#[test]
fn options_with_null_characters_are_left_out() {
    assert_eq!(options(b"-a\0b\n-c"), ["-c"]);
}

#[test]
fn malformed_line_ends_the_options() {
    assert_eq!(options(b"-a\n-b\xff\n-c\n"), ["-a"]);
    assert_eq!(options("-a\n-\u{e9}\n-c".as_bytes()), ["-a", "-\u{e9}", "-c"]);
}

#[test]
fn no_options_file_adds_nothing() {
    let mut list: Vec<String> = Vec::new();
    read_mount_options(None, &mut list);
    assert!(list.is_empty());
}

#[test]
fn configuration_file_of_the_manual() {
    let file = b"# key=value lines set paths (with ~/ and %(...) expansion)\n\
cipherdir=/home/.gocryptfs/%(USER)\n\
mountpoint=%(HOME)\n\
\n\
# lines starting with '-' are extra gocryptfs flags, one per line\n\
-allow_other\n\
-nonempty\n"
        .to_vec();
    let config = read_config(Some(&file));
    assert_eq!(config.cipherdir.as_deref(), Some("/home/.gocryptfs/%(USER)"));
    assert_eq!(config.mountpoint.as_deref(), Some("%(HOME)"));
    assert_eq!(config.options, ["-allow_other", "-nonempty"]);
    let paths = user_paths(&alice(), &config, &(None, None));
    assert_eq!(paths.cipher_dir, "/home/.gocryptfs/alice/gocryptfs");
    assert_eq!(paths.config_dir, "/home/.gocryptfs/alice");
    assert_eq!(paths.mountpoint, "/home/alice");
}

#[test]
fn all_flags_of_the_configuration_are_passed_on() {
    let config = read_config(Some(&b"-fg\n -f \n-a\0b\nnonempty\n-o x".to_vec()));
    assert_eq!(config.options, ["-fg", "-f", "-o x"]);
}

#[test]
fn comments_in_the_configuration_say_nothing() {
    let config = read_config(Some(&b"#cipherdir=/c\n # mountpoint=/m\n#-x".to_vec()));
    assert_eq!((config.cipherdir, config.mountpoint), (None, None));
    assert!(config.options.is_empty());
}

#[test]
fn last_configuration_line_counts() {
    let config = read_config(Some(&b"cipherdir=/a\ncipherdir=/b\n".to_vec()));
    assert_eq!(config.cipherdir.as_deref(), Some("/b"));
}

#[test]
fn default_paths() {
    let (cipher, mount, config) = build_default_paths(&alice(), None, None);
    assert_eq!(cipher, "/home/alice/.gocryptfs/gocryptfs");
    assert_eq!(mount, "/home/alice/Private");
    assert_eq!(config, "/home/alice/.gocryptfs");
    assert_eq!(file_in(&config, "auto-mount"), "/home/alice/.gocryptfs/auto-mount");
    assert_eq!(user_config_path(&alice()), "/home/alice/.gocryptfs/config");
}

#[test]
fn specified_paths() {
    let (cipher, mount, config) =
        build_default_paths(&alice(), Some("/home/%(USER)/.gocryptfs"), Some("~/Private"));
    assert_eq!(cipher, "/home/alice/.gocryptfs/gocryptfs");
    assert_eq!(mount, "/home/alice/Private");
    assert_eq!(config, "/home/alice/.gocryptfs");
}

#[test]
fn paths_end_at_a_null_character() {
    let (cipher, mount, config) = build_default_paths(&alice(), Some("/c\0x"), Some("/m\0y"));
    assert_eq!((cipher.as_str(), mount.as_str(), config.as_str()), ("/c", "/m", "/c"));
}

#[test]
fn configuration_goes_before_arguments_and_these_before_defaults() {
    let given = (Some("/arg/c".to_string()), Some("/arg/m".to_string()));
    let both = read_config(Some(&b"cipherdir=/cfg/c\nmountpoint=/cfg/m".to_vec()));
    let one = read_config(Some(&b"mountpoint=/cfg/m".to_vec()));
    let none = read_config(None);
    let p = user_paths(&alice(), &both, &given);
    assert_eq!((p.config_dir.as_str(), p.mountpoint.as_str()), ("/cfg/c", "/cfg/m"));
    let p = user_paths(&alice(), &one, &given);
    assert_eq!((p.config_dir.as_str(), p.mountpoint.as_str()), ("/arg/c", "/cfg/m"));
    let p = user_paths(&alice(), &none, &given);
    assert_eq!((p.config_dir.as_str(), p.mountpoint.as_str()), ("/arg/c", "/arg/m"));
    let p = user_paths(&alice(), &none, &(None, None));
    assert_eq!(p.config_dir, "/home/alice/.gocryptfs");
    assert_eq!(p.mountpoint, "/home/alice/Private");
}
