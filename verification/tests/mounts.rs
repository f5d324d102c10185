use pam_gocryptfs::mounts::mounts_contains;

const TABLE: &str = "proc /proc proc rw,nosuid 0 0\n\
/home/alice/.gocryptfs/gocryptfs /home/alice/Private fuse.gocryptfs rw,nosuid 0 0\n\
/dev/sda1 /home/bob/Private ext4 rw 0 0\n\
crypt /home/carol/Private gocryptfs rw 0 0\r\n\
short /home/dave/Private\n";

#[test]
fn finds_both_types_of_gocryptfs() {
    assert!(mounts_contains(Some(TABLE), "/home/alice/Private"));
    assert!(mounts_contains(Some(TABLE), "/home/carol/Private"));
}

#[test]
fn spelling_of_the_mount_point_makes_no_difference() {
    assert!(mounts_contains(Some(TABLE), "/home/alice/Private/"));
    assert!(mounts_contains(Some(TABLE), "/home//alice/./x/../Private"));
    assert!(mounts_contains(Some("a /m/./n/ gocryptfs"), "/m/n"));
}

#[test]
fn other_file_systems_do_not_count() {
    assert!(!mounts_contains(Some(TABLE), "/home/bob/Private"));
    assert!(!mounts_contains(Some(TABLE), "/home/dave/Private"));
    assert!(!mounts_contains(Some(TABLE), "/home/alice"));
    assert!(!mounts_contains(Some("a /m fuse.gocryptfs2 rw"), "/m"));
}

#[test]
fn fields_are_separated_by_any_white_space() {
    assert!(mounts_contains(Some("  a\t/m\u{2003}gocryptfs\u{a0}rw"), "/m"));
    assert!(mounts_contains(Some("a /m gocryptfs"), "/m"));
    assert!(!mounts_contains(Some("a /m"), "/m"));
}

#[test]
fn nothing_is_mounted_without_a_table() {
    assert!(!mounts_contains(None, "/home/alice/Private"));
    assert!(!mounts_contains(Some(""), "/home/alice/Private"));
}
