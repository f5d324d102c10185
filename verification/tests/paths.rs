use pam_gocryptfs::path::normalize_path;

#[test]
fn empty_path_stays_empty() {
    assert_eq!(normalize_path(""), "");
}

#[test]
fn normal_form_of_absolute_paths() {
    assert_eq!(normalize_path("/"), "/");
    assert_eq!(normalize_path("//"), "/");
    assert_eq!(normalize_path("/home/alice/Private"), "/home/alice/Private");
    assert_eq!(normalize_path("/home/alice/Private/"), "/home/alice/Private");
    assert_eq!(normalize_path("/home//alice/./Private"), "/home/alice/Private");
    assert_eq!(normalize_path("/a//b/./../c/"), "/a/c");
    assert_eq!(normalize_path("/.."), "/");
    assert_eq!(normalize_path("/../../a"), "/a");
    assert_eq!(normalize_path("/a/../.."), "/");
}

#[test]
fn normal_form_of_relative_paths() {
    assert_eq!(normalize_path("a/b"), "a/b");
    assert_eq!(normalize_path("./a/"), "a");
    assert_eq!(normalize_path("a/.."), "");
    assert_eq!(normalize_path(".."), "..");
    assert_eq!(normalize_path("../.."), "../..");
    assert_eq!(normalize_path("a/../../b"), "../b");
    assert_eq!(normalize_path("../a/../.."), "../..");
    assert_eq!(normalize_path("."), "");
}

#[test]
fn dots_in_names_are_names() {
    assert_eq!(normalize_path("/.../..a/b.."), "/.../..a/b..");
    assert_eq!(normalize_path("/a/.../.."), "/a");
}

#[test]
fn normal_form_is_stable() {
    for path in ["", "/", "a/../../b", "/a//b/./../c/", "../../x/", "/../é//ß"] {
        let once = normalize_path(path);
        assert_eq!(normalize_path(&once), once);
        assert_eq!(once.starts_with('/'), path.starts_with('/'));
    }
}

#[test]
fn slash_turns_the_empty_path_into_the_root() {
    assert_eq!(normalize_path(""), "");
    assert_eq!(normalize_path("/"), "/");
    assert_eq!(normalize_path("a/"), normalize_path("a"));
}
