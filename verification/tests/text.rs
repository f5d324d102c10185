use pam_gocryptfs::text::{cstr, is_whitespace};

#[test]
fn white_space_is_that_of_unicode() {
    for n in 0..=0x10ffffu32 {
        if let Some(c) = char::from_u32(n) {
            assert_eq!(is_whitespace(c), c.is_whitespace(), "{:x}", n);
        }
    }
}

#[test]
fn c_strings_end_at_the_first_null() {
    assert_eq!(cstr(""), "");
    assert_eq!(cstr("abc"), "abc");
    assert_eq!(cstr("ab\0c\0d"), "ab");
    assert_eq!(cstr("\0abc"), "");
    assert_eq!(cstr("héé\0"), "héé");
}
