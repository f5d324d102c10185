use pam_gocryptfs::notice::{Notice, Severity};

#[test]
fn priorities_are_those_of_the_system_log() {
    assert_eq!(Severity::Error.priority(), libc::LOG_ERR);
    assert_eq!(Severity::Warning.priority(), libc::LOG_WARNING);
    assert_eq!(Severity::Debug.priority(), libc::LOG_DEBUG);
}

#[test]
fn messages_of_the_manual() {
    assert_eq!(Notice::AutoMountOff.text(), "pam_gocryptfs: auto-mount not enabled, skipping");
    assert_eq!(
        Notice::NoConfToMount.text(),
        "pam_gocryptfs: No gocryptfs.conf found in cipherdir; skipping mount"
    );
    assert_eq!(
        Notice::NoPassphrase.text(),
        "pam_gocryptfs: no passphrase available; skipping mount"
    );
    assert_eq!(Notice::MountDropFailed.text(), "pam_gocryptfs: failed to drop privileges");
}

#[test]
fn messages_with_a_return_code() {
    assert_eq!(Notice::UserError(10).text(), "pam_gocryptfs: Error getting user; rc = [10]\n");
    assert_eq!(
        Notice::OldPassphraseError(-1).text(),
        "pam_gocryptfs: Error retrieving old passphrase; rc = [-1]\n"
    );
    assert_eq!(
        Notice::NewPassphraseError(i32::MIN).text(),
        "pam_gocryptfs: Error retrieving new passphrase; rc = [-2147483648]\n"
    );
}

#[test]
fn severities() {
    assert_eq!(Notice::AutoMountOff.severity(), Severity::Debug);
    assert_eq!(Notice::NotMounted.severity(), Severity::Debug);
    assert_eq!(Notice::MountTimedOut.severity(), Severity::Warning);
    assert_eq!(Notice::NoPassphrase.severity(), Severity::Warning);
    assert_eq!(Notice::UserError(1).severity(), Severity::Error);
    assert_eq!(Notice::OutOfMemory.severity(), Severity::Error);
    assert_eq!(Notice::StdinWriteFailed.severity(), Severity::Error);
}
