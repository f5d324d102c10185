//! What the module reports to the system log.

use libc::c_int;
use vstd::prelude::*;
use vstd::string::*;

use crate::outside::{log_debug, log_err, log_warning};
use crate::text::{signed_decimal, to_signed_decimal};

verus! {

/// How serious a notice is.
#[derive(Clone, Copy, Debug, PartialEq, Eq, Structural)]
pub enum Severity {
    Error,
    Warning,
    Debug,
}

impl Severity {
    /// The number the system log knows the severity by.
    pub open spec fn number(self) -> c_int {
        match self {
            Severity::Error => 3,
            Severity::Warning => 4,
            Severity::Debug => 7,
        }
    }

    /// The priority to log with.
    pub fn priority(self) -> (r: c_int)
        ensures
            r == self.number(),
    {
        match self {
            Severity::Error => log_err(),
            Severity::Warning => log_warning(),
            Severity::Debug => log_debug(),
        }
    }
}

/// A report to the system log.
#[derive(Clone, Copy, Debug, PartialEq, Eq, Structural)]
pub enum Notice {
    /// PAM could not name the user; the code it returned.
    UserError(c_int),
    /// The password database has no entry for the user, or could not be read.
    LookupFailed,
    /// The passphrase could not be copied.
    OutOfMemory,
    /// The user has not opted in to mounting.
    AutoMountOff,
    /// The file system is mounted already.
    AlreadyMounted,
    /// There is no passphrase, and none was typed.
    NoPassphrase,
    /// Mounting could not go on as the user.
    MountDropFailed,
    /// Authentication left no passphrase for the session.
    NothingStored,
    /// The user has not opted in to unmounting.
    AutoUmountOff,
    /// There is nothing to unmount.
    NotMounted,
    /// Unmounting could not go on as the user.
    UmountDropFailed,
    /// PAM could not hand out the old passphrase; the code it returned.
    OldPassphraseError(c_int),
    /// The preliminary check found no old passphrase.
    OldPassphraseMissing,
    /// PAM could not hand out the new passphrase; the code it returned.
    NewPassphraseError(c_int),
    /// A passphrase that the change needs is missing.
    PassphraseMissing,
    /// There is no file system whose passphrase could change.
    NoConfToChange,
    /// There is no pipe to hand the passphrases over.
    StdinPipeFailed,
    /// The change could not go on as the user.
    ChangeDropFailed,
    /// There is no process to change the passphrase in.
    ChangeForkFailed,
    /// The passphrases were not all handed over.
    StdinWriteFailed,
    /// There is no file system to mount.
    NoConfToMount,
    /// There is no directory to mount at.
    MountPointFailed,
    /// There is no pipe to hand the passphrase over.
    PassPipeFailed,
    /// There is no process to mount in.
    MountForkFailed,
    /// The mounting helper reported a failure.
    MountFailed,
    /// The mounting helper did not end in time, or was lost.
    MountTimedOut,
    /// There is no process to unmount in.
    UnmountForkFailed,
    /// The unmounting helper did not succeed.
    UnmountFailed,
}

/// A message that ends in a return code.
pub open spec fn with_code(text: Seq<char>, rc: c_int) -> Seq<char> {
    text + crate::text::signed_decimal(rc as int) + "]\n"@
}

impl Notice {
    /// The message.
    pub open spec fn message(self) -> Seq<char> {
        match self {
            Notice::UserError(rc) => with_code("pam_gocryptfs: Error getting user; rc = ["@, rc),
            Notice::LookupFailed => "pam_gocryptfs: getpwnam() failed\n"@,
            Notice::OutOfMemory => "pam_gocryptfs: strdup failed (out of memory)"@,
            Notice::AutoMountOff => "pam_gocryptfs: auto-mount not enabled, skipping"@,
            Notice::AlreadyMounted => "pam_gocryptfs: mountpoint already mounted, skipping"@,
            Notice::NoPassphrase => "pam_gocryptfs: no passphrase available; skipping mount"@,
            Notice::MountDropFailed => "pam_gocryptfs: failed to drop privileges"@,
            Notice::NothingStored => "pam_gocryptfs: unable to retrieve passphrase; skipping mount"@,
            Notice::AutoUmountOff => "pam_gocryptfs: auto-umount not enabled, skipping"@,
            Notice::NotMounted => "pam_gocryptfs: not mounted, skipping umount"@,
            Notice::UmountDropFailed => "pam_gocryptfs: failed to drop privileges (umount)"@,
            Notice::OldPassphraseError(rc) => with_code("pam_gocryptfs: Error retrieving old passphrase; rc = ["@, rc),
            Notice::OldPassphraseMissing => "pam_gocryptfs: PRELIM_CHECK: old password is missing"@,
            Notice::NewPassphraseError(rc) => with_code("pam_gocryptfs: Error retrieving new passphrase; rc = ["@, rc),
            Notice::PassphraseMissing => "pam_gocryptfs: at least one passphrase is NULL/empty; skipping password change"@,
            Notice::NoConfToChange => "pam_gocryptfs: No gocryptfs.conf found in cipherdir; skipping password change"@,
            Notice::StdinPipeFailed => "pam_gocryptfs: Failed to create stdin pipe"@,
            Notice::ChangeDropFailed => "pam_gocryptfs: failed to drop privileges for password change"@,
            Notice::ChangeForkFailed => "pam_gocryptfs: fork() failed for password change"@,
            Notice::StdinWriteFailed => "pam_gocryptfs: Failed to write new password to stdin"@,
            Notice::NoConfToMount => "pam_gocryptfs: No gocryptfs.conf found in cipherdir; skipping mount"@,
            Notice::MountPointFailed => "pam_gocryptfs: Failed to create mountpoint directory"@,
            Notice::PassPipeFailed => "pam_gocryptfs: Failed to create pass pipe"@,
            Notice::MountForkFailed => "pam_gocryptfs: fork() failed"@,
            Notice::MountFailed => "pam_gocryptfs: gocryptfs mount failed"@,
            Notice::MountTimedOut => "pam_gocryptfs: gocryptfs mount timed out or failed"@,
            Notice::UnmountForkFailed => "pam_gocryptfs: fork() failed (unmount)"@,
            Notice::UnmountFailed => "pam_gocryptfs: unmount failed"@,
        }
    }

    /// How serious it is.
    pub open spec fn level(self) -> Severity {
        match self {
            Notice::NoPassphrase
            | Notice::NothingStored
            | Notice::OldPassphraseMissing
            | Notice::PassphraseMissing
            | Notice::NoConfToChange
            | Notice::NoConfToMount
            | Notice::MountFailed
            | Notice::MountTimedOut
            | Notice::UnmountFailed => Severity::Warning,
            Notice::AutoMountOff
            | Notice::AlreadyMounted
            | Notice::AutoUmountOff
            | Notice::NotMounted => Severity::Debug,
            _ => Severity::Error,
        }
    }

    /// How serious the notice is.
    pub fn severity(self) -> (r: Severity)
        ensures
            r == self.level(),
    {
        match self {
            Notice::NoPassphrase
            | Notice::NothingStored
            | Notice::OldPassphraseMissing
            | Notice::PassphraseMissing
            | Notice::NoConfToChange
            | Notice::NoConfToMount
            | Notice::MountFailed
            | Notice::MountTimedOut
            | Notice::UnmountFailed => Severity::Warning,
            Notice::AutoMountOff
            | Notice::AlreadyMounted
            | Notice::AutoUmountOff
            | Notice::NotMounted => Severity::Debug,
            _ => Severity::Error,
        }
    }

    /// The message to log.
    pub fn text(self) -> (r: String)
        ensures
            r@ == self.message(),
    {
        let fixed: &str = match self {
            Notice::UserError(rc) => {
                return code_text("pam_gocryptfs: Error getting user; rc = [", rc);
            },
            Notice::LookupFailed => "pam_gocryptfs: getpwnam() failed\n",
            Notice::OutOfMemory => "pam_gocryptfs: strdup failed (out of memory)",
            Notice::AutoMountOff => "pam_gocryptfs: auto-mount not enabled, skipping",
            Notice::AlreadyMounted => "pam_gocryptfs: mountpoint already mounted, skipping",
            Notice::NoPassphrase => "pam_gocryptfs: no passphrase available; skipping mount",
            Notice::MountDropFailed => "pam_gocryptfs: failed to drop privileges",
            Notice::NothingStored => "pam_gocryptfs: unable to retrieve passphrase; skipping mount",
            Notice::AutoUmountOff => "pam_gocryptfs: auto-umount not enabled, skipping",
            Notice::NotMounted => "pam_gocryptfs: not mounted, skipping umount",
            Notice::UmountDropFailed => "pam_gocryptfs: failed to drop privileges (umount)",
            Notice::OldPassphraseError(rc) => {
                return code_text("pam_gocryptfs: Error retrieving old passphrase; rc = [", rc);
            },
            Notice::OldPassphraseMissing => "pam_gocryptfs: PRELIM_CHECK: old password is missing",
            Notice::NewPassphraseError(rc) => {
                return code_text("pam_gocryptfs: Error retrieving new passphrase; rc = [", rc);
            },
            Notice::PassphraseMissing => "pam_gocryptfs: at least one passphrase is NULL/empty; skipping password change",
            Notice::NoConfToChange => "pam_gocryptfs: No gocryptfs.conf found in cipherdir; skipping password change",
            Notice::StdinPipeFailed => "pam_gocryptfs: Failed to create stdin pipe",
            Notice::ChangeDropFailed => "pam_gocryptfs: failed to drop privileges for password change",
            Notice::ChangeForkFailed => "pam_gocryptfs: fork() failed for password change",
            Notice::StdinWriteFailed => "pam_gocryptfs: Failed to write new password to stdin",
            Notice::NoConfToMount => "pam_gocryptfs: No gocryptfs.conf found in cipherdir; skipping mount",
            Notice::MountPointFailed => "pam_gocryptfs: Failed to create mountpoint directory",
            Notice::PassPipeFailed => "pam_gocryptfs: Failed to create pass pipe",
            Notice::MountForkFailed => "pam_gocryptfs: fork() failed",
            Notice::MountFailed => "pam_gocryptfs: gocryptfs mount failed",
            Notice::MountTimedOut => "pam_gocryptfs: gocryptfs mount timed out or failed",
            Notice::UnmountForkFailed => "pam_gocryptfs: fork() failed (unmount)",
            Notice::UnmountFailed => "pam_gocryptfs: unmount failed",
        };
        fixed.to_owned()
    }
}

/// A message that ends in a return code.
fn code_text(text: &str, rc: c_int) -> (r: String)
    ensures
        r@ == with_code(text@, rc),
{
    let mut r = text.to_owned();
    let number = to_signed_decimal(rc);
    r.append(number.as_str());
    r.append("]\n");
    r
}

/// What the log says of each event that needs no number.
pub proof fn law_messages()
    ensures
        Notice::LookupFailed.message() == "pam_gocryptfs: getpwnam() failed\n"@,
        Notice::OutOfMemory.message() == "pam_gocryptfs: strdup failed (out of memory)"@,
        Notice::AutoMountOff.message() == "pam_gocryptfs: auto-mount not enabled, skipping"@,
        Notice::AlreadyMounted.message() == "pam_gocryptfs: mountpoint already mounted, skipping"@,
        Notice::NoPassphrase.message() == "pam_gocryptfs: no passphrase available; skipping mount"@,
        Notice::MountDropFailed.message() == "pam_gocryptfs: failed to drop privileges"@,
        Notice::NothingStored.message() == "pam_gocryptfs: unable to retrieve passphrase; skipping mount"@,
        Notice::AutoUmountOff.message() == "pam_gocryptfs: auto-umount not enabled, skipping"@,
        Notice::NotMounted.message() == "pam_gocryptfs: not mounted, skipping umount"@,
        Notice::UmountDropFailed.message() == "pam_gocryptfs: failed to drop privileges (umount)"@,
        Notice::OldPassphraseMissing.message() == "pam_gocryptfs: PRELIM_CHECK: old password is missing"@,
        Notice::PassphraseMissing.message() == "pam_gocryptfs: at least one passphrase is NULL/empty; skipping password change"@,
        Notice::NoConfToChange.message() == "pam_gocryptfs: No gocryptfs.conf found in cipherdir; skipping password change"@,
        Notice::StdinPipeFailed.message() == "pam_gocryptfs: Failed to create stdin pipe"@,
        Notice::ChangeDropFailed.message() == "pam_gocryptfs: failed to drop privileges for password change"@,
        Notice::ChangeForkFailed.message() == "pam_gocryptfs: fork() failed for password change"@,
        Notice::StdinWriteFailed.message() == "pam_gocryptfs: Failed to write new password to stdin"@,
        Notice::NoConfToMount.message() == "pam_gocryptfs: No gocryptfs.conf found in cipherdir; skipping mount"@,
        Notice::MountPointFailed.message() == "pam_gocryptfs: Failed to create mountpoint directory"@,
        Notice::PassPipeFailed.message() == "pam_gocryptfs: Failed to create pass pipe"@,
        Notice::MountForkFailed.message() == "pam_gocryptfs: fork() failed"@,
        Notice::MountFailed.message() == "pam_gocryptfs: gocryptfs mount failed"@,
        Notice::MountTimedOut.message() == "pam_gocryptfs: gocryptfs mount timed out or failed"@,
        Notice::UnmountForkFailed.message() == "pam_gocryptfs: fork() failed (unmount)"@,
        Notice::UnmountFailed.message() == "pam_gocryptfs: unmount failed"@,
{
}

/// What the log says of a code that PAM returned: the code is in the message, in
/// decimal.
pub proof fn law_messages_with_code(rc: c_int)
    ensures
        Notice::UserError(rc).message() == "pam_gocryptfs: Error getting user; rc = ["@ + signed_decimal(rc as int)
            + "]\n"@,
        Notice::OldPassphraseError(rc).message() == "pam_gocryptfs: Error retrieving old passphrase; rc = ["@ + signed_decimal(rc as int)
            + "]\n"@,
        Notice::NewPassphraseError(rc).message() == "pam_gocryptfs: Error retrieving new passphrase; rc = ["@ + signed_decimal(rc as int)
            + "]\n"@,
{
}

/// What goes wrong on its own is an error, what leaves the user without their
/// file system a warning, and what the user asked for by not opting in, or has
/// already, is for debugging. Errors come before warnings in the system log, and
/// these before the rest.
pub proof fn law_severity(notice: Notice)
    ensures
        notice.level() == Severity::Debug <==> notice == Notice::AutoMountOff || notice
            == Notice::AlreadyMounted || notice == Notice::AutoUmountOff || notice
            == Notice::NotMounted,
        notice.level() == Severity::Warning <==> notice == Notice::NoPassphrase || notice
            == Notice::NothingStored || notice == Notice::OldPassphraseMissing || notice
            == Notice::PassphraseMissing || notice == Notice::NoConfToChange || notice
            == Notice::NoConfToMount || notice == Notice::MountFailed || notice
            == Notice::MountTimedOut || notice == Notice::UnmountFailed,
        Severity::Error.number() == 3,
        Severity::Warning.number() == 4,
        Severity::Debug.number() == 7,
{
}

} // verus!
