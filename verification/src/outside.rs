//! Everything the library takes on trust: values of `libc`, and the few
//! functions of the standard library that have no specification in `vstd`.

use libc::{c_int, mode_t};
use vstd::prelude::*;
use vstd::utf8::{decode_utf8, valid_utf8};

verus! {

/// The text that `String::from_utf8_lossy` makes of bytes. The replacement
/// characters it puts in place of malformed sequences are not spelled out.
pub uninterp spec fn lossy_text(bytes: Seq<u8>) -> Seq<char>;

/// `String::from_utf8_lossy`: the same bytes always give the same text, and
/// well-formed UTF-8 gives the text it encodes.
#[verifier::external_body]
pub(crate) fn to_string_lossy(bytes: &[u8]) -> (text: String)
    ensures
        text@ == lossy_text(bytes@),
        valid_utf8(bytes@) ==> text@ == decode_utf8(bytes@),
{
    String::from_utf8_lossy(bytes).into_owned()
}

/// `core::str::from_utf8`: text exactly where the bytes are well-formed UTF-8,
/// and then the text they encode.
#[verifier::external_body]
pub(crate) fn from_utf8(bytes: &[u8]) -> (text: Option<&str>)
    ensures
        text is Some <==> valid_utf8(bytes@),
        text matches Some(t) ==> t@ == decode_utf8(bytes@),
{
    match core::str::from_utf8(bytes) {
        Ok(text) => Some(text),
        Err(_) => None,
    }
}

/// `String::push`: the character goes to the end of the text.
pub assume_specification[ String::push ](text: &mut String, c: char)
    ensures
        final(text)@ == old(text)@.push(c),
;

/// `libc::ERANGE`, the error code of a result that does not fit its buffer, as
/// Linux numbers it.
#[verifier::external_body]
pub(crate) fn erange() -> (code: c_int)
    ensures
        code == 34,
{
    libc::ERANGE
}

/// `libc::S_IFMT`, the bits of a file mode that hold the type of the file.
#[verifier::external_body]
pub(crate) fn file_type_mask() -> (bits: mode_t)
    ensures
        bits == 0o170000,
{
    libc::S_IFMT
}

/// `libc::S_IFDIR`, the file type of a directory.
#[verifier::external_body]
pub(crate) fn directory_type() -> (bits: mode_t)
    ensures
        bits == 0o040000,
{
    libc::S_IFDIR
}

/// `libc::FD_CLOEXEC`, the descriptor flag that closes a descriptor on exec.
#[verifier::external_body]
pub(crate) fn close_on_exec() -> (flag: c_int)
    ensures
        flag == 1,
{
    libc::FD_CLOEXEC
}

/// `libc::LOG_ERR`, the priority of an error in the system log.
#[verifier::external_body]
pub(crate) fn log_err() -> (priority: c_int)
    ensures
        priority == 3,
{
    libc::LOG_ERR
}

/// `libc::LOG_WARNING`, the priority of a warning in the system log.
#[verifier::external_body]
pub(crate) fn log_warning() -> (priority: c_int)
    ensures
        priority == 4,
{
    libc::LOG_WARNING
}

/// `libc::LOG_DEBUG`, the priority of a debugging note in the system log.
#[verifier::external_body]
pub(crate) fn log_debug() -> (priority: c_int)
    ensures
        priority == 7,
{
    libc::LOG_DEBUG
}

} // verus!
