//! Passphrases: where they come from, where they are kept between
//! authentication and session, and how they are handed to gocryptfs.

use libc::c_int;
use vstd::prelude::*;
use vstd::string::*;

use crate::notice::Notice;
use crate::outside::close_on_exec;
use crate::text::{lemma_split_concat, lemma_split_single, split};
use crate::user::PAM_SUCCESS;

verus! {

/// The code with which a module reports that memory ran out.
pub const PAM_BUF_ERR: c_int = 5;

/// The item of a transaction that holds the passphrase.
pub const PAM_AUTHTOK: c_int = 6;

/// The item of a transaction that holds the passphrase before a change.
pub const PAM_OLDAUTHTOK: c_int = 7;

/// The style of a prompt whose answer is not shown while it is typed.
pub const PAM_PROMPT_ECHO_OFF: c_int = 1;

/// The name under which a passphrase is kept in a transaction.
pub const UNIQUE_DATA_KEY: &'static str = "pam_gocryptfs.authtok";

/// Where the passphrase is looked for.
#[derive(Clone, Copy, Debug, PartialEq, Eq, Structural)]
pub enum AskPhase {
    /// In what the user has typed already.
    Item,
    /// In what the user types when asked.
    Prompt,
    /// Nowhere else: the user had typed it already.
    HaveItem,
    /// Nowhere else: the user typed it when asked.
    HavePrompt,
    /// Nowhere else: there is none.
    Nothing,
}

/// The phase that follows, where PAM returned `rc` and a passphrase of so many
/// bytes, if any. An empty passphrase is as good as none, unless it was asked
/// for.
pub open spec fn ask_next(phase: AskPhase, rc: c_int, length: Option<usize>) -> AskPhase {
    match phase {
        AskPhase::Item => if rc == PAM_SUCCESS && length is Some && length->0 > 0 {
            AskPhase::HaveItem
        } else {
            AskPhase::Prompt
        },
        AskPhase::Prompt => if rc == PAM_SUCCESS && length is Some {
            AskPhase::HavePrompt
        } else {
            AskPhase::Nothing
        },
        _ => phase,
    }
}

/// Takes the search for a passphrase one step on.
pub fn prompt_or_get_password(phase: AskPhase, rc: c_int, length: Option<usize>) -> (r: AskPhase)
    ensures
        r == ask_next(phase, rc, length),
{
    match phase {
        AskPhase::Item => match length {
            Some(n) => if rc == PAM_SUCCESS && n > 0 {
                AskPhase::HaveItem
            } else {
                AskPhase::Prompt
            },
            None => AskPhase::Prompt,
        },
        AskPhase::Prompt => if rc == PAM_SUCCESS && length.is_some() {
            AskPhase::HavePrompt
        } else {
            AskPhase::Nothing
        },
        _ => phase,
    }
}

/// What a step of the search is.
#[derive(Debug)]
pub enum AskRequest {
    /// Gets this item of the transaction.
    GetItem(c_int),
    /// Asks the user, in this style and with this text.
    Prompt { style: c_int, text: String },
    /// Ends, with what the last step brought if that is the passphrase.
    Finish { found: bool },
}

/// `request` is the step that the search in this phase takes.
pub open spec fn ask_asks(phase: AskPhase, request: AskRequest) -> bool {
    match (phase, request) {
        (AskPhase::Item, AskRequest::GetItem(item)) => item == PAM_AUTHTOK,
        (AskPhase::Prompt, AskRequest::Prompt { style, text }) => {
            &&& style == PAM_PROMPT_ECHO_OFF
            &&& text@ == "gocryptfs passphrase: "@
        },
        (
            AskPhase::HaveItem | AskPhase::HavePrompt | AskPhase::Nothing,
            AskRequest::Finish { found },
        ) => found == (phase != AskPhase::Nothing),
        _ => false,
    }
}

/// The step that the search in this phase takes.
pub fn ask_request(phase: AskPhase) -> (r: AskRequest)
    ensures
        ask_asks(phase, r),
{
    match phase {
        AskPhase::Item => AskRequest::GetItem(PAM_AUTHTOK),
        AskPhase::Prompt => AskRequest::Prompt {
            style: PAM_PROMPT_ECHO_OFF,
            text: "gocryptfs passphrase: ".to_owned(),
        },
        AskPhase::HaveItem => AskRequest::Finish { found: true },
        AskPhase::HavePrompt => AskRequest::Finish { found: true },
        AskPhase::Nothing => AskRequest::Finish { found: false },
    }
}

/// How far storing a passphrase has come.
#[derive(Clone, Copy, Debug, PartialEq, Eq, Structural)]
pub enum StorePhase {
    /// The passphrase is copied.
    Copy,
    /// The copy is handed to PAM.
    Keep,
    /// The copy, which PAM refused with this code, is wiped and given back.
    Wipe(c_int),
    /// Nothing more: what storing it came to.
    Done(c_int),
}

/// What came of a step.
#[derive(Clone, Copy, Debug, PartialEq, Eq, Structural)]
pub enum StoreReply {
    /// Whether there is a copy.
    Copy(bool),
    /// What PAM returned.
    Keep(c_int),
    /// The copy is wiped.
    Wiped,
}

/// The phase that follows. A reply to another phase changes nothing.
pub open spec fn store_next(phase: StorePhase, reply: StoreReply) -> StorePhase {
    match (phase, reply) {
        (StorePhase::Copy, StoreReply::Copy(copied)) => if copied {
            StorePhase::Keep
        } else {
            StorePhase::Done(PAM_BUF_ERR)
        },
        (StorePhase::Keep, StoreReply::Keep(rc)) => if rc == PAM_SUCCESS {
            StorePhase::Done(PAM_SUCCESS)
        } else {
            StorePhase::Wipe(rc)
        },
        (StorePhase::Wipe(rc), StoreReply::Wiped) => StorePhase::Done(rc),
        _ => phase,
    }
}

/// Takes storing a passphrase one step on. A copy that PAM does not keep is
/// wiped.
pub fn store_password(phase: StorePhase, reply: StoreReply) -> (r: (StorePhase, Option<Notice>))
    ensures
        r.0 == store_next(phase, reply),
        r.1 == (if phase == StorePhase::Copy && reply == StoreReply::Copy(false) {
            Some(Notice::OutOfMemory)
        } else {
            None
        }),
{
    match (phase, reply) {
        (StorePhase::Copy, StoreReply::Copy(copied)) => {
            if copied {
                (StorePhase::Keep, None)
            } else {
                (StorePhase::Done(PAM_BUF_ERR), Some(Notice::OutOfMemory))
            }
        },
        (StorePhase::Keep, StoreReply::Keep(rc)) => {
            if rc != PAM_SUCCESS {
                (StorePhase::Wipe(rc), None)
            } else {
                (StorePhase::Done(rc), None)
            }
        },
        (StorePhase::Wipe(rc), StoreReply::Wiped) => (StorePhase::Done(rc), None),
        _ => (phase, None),
    }
}

/// What becomes of data that PAM kept and gives up.
#[derive(Clone, Copy, Debug, PartialEq, Eq, Structural)]
pub enum Cleanup {
    /// Nothing.
    Leave,
    /// It is overwritten and its memory given back.
    Wipe,
}

/// What a step of storing a passphrase is.
#[derive(Debug)]
pub enum StoreRequest {
    /// Copies the passphrase.
    Copy,
    /// Hands the copy to PAM under a name, with what becomes of it in the end.
    Keep { key: String, cleanup: Cleanup },
    /// Overwrites the copy and gives its memory back.
    Wipe,
    /// Ends with this code.
    Finish(c_int),
}

/// `request` is the step that storing in this phase takes.
pub open spec fn store_asks(phase: StorePhase, request: StoreRequest) -> bool {
    match (phase, request) {
        (StorePhase::Copy, StoreRequest::Copy) => true,
        (StorePhase::Keep, StoreRequest::Keep { key, cleanup }) => {
            &&& key@ == UNIQUE_DATA_KEY@
            &&& cleanup == Cleanup::Wipe
        },
        (StorePhase::Wipe(_), StoreRequest::Wipe) => true,
        (StorePhase::Done(rc), StoreRequest::Finish(code)) => code == rc,
        _ => false,
    }
}

/// The step that storing in this phase takes.
pub fn store_request(phase: StorePhase) -> (r: StoreRequest)
    ensures
        store_asks(phase, r),
{
    match phase {
        StorePhase::Copy => StoreRequest::Copy,
        StorePhase::Keep => StoreRequest::Keep {
            key: UNIQUE_DATA_KEY.to_owned(),
            cleanup: Cleanup::Wipe,
        },
        StorePhase::Wipe(_) => StoreRequest::Wipe,
        StorePhase::Done(rc) => StoreRequest::Finish(rc),
    }
}

/// A passphrase as gocryptfs reads it from a file: a line.
pub open spec fn pass_line(pass: Seq<u8>) -> Seq<u8> {
    pass.push(0x0a)
}

/// What gocryptfs reads when it changes a passphrase: the old one, and the new
/// one twice, each on a line.
pub open spec fn change_lines(old_pass: Seq<u8>, new_pass: Seq<u8>) -> Seq<u8> {
    pass_line(old_pass) + pass_line(new_pass) + pass_line(new_pass)
}

/// Adds a passphrase to a buffer, as a line.
fn push_line(buf: &mut Vec<u8>, pass: &[u8])
    ensures
        final(buf)@ == old(buf)@ + pass_line(pass@),
{
    buf.extend_from_slice(pass);
    buf.push(0x0a);
    assert(buf@ =~= old(buf)@ + pass_line(pass@));
}

/// The line that hands over a passphrase.
pub fn pass_file(pass: &[u8]) -> (r: Vec<u8>)
    requires
        pass@.len() < usize::MAX,
    ensures
        r@ == pass_line(pass@),
{
    let mut buf: Vec<u8> = Vec::with_capacity(pass.len() + 1);
    push_line(&mut buf, pass);
    assert(buf@ =~= pass_line(pass@));
    buf
}

/// The lines that hand over the old and the new passphrase.
pub fn change_file(old_pass: &[u8], new_pass: &[u8]) -> (r: Vec<u8>)
    requires
        old_pass@.len() + 2 * new_pass@.len() + 3 <= usize::MAX,
    ensures
        r@ == change_lines(old_pass@, new_pass@),
{
    let mut buf: Vec<u8> = Vec::with_capacity(old_pass.len() + new_pass.len() * 2 + 3);
    push_line(&mut buf, old_pass);
    push_line(&mut buf, new_pass);
    push_line(&mut buf, new_pass);
    assert(buf@ =~= change_lines(old_pass@, new_pass@));
    buf
}

/// Whether a write of `length` bytes that returned `wrote` wrote them all.
pub open spec fn wrote_all(wrote: isize, length: nat) -> bool {
    wrote == length
}

/// How far the pipe that hands over a passphrase has come.
#[derive(Clone, Copy, Debug, PartialEq, Eq, Structural)]
pub enum PipePhase {
    /// A pipe is made whose ends close on exec.
    Pipe2,
    /// A plain pipe is made.
    Pipe,
    /// The flags of the read end are asked for.
    ReadFlags,
    /// The flags of the read end are set.
    SetReadFlags(c_int),
    /// The flags of the write end are asked for.
    WriteFlags,
    /// The flags of the write end are set.
    SetWriteFlags(c_int),
    /// The passphrase is written.
    Write,
    /// The read end is closed again.
    CloseRead,
    /// The write end is closed again.
    CloseWrite,
    /// Nothing more: the passphrase waits in the pipe.
    Ready,
    /// Nothing more: there is no pipe.
    Failed,
}

/// What came of a step.
#[derive(Clone, Copy, Debug, PartialEq, Eq, Structural)]
pub enum PipeReply {
    /// What a call returned.
    Code(c_int),
    /// How many bytes were written, or that none could be.
    Written(isize),
}

/// The phase that follows, where `length` bytes are to be written. A pipe that
/// does not close on exec by itself has this set for each end whose flags are
/// known. A reply to another phase changes nothing.
pub open spec fn pipe_next(phase: PipePhase, reply: PipeReply, length: nat) -> PipePhase {
    match (phase, reply) {
        (PipePhase::Pipe2, PipeReply::Code(rc)) => if rc == 0 {
            PipePhase::Write
        } else {
            PipePhase::Pipe
        },
        (PipePhase::Pipe, PipeReply::Code(rc)) => if rc == 0 {
            PipePhase::ReadFlags
        } else {
            PipePhase::Failed
        },
        (PipePhase::ReadFlags, PipeReply::Code(flags)) => if flags >= 0 {
            PipePhase::SetReadFlags(flags | 1)
        } else {
            PipePhase::WriteFlags
        },
        (PipePhase::SetReadFlags(_), PipeReply::Code(_)) => PipePhase::WriteFlags,
        (PipePhase::WriteFlags, PipeReply::Code(flags)) => if flags >= 0 {
            PipePhase::SetWriteFlags(flags | 1)
        } else {
            PipePhase::Write
        },
        (PipePhase::SetWriteFlags(_), PipeReply::Code(_)) => PipePhase::Write,
        (PipePhase::Write, PipeReply::Written(wrote)) => if wrote_all(wrote, length) {
            PipePhase::Ready
        } else {
            PipePhase::CloseRead
        },
        (PipePhase::CloseRead, PipeReply::Code(_)) => PipePhase::CloseWrite,
        (PipePhase::CloseWrite, PipeReply::Code(_)) => PipePhase::Failed,
        _ => phase,
    }
}

/// Takes the pipe that hands over the passphrase `pass` one step on. It is ready
/// once the whole line was written.
pub fn create_pass_pipe_with_data(phase: PipePhase, reply: PipeReply, pass: &[u8]) -> (r:
    PipePhase)
    ensures
        r == pipe_next(phase, reply, pass_line(pass@).len()),
{
    match (phase, reply) {
        (PipePhase::Pipe2, PipeReply::Code(rc)) => {
            if rc == 0 {
                PipePhase::Write
            } else {
                PipePhase::Pipe
            }
        },
        (PipePhase::Pipe, PipeReply::Code(rc)) => {
            if rc != 0 {
                PipePhase::Failed
            } else {
                PipePhase::ReadFlags
            }
        },
        (PipePhase::ReadFlags, PipeReply::Code(flags)) => {
            if flags >= 0 {
                PipePhase::SetReadFlags(flags | close_on_exec())
            } else {
                PipePhase::WriteFlags
            }
        },
        (PipePhase::SetReadFlags(_), PipeReply::Code(_)) => PipePhase::WriteFlags,
        (PipePhase::WriteFlags, PipeReply::Code(flags)) => {
            if flags >= 0 {
                PipePhase::SetWriteFlags(flags | close_on_exec())
            } else {
                PipePhase::Write
            }
        },
        (PipePhase::SetWriteFlags(_), PipeReply::Code(_)) => PipePhase::Write,
        (PipePhase::Write, PipeReply::Written(wrote)) => {
            if wrote > 0 && wrote as usize - 1 == pass.len() {
                PipePhase::Ready
            } else {
                PipePhase::CloseRead
            }
        },
        (PipePhase::CloseRead, PipeReply::Code(_)) => PipePhase::CloseWrite,
        (PipePhase::CloseWrite, PipeReply::Code(_)) => PipePhase::Failed,
        _ => phase,
    }
}

/// What a step of the pipe is.
#[derive(Debug)]
pub enum PipeRequest {
    /// Makes a pipe whose ends close on exec.
    MakePipe2,
    /// Makes a plain pipe.
    MakePipe,
    /// Asks for the flags of this end.
    GetFlags(c_int),
    /// Gives this end these flags.
    SetFlags(c_int, c_int),
    /// Writes these bytes to this end.
    Write(c_int, Vec<u8>),
    /// Closes this end.
    Close(c_int),
    /// Ends, with the pipe or without one.
    Finish { ready: bool },
}

/// `request` is the step that a pipe for `pass` with these ends takes in this
/// phase.
pub open spec fn pipe_asks(
    phase: PipePhase,
    read_fd: c_int,
    write_fd: c_int,
    pass: Seq<u8>,
    request: PipeRequest,
) -> bool {
    match (phase, request) {
        (PipePhase::Pipe2, PipeRequest::MakePipe2) => true,
        (PipePhase::Pipe, PipeRequest::MakePipe) => true,
        (PipePhase::ReadFlags, PipeRequest::GetFlags(fd)) => fd == read_fd,
        (PipePhase::SetReadFlags(flags), PipeRequest::SetFlags(fd, f)) => fd == read_fd && f
            == flags,
        (PipePhase::WriteFlags, PipeRequest::GetFlags(fd)) => fd == write_fd,
        (PipePhase::SetWriteFlags(flags), PipeRequest::SetFlags(fd, f)) => fd == write_fd && f
            == flags,
        (PipePhase::Write, PipeRequest::Write(fd, line)) => fd == write_fd && line@ == pass_line(
            pass,
        ),
        (PipePhase::CloseRead, PipeRequest::Close(fd)) => fd == read_fd,
        (PipePhase::CloseWrite, PipeRequest::Close(fd)) => fd == write_fd,
        (PipePhase::Ready, PipeRequest::Finish { ready }) => ready,
        (PipePhase::Failed, PipeRequest::Finish { ready }) => !ready,
        _ => false,
    }
}

/// The step that a pipe for `pass` with these ends takes in this phase.
pub fn pipe_request(phase: PipePhase, read_fd: c_int, write_fd: c_int, pass: &[u8]) -> (r:
    PipeRequest)
    requires
        pass@.len() < usize::MAX,
    ensures
        pipe_asks(phase, read_fd, write_fd, pass@, r),
{
    match phase {
        PipePhase::Pipe2 => PipeRequest::MakePipe2,
        PipePhase::Pipe => PipeRequest::MakePipe,
        PipePhase::ReadFlags => PipeRequest::GetFlags(read_fd),
        PipePhase::SetReadFlags(flags) => PipeRequest::SetFlags(read_fd, flags),
        PipePhase::WriteFlags => PipeRequest::GetFlags(write_fd),
        PipePhase::SetWriteFlags(flags) => PipeRequest::SetFlags(write_fd, flags),
        PipePhase::Write => PipeRequest::Write(write_fd, pass_file(pass)),
        PipePhase::CloseRead => PipeRequest::Close(read_fd),
        PipePhase::CloseWrite => PipeRequest::Close(write_fd),
        PipePhase::Ready => PipeRequest::Finish { ready: true },
        PipePhase::Failed => PipeRequest::Finish { ready: false },
    }
}

/// A passphrase that is handed over is read back as it was, provided that it
/// has no line break.
pub proof fn law_pass_line_reads_back(pass: Seq<u8>)
    requires
        !pass.contains(0x0a),
    ensures
        split(pass_line(pass), 0x0au8) == seq![pass, Seq::empty()],
{
    let empty = Seq::<u8>::empty();
    assert(pass_line(pass) =~= pass.push(0x0a) + empty);
    lemma_split_concat(pass, 0x0au8, empty);
    lemma_split_single(pass, 0x0au8);
    lemma_split_single(empty, 0x0au8);
    assert(seq![pass] + seq![empty] =~= seq![pass, empty]);
}

/// The old passphrase, the new one and the new one again are read back on
/// three lines, provided that neither has a line break.
pub proof fn law_change_lines_read_back(old_pass: Seq<u8>, new_pass: Seq<u8>)
    requires
        !old_pass.contains(0x0a),
        !new_pass.contains(0x0a),
    ensures
        split(change_lines(old_pass, new_pass), 0x0au8) == seq![
            old_pass,
            new_pass,
            new_pass,
            Seq::empty(),
        ],
{
    let last = pass_line(new_pass);
    let rest = new_pass.push(0x0a) + last;
    law_pass_line_reads_back(new_pass);
    lemma_split_single(old_pass, 0x0au8);
    lemma_split_single(new_pass, 0x0au8);
    lemma_split_concat(new_pass, 0x0au8, last);
    lemma_split_concat(old_pass, 0x0au8, rest);
    assert(change_lines(old_pass, new_pass) =~= old_pass.push(0x0a) + rest);
    assert(split(change_lines(old_pass, new_pass), 0x0au8) =~= seq![
        old_pass,
        new_pass,
        new_pass,
        Seq::empty(),
    ]);
}

/// The user is asked if and only if there is no passphrase yet, or an empty
/// one. There is none in the end if and only if asking brought none either.
pub proof fn law_ask(
    item_rc: c_int,
    item: Option<usize>,
    prompt_rc: c_int,
    prompt: Option<usize>,
)
    ensures
        ({
            let first = ask_next(AskPhase::Item, item_rc, item);
            let last = ask_next(first, prompt_rc, prompt);
            let typed = item_rc == PAM_SUCCESS && item is Some && item->0 > 0;
            let answered = prompt_rc == PAM_SUCCESS && prompt is Some;
            &&& first == AskPhase::Prompt <==> !typed
            &&& last == AskPhase::HaveItem <==> typed
            &&& last == AskPhase::HavePrompt <==> !typed && answered
            &&& last == AskPhase::Nothing <==> !typed && !answered
        }),
{
}

/// A copy of a passphrase is either kept by PAM or wiped, and storing reports
/// success if and only if PAM keeps it.
pub proof fn law_store(copied: bool, rc: c_int)
    ensures
        ({
            let first = store_next(StorePhase::Copy, StoreReply::Copy(copied));
            let second = store_next(first, StoreReply::Keep(rc));
            let last = store_next(second, StoreReply::Wiped);
            &&& last == StorePhase::Done(
                if copied {
                    rc
                } else {
                    PAM_BUF_ERR
                },
            )
            &&& second == StorePhase::Wipe(rc) <==> copied && rc != PAM_SUCCESS
        }),
{
}

/// What a step of the pipe is answered, where calls return what `codes` says
/// and the write returns `wrote`.
pub open spec fn pipe_answer(
    phase: PipePhase,
    codes: spec_fn(PipePhase) -> c_int,
    wrote: isize,
) -> PipeReply {
    if phase == PipePhase::Write {
        PipeReply::Written(wrote)
    } else {
        PipeReply::Code(codes(phase))
    }
}

/// How many steps the pipe has left at most.
pub open spec fn pipe_steps_left(phase: PipePhase) -> nat {
    match phase {
        PipePhase::Pipe2 => 9,
        PipePhase::Pipe => 8,
        PipePhase::ReadFlags => 7,
        PipePhase::SetReadFlags(_) => 6,
        PipePhase::WriteFlags => 5,
        PipePhase::SetWriteFlags(_) => 4,
        PipePhase::Write => 3,
        PipePhase::CloseRead => 2,
        PipePhase::CloseWrite => 1,
        _ => 0,
    }
}

/// Whether the pipe passes through `target` from `phase` on.
pub open spec fn pipe_passes(
    phase: PipePhase,
    target: PipePhase,
    codes: spec_fn(PipePhase) -> c_int,
    wrote: isize,
    length: nat,
) -> bool
    decreases pipe_steps_left(phase),
{
    ||| phase == target
    ||| pipe_steps_left(phase) > 0 && pipe_passes(
        pipe_next(phase, pipe_answer(phase, codes, wrote), length),
        target,
        codes,
        wrote,
        length,
    )
}

/// The pipe is ready if and only if it could be made and took the whole
/// passphrase. A pipe that did not is closed at both ends. An end whose flags
/// are known closes on exec.
pub proof fn law_pipe(codes: spec_fn(PipePhase) -> c_int, wrote: isize, length: nat)
    ensures
        ({
            let passes = |target: PipePhase|
                pipe_passes(PipePhase::Pipe2, target, codes, wrote, length);
            let fallback = codes(PipePhase::Pipe2) != 0 && codes(PipePhase::Pipe) == 0;
            let made = codes(PipePhase::Pipe2) == 0 || fallback;
            let read_flags = codes(PipePhase::ReadFlags);
            let write_flags = codes(PipePhase::WriteFlags);
            &&& passes(PipePhase::Ready) <==> made && wrote_all(wrote, length)
            &&& passes(PipePhase::Failed) <==> !passes(PipePhase::Ready)
            &&& passes(PipePhase::CloseRead) <==> made && !wrote_all(wrote, length)
            &&& passes(PipePhase::CloseWrite) <==> made && !wrote_all(wrote, length)
            &&& fallback && read_flags >= 0 ==> passes(PipePhase::SetReadFlags(read_flags | 1))
            &&& fallback && write_flags >= 0 ==> passes(PipePhase::SetWriteFlags(write_flags | 1))
        }),
{
    reveal_with_fuel(pipe_passes, 10);
}

/// A passphrase is handed over whole, whatever its bytes are, and a line break
/// behind it is all that is added.
pub proof fn law_pass_line(pass: Seq<u8>)
    ensures
        pass_line(pass) == pass + seq![0x0au8],
{
    assert(pass_line(pass) =~= pass + seq![0x0au8]);
}

/// For a change the old passphrase is handed over first and then the new one
/// twice, each of them whole and with a line break behind it.
pub proof fn law_change_lines(old_pass: Seq<u8>, new_pass: Seq<u8>)
    ensures
        change_lines(old_pass, new_pass) == old_pass + seq![0x0au8] + new_pass + seq![0x0au8]
            + new_pass + seq![0x0au8],
{
    assert(change_lines(old_pass, new_pass) =~= old_pass + seq![0x0au8] + new_pass + seq![0x0au8]
        + new_pass + seq![0x0au8]);
}

/// A write wrote all if and only if it returned just as many bytes as it was
/// given.
pub proof fn law_wrote_all(wrote: isize, length: nat)
    ensures
        wrote_all(wrote, length) <==> wrote == length,
{
}

/// The passphrase that the user has typed is got from the transaction, and the
/// user is asked for it without showing what they type.
pub proof fn law_ask_requests(phase: AskPhase, request: AskRequest)
    requires
        ask_asks(phase, request),
    ensures
        phase == AskPhase::Item <==> request is GetItem,
        phase == AskPhase::Prompt <==> request is Prompt,
        request matches AskRequest::GetItem(item) ==> item == 6,
        request matches AskRequest::Prompt { style, text } ==> style == 1 && text@
            == "gocryptfs passphrase: "@,
        request matches AskRequest::Finish { found } ==> (found <==> phase == AskPhase::HaveItem
            || phase == AskPhase::HavePrompt),
{
}

/// Which passphrase is used: what was typed already, if PAM hands it out and it
/// is not empty, and else what the user answers, even if that is empty.
pub proof fn law_ask_outcome(
    item_rc: c_int,
    item: Option<usize>,
    prompt_rc: c_int,
    prompt: Option<usize>,
)
    ensures
        ({
            let first = ask_next(AskPhase::Item, item_rc, item);
            let last = ask_next(first, prompt_rc, prompt);
            &&& item_rc == 0 && (item matches Some(n) && n > 0) ==> first == AskPhase::HaveItem
                && last == AskPhase::HaveItem
            &&& !(item_rc == 0 && (item matches Some(n) && n > 0)) ==> first == AskPhase::Prompt
            &&& first == AskPhase::Prompt && prompt_rc == 0 && prompt is Some ==> last
                == AskPhase::HavePrompt
            &&& first == AskPhase::Prompt && !(prompt_rc == 0 && prompt is Some) ==> last
                == AskPhase::Nothing
        }),
{
}

/// A passphrase is kept under the name of the module, to be wiped in the end.
/// Where PAM refuses the copy it is wiped at once. Storing ends with the code of
/// PAM, or with that for a lack of memory.
pub proof fn law_store_requests(phase: StorePhase, request: StoreRequest)
    requires
        store_asks(phase, request),
    ensures
        phase == StorePhase::Copy <==> request is Copy,
        phase == StorePhase::Keep <==> request is Keep,
        phase is Wipe <==> request is Wipe,
        request matches StoreRequest::Keep { key, cleanup } ==> key@ == "pam_gocryptfs.authtok"@
            && cleanup == Cleanup::Wipe,
        phase matches StorePhase::Done(rc) ==> request == StoreRequest::Finish(rc),
{
}

/// What storing comes to, reply by reply.
pub proof fn law_store_outcome(copied: bool, rc: c_int)
    ensures
        store_next(StorePhase::Copy, StoreReply::Copy(copied)) == if copied {
            StorePhase::Keep
        } else {
            StorePhase::Done(5)
        },
        store_next(StorePhase::Keep, StoreReply::Keep(rc)) == if rc == 0 {
            StorePhase::Done(0)
        } else {
            StorePhase::Wipe(rc)
        },
        store_next(StorePhase::Wipe(rc), StoreReply::Wiped) == StorePhase::Done(rc),
{
}

/// What the steps of the pipe work on: the flags that were read of an end are
/// set on that end, the line with the passphrase goes into the write end, and
/// both ends are closed if it did not fit.
pub proof fn law_pipe_requests(
    phase: PipePhase,
    read_fd: c_int,
    write_fd: c_int,
    pass: Seq<u8>,
    request: PipeRequest,
)
    requires
        pipe_asks(phase, read_fd, write_fd, pass, request),
    ensures
        phase == PipePhase::Pipe2 <==> request is MakePipe2,
        phase == PipePhase::Pipe <==> request is MakePipe,
        phase == PipePhase::ReadFlags ==> request == PipeRequest::GetFlags(read_fd),
        phase matches PipePhase::SetReadFlags(flags) ==> request == PipeRequest::SetFlags(
            read_fd,
            flags,
        ),
        phase == PipePhase::WriteFlags ==> request == PipeRequest::GetFlags(write_fd),
        phase matches PipePhase::SetWriteFlags(flags) ==> request == PipeRequest::SetFlags(
            write_fd,
            flags,
        ),
        phase == PipePhase::Write <==> request is Write,
        request matches PipeRequest::Write(fd, line) ==> fd == write_fd && line@ == pass
            + seq![0x0au8],
        phase == PipePhase::CloseRead ==> request == PipeRequest::Close(read_fd),
        phase == PipePhase::CloseWrite ==> request == PipeRequest::Close(write_fd),
        request matches PipeRequest::Finish { ready } ==> (ready <==> phase == PipePhase::Ready),
{
    law_pass_line(pass);
}

/// A pipe is ready if and only if it could be made and a write returned the
/// length of the line. The flags of an end gain the one that closes it on exec,
/// and lose none.
pub proof fn law_pipe_outcome(
    codes: spec_fn(PipePhase) -> c_int,
    wrote: isize,
    pass: Seq<u8>,
    flags: c_int,
)
    ensures
        ({
            let length = pass_line(pass).len();
            let made = codes(PipePhase::Pipe2) == 0 || codes(PipePhase::Pipe) == 0;
            &&& pipe_passes(PipePhase::Pipe2, PipePhase::Ready, codes, wrote, length) <==> made
                && wrote == pass.len() + 1
            &&& pipe_passes(PipePhase::Pipe2, PipePhase::CloseRead, codes, wrote, length) <==> made
                && wrote != pass.len() + 1
            &&& pipe_passes(PipePhase::Pipe2, PipePhase::CloseWrite, codes, wrote, length)
                <==> made && wrote != pass.len() + 1
            &&& pipe_passes(PipePhase::Pipe2, PipePhase::Write, codes, wrote, length) <==> made
        }),
        flags >= 0 ==> pipe_next(PipePhase::ReadFlags, PipeReply::Code(flags), pass.len())
            == PipePhase::SetReadFlags(flags | 1),
        flags >= 0 ==> pipe_next(PipePhase::WriteFlags, PipeReply::Code(flags), pass.len())
            == PipePhase::SetWriteFlags(flags | 1),
        flags | 1 == flags || flags | 1 == flags + 1,
{
    reveal_with_fuel(pipe_passes, 10);
    assert(flags | 1 == flags || flags | 1 == flags + 1) by (bit_vector);
}

} // verus!
