use pam_gocryptfs::notice::Notice;
use pam_gocryptfs::password::{
    ask_request, change_file, create_pass_pipe_with_data, pass_file, pipe_request,
    prompt_or_get_password, store_password, store_request, AskPhase, AskRequest, Cleanup,
    PipePhase, PipeReply, PipeRequest, StorePhase, StoreReply, StoreRequest,
};

#[test]
fn typed_passphrase_is_taken() {
    assert_eq!(prompt_or_get_password(AskPhase::Item, 0, Some(3)), AskPhase::HaveItem);
}

#[test]
fn user_is_asked_without_a_passphrase() {
    assert_eq!(prompt_or_get_password(AskPhase::Item, 0, Some(0)), AskPhase::Prompt);
    assert_eq!(prompt_or_get_password(AskPhase::Item, 0, None), AskPhase::Prompt);
    assert_eq!(prompt_or_get_password(AskPhase::Item, 1, Some(3)), AskPhase::Prompt);
}

#[test]
fn answer_of_the_user() {
    assert_eq!(prompt_or_get_password(AskPhase::Prompt, 0, Some(3)), AskPhase::HavePrompt);
    assert_eq!(prompt_or_get_password(AskPhase::Prompt, 0, Some(0)), AskPhase::HavePrompt);
    assert_eq!(prompt_or_get_password(AskPhase::Prompt, 0, None), AskPhase::Nothing);
    assert_eq!(prompt_or_get_password(AskPhase::Prompt, 19, Some(3)), AskPhase::Nothing);
    assert_eq!(prompt_or_get_password(AskPhase::Nothing, 0, Some(3)), AskPhase::Nothing);
}

#[test]
fn steps_of_asking() {
    assert!(matches!(ask_request(AskPhase::Item), AskRequest::GetItem(6)));
    assert!(matches!(ask_request(AskPhase::Prompt),
        AskRequest::Prompt { style: 1, text } if text == "gocryptfs passphrase: "));
    assert!(matches!(ask_request(AskPhase::HaveItem), AskRequest::Finish { found: true }));
    assert!(matches!(ask_request(AskPhase::HavePrompt), AskRequest::Finish { found: true }));
    assert!(matches!(ask_request(AskPhase::Nothing), AskRequest::Finish { found: false }));
}

#[test]
fn steps_of_storing() {
    assert!(matches!(store_request(StorePhase::Copy), StoreRequest::Copy));
    assert!(matches!(store_request(StorePhase::Keep),
        StoreRequest::Keep { key, cleanup: Cleanup::Wipe } if key == "pam_gocryptfs.authtok"));
    assert!(matches!(store_request(StorePhase::Wipe(4)), StoreRequest::Wipe));
    assert!(matches!(store_request(StorePhase::Done(4)), StoreRequest::Finish(4)));
}

#[test]
fn storing_a_passphrase() {
    let keep = store_password(StorePhase::Copy, StoreReply::Copy(true));
    assert_eq!(keep, (StorePhase::Keep, None));
    let done = store_password(StorePhase::Keep, StoreReply::Keep(0));
    assert_eq!(done, (StorePhase::Done(0), None));
}

#[test]
fn refused_copy_is_wiped() {
    let wipe = store_password(StorePhase::Keep, StoreReply::Keep(4));
    assert_eq!(wipe, (StorePhase::Wipe(4), None));
    let done = store_password(StorePhase::Wipe(4), StoreReply::Wiped);
    assert_eq!(done, (StorePhase::Done(4), None));
}

#[test]
fn no_memory_for_a_copy() {
    let done = store_password(StorePhase::Copy, StoreReply::Copy(false));
    assert_eq!(done, (StorePhase::Done(5), Some(Notice::OutOfMemory)));
}

#[test]
fn passphrase_on_a_line() {
    assert_eq!(pass_file(b"s3cret"), b"s3cret\n");
    assert_eq!(pass_file(b""), b"\n");
    let line = pass_file(b"a b");
    let parts: Vec<&[u8]> = line.split(|b| *b == b'\n').collect();
    assert_eq!(parts, [b"a b".as_slice(), b"".as_slice()]);
}

#[test]
fn passphrases_of_a_change() {
    assert_eq!(change_file(b"old", b"new"), b"old\nnew\nnew\n");
    assert_eq!(change_file(b"", b"n"), b"\nn\nn\n");
}

fn pipe(phase: PipePhase, code: i32) -> PipePhase {
    create_pass_pipe_with_data(phase, PipeReply::Code(code), b"s3cret")
}

fn wrote(n: isize) -> PipePhase {
    create_pass_pipe_with_data(PipePhase::Write, PipeReply::Written(n), b"s3cret")
}

#[test]
fn pipe_that_closes_on_exec_is_preferred() {
    assert_eq!(pipe(PipePhase::Pipe2, 0), PipePhase::Write);
    assert_eq!(pipe(PipePhase::Pipe2, -1), PipePhase::Pipe);
    assert_eq!(pipe(PipePhase::Pipe, -1), PipePhase::Failed);
    assert_eq!(pipe(PipePhase::Pipe, 0), PipePhase::ReadFlags);
}

#[test]
fn plain_pipe_is_made_to_close_on_exec() {
    let flags = 8 | libc::FD_CLOEXEC;
    assert_eq!(pipe(PipePhase::ReadFlags, 8), PipePhase::SetReadFlags(flags));
    assert_eq!(pipe(PipePhase::ReadFlags, -1), PipePhase::WriteFlags);
    assert_eq!(pipe(PipePhase::SetReadFlags(flags), -1), PipePhase::WriteFlags);
    assert_eq!(pipe(PipePhase::WriteFlags, 8), PipePhase::SetWriteFlags(flags));
    assert_eq!(pipe(PipePhase::WriteFlags, -1), PipePhase::Write);
    assert_eq!(pipe(PipePhase::SetWriteFlags(flags), 0), PipePhase::Write);
}

#[test]
fn short_write_closes_the_pipe() {
    assert_eq!(wrote(7), PipePhase::Ready);
    for n in [-1, 0, 6, 8] {
        assert_eq!(wrote(n), PipePhase::CloseRead);
    }
    assert_eq!(pipe(PipePhase::CloseRead, 0), PipePhase::CloseWrite);
    assert_eq!(pipe(PipePhase::CloseWrite, -1), PipePhase::Failed);
}

#[test]
fn steps_of_the_pipe() {
    let step = |phase| pipe_request(phase, 5, 6, b"s3cret");
    assert!(matches!(step(PipePhase::Pipe2), PipeRequest::MakePipe2));
    assert!(matches!(step(PipePhase::Pipe), PipeRequest::MakePipe));
    assert!(matches!(step(PipePhase::ReadFlags), PipeRequest::GetFlags(5)));
    assert!(matches!(step(PipePhase::SetReadFlags(9)), PipeRequest::SetFlags(5, 9)));
    assert!(matches!(step(PipePhase::WriteFlags), PipeRequest::GetFlags(6)));
    assert!(matches!(step(PipePhase::SetWriteFlags(9)), PipeRequest::SetFlags(6, 9)));
    assert!(matches!(step(PipePhase::Write), PipeRequest::Write(6, line) if line == b"s3cret\n"));
    assert!(matches!(step(PipePhase::CloseRead), PipeRequest::Close(5)));
    assert!(matches!(step(PipePhase::CloseWrite), PipeRequest::Close(6)));
    assert!(matches!(step(PipePhase::Ready), PipeRequest::Finish { ready: true }));
    assert!(matches!(step(PipePhase::Failed), PipeRequest::Finish { ready: false }));
}

#[test]
fn empty_passphrase_is_a_line_too() {
    let wrote = |n| create_pass_pipe_with_data(PipePhase::Write, PipeReply::Written(n), b"");
    assert_eq!(wrote(1), PipePhase::Ready);
    assert_eq!(wrote(0), PipePhase::CloseRead);
}
