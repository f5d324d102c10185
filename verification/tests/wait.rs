use pam_gocryptfs::wait::{
    helper_wait, wait_with_timeout, Wait, WaitPhase, WaitReply, POLL_INTERVAL_US,
};

fn poll(rc: i32, status: i32) -> WaitReply {
    WaitReply::Poll { rc, status }
}

#[test]
fn thirty_seconds_are_six_hundred_pauses() {
    let w = helper_wait(77).state();
    assert_eq!((w.pid, w.max_polls, w.polls, w.phase), (77, 600, 0, WaitPhase::Poll));
    assert_eq!(Wait::new(77, 30).state(), w);
    assert_eq!(Wait::new(77, 0).state().max_polls, 0);
}

#[test]
fn child_that_ended() {
    let w = wait_with_timeout(Wait::new(77, 30), poll(77, 256));
    assert_eq!(w.state().phase, WaitPhase::Exited(256));
}

#[test]
fn child_that_was_lost() {
    let w = wait_with_timeout(Wait::new(77, 30), poll(-1, 0));
    assert_eq!(w.state().phase, WaitPhase::GaveUp);
}

#[test]
fn child_that_takes_its_time() {
    let w = wait_with_timeout(Wait::new(77, 30), poll(0, 0));
    assert_eq!((w.state().phase, w.state().polls), (WaitPhase::Sleep, 0));
    let w = wait_with_timeout(w, WaitReply::Done);
    assert_eq!((w.state().phase, w.state().polls), (WaitPhase::Poll, 1));
}

#[test]
fn child_that_hangs_is_killed_in_time() {
    let mut w = helper_wait(77);
    let (mut pauses, mut looks, mut kills, mut reaps) = (0u64, 0u64, 0, 0);
    while w.state().phase != WaitPhase::GaveUp {
        let reply = match w.state().phase {
            WaitPhase::Poll => {
                looks += 1;
                poll(0, 0)
            }
            WaitPhase::Sleep => {
                pauses += 1;
                WaitReply::Done
            }
            WaitPhase::Kill => {
                kills += 1;
                WaitReply::Done
            }
            _ => {
                reaps += 1;
                WaitReply::Done
            }
        };
        w = wait_with_timeout(w, reply);
    }
    assert_eq!((pauses, looks, kills, reaps), (600, 601, 1, 1));
    assert!(pauses * POLL_INTERVAL_US as u64 <= 30_000_000);
}

#[test]
fn reply_to_another_step_of_the_wait_changes_nothing() {
    let w = Wait::new(77, 30);
    assert_eq!(wait_with_timeout(w, WaitReply::Done).state(), w.state());
}

#[test]
fn child_that_ends_at_the_last_look_is_spared() {
    let mut w = Wait::new(77, 0);
    w = wait_with_timeout(w, poll(77, 9));
    assert_eq!(w.state().phase, WaitPhase::Exited(9));
    let mut w = Wait::new(77, 0);
    w = wait_with_timeout(w, poll(0, 0));
    assert_eq!(w.state().phase, WaitPhase::Kill);
}
