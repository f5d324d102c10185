//! Waiting for a helper process, but not forever.

use libc::{c_int, pid_t};
use vstd::prelude::*;

verus! {

/// The pause between two looks at a child process, in microseconds.
pub const POLL_INTERVAL_US: u32 = 50000;

/// How long a helper may take, in seconds. A helper that hangs must not block
/// the login.
pub const HELPER_TIMEOUT_SECS: u64 = 30;

/// What the waiting process does.
#[derive(Clone, Copy, Debug, PartialEq, Eq, Structural)]
pub enum WaitPhase {
    /// Looks at the child, without blocking.
    Poll,
    /// Pauses for the poll interval.
    Sleep,
    /// Kills the child, whose time is up.
    Kill,
    /// Takes the killed child off the process table.
    Reap,
    /// Nothing more: the child ended with this status.
    Exited(c_int),
    /// Nothing more: the child was lost or did not end in time.
    GaveUp,
}

/// How far the wait for a child process has come.
#[derive(Clone, Copy, Debug, PartialEq, Eq, Structural)]
pub struct WaitState {
    pub pid: pid_t,
    pub max_polls: u64,
    pub polls: u64,
    pub phase: WaitPhase,
}

/// The wait for a child process.
#[derive(Clone, Copy, Debug)]
pub struct Wait {
    state: WaitState,
}

/// What came of a step of the wait.
#[derive(Clone, Copy, Debug, PartialEq, Eq, Structural)]
pub enum WaitReply {
    /// What looking at the child returned, and the status it reported.
    Poll { rc: pid_t, status: c_int },
    /// The step is done.
    Done,
}

/// How many pauses fill a timeout.
pub open spec fn poll_limit(timeout_secs: u64) -> int {
    timeout_secs * 1000000 / POLL_INTERVAL_US as int
}

impl WaitState {
    /// A wait pauses no more often than its limit, and kills no child before.
    pub open spec fn wf(self) -> bool {
        &&& self.polls <= self.max_polls
        &&& self.phase == WaitPhase::Sleep ==> self.polls < self.max_polls
        &&& self.phase == WaitPhase::Kill || self.phase == WaitPhase::Reap ==> self.polls
            == self.max_polls
    }

    /// The wait for the child `pid` at its beginning, where it may take so many
    /// seconds.
    pub open spec fn begins(self, pid: pid_t, timeout_secs: u64) -> bool {
        &&& self.wf()
        &&& self.pid == pid
        &&& self.max_polls == poll_limit(timeout_secs)
        &&& self.polls == 0
        &&& self.phase == WaitPhase::Poll
    }
}

impl View for Wait {
    type V = WaitState;

    closed spec fn view(&self) -> WaitState {
        self.state
    }
}

impl Wait {
    #[verifier::type_invariant]
    spec fn inv(self) -> bool {
        self.state.wf()
    }

    /// The wait for the child `pid`, for so many seconds.
    pub fn new(pid: pid_t, timeout_secs: u64) -> (r: Wait)
        requires
            timeout_secs * 1000000 <= u64::MAX,
        ensures
            r@.begins(pid, timeout_secs),
    {
        let max_polls: u64 = (timeout_secs * 1000000) / (POLL_INTERVAL_US as u64);
        Wait { state: WaitState { pid, max_polls, polls: 0, phase: WaitPhase::Poll } }
    }

    /// How far the wait has come.
    pub fn state(&self) -> (r: WaitState)
        ensures
            r == self@,
            r.wf(),
    {
        proof {
            use_type_invariant(self);
        }
        self.state
    }
}

/// The wait for the helper process `pid`, for as long as a helper may take.
pub fn helper_wait(pid: pid_t) -> (r: Wait)
    ensures
        r@.begins(pid, HELPER_TIMEOUT_SECS),
{
    Wait::new(pid, HELPER_TIMEOUT_SECS)
}

/// The wait after a step. A reply to another step changes nothing.
pub open spec fn wait_next(wait: WaitState, reply: WaitReply) -> WaitState {
    match (wait.phase, reply) {
        (WaitPhase::Poll, WaitReply::Poll { rc, status }) => if rc == wait.pid {
            WaitState { phase: WaitPhase::Exited(status), ..wait }
        } else if rc < 0 {
            WaitState { phase: WaitPhase::GaveUp, ..wait }
        } else if wait.polls < wait.max_polls {
            WaitState { phase: WaitPhase::Sleep, ..wait }
        } else {
            WaitState { phase: WaitPhase::Kill, ..wait }
        },
        (WaitPhase::Sleep, WaitReply::Done) => WaitState {
            phase: WaitPhase::Poll,
            polls: (wait.polls + 1) as u64,
            ..wait
        },
        (WaitPhase::Kill, WaitReply::Done) => WaitState { phase: WaitPhase::Reap, ..wait },
        (WaitPhase::Reap, WaitReply::Done) => WaitState { phase: WaitPhase::GaveUp, ..wait },
        _ => wait,
    }
}

/// Takes a wait one step on.
pub fn wait_with_timeout(wait: Wait, reply: WaitReply) -> (r: Wait)
    ensures
        r@ == wait_next(wait@, reply),
{
    proof {
        use_type_invariant(&wait);
    }
    let WaitState { pid, max_polls, polls, phase } = wait.state;
    let state: WaitState = match (phase, reply) {
        (WaitPhase::Poll, WaitReply::Poll { rc, status }) => {
            let phase: WaitPhase = if rc == pid {
                WaitPhase::Exited(status)
            } else if rc < 0 {
                WaitPhase::GaveUp
            } else if polls >= max_polls {
                WaitPhase::Kill
            } else {
                WaitPhase::Sleep
            };
            WaitState { pid, max_polls, polls, phase }
        },
        (WaitPhase::Sleep, WaitReply::Done) => WaitState {
            pid,
            max_polls,
            polls: polls + 1,
            phase: WaitPhase::Poll,
        },
        (WaitPhase::Kill, WaitReply::Done) => WaitState {
            pid,
            max_polls,
            polls,
            phase: WaitPhase::Reap,
        },
        (WaitPhase::Reap, WaitReply::Done) => WaitState {
            pid,
            max_polls,
            polls,
            phase: WaitPhase::GaveUp,
        },
        _ => wait.state,
    };
    Wait { state }
}

/// How many steps a wait has left at most.
pub open spec fn steps_left(wait: WaitState) -> int {
    match wait.phase {
        WaitPhase::Poll => 2 * (wait.max_polls - wait.polls) + 3,
        WaitPhase::Sleep => 2 * (wait.max_polls - wait.polls) + 2,
        WaitPhase::Kill => 2,
        WaitPhase::Reap => 1,
        _ => 0,
    }
}

/// The wait after its next step, where looking at the child for the `n`th time
/// gives `looks(n)`.
pub open spec fn wait_step(wait: WaitState, looks: spec_fn(u64) -> (pid_t, c_int)) -> WaitState {
    match wait.phase {
        WaitPhase::Poll => {
            let (rc, status) = looks(wait.polls);
            wait_next(wait, WaitReply::Poll { rc, status })
        },
        _ => wait_next(wait, WaitReply::Done),
    }
}

/// The wait and all that follow it, up to its end.
pub open spec fn wait_course(
    wait: WaitState,
    looks: spec_fn(u64) -> (pid_t, c_int),
) -> Seq<WaitState>
    recommends
        wait.wf(),
    decreases steps_left(wait),
{
    if !wait.wf() || wait.phase is Exited || wait.phase == WaitPhase::GaveUp {
        seq![wait]
    } else {
        seq![wait] + wait_course(wait_step(wait, looks), looks)
    }
}

/// Whether a wait is in a phase at some time.
pub open spec fn wait_reaches(course: Seq<WaitState>, phase: WaitPhase) -> bool {
    exists|i: int| 0 <= i < course.len() && (#[trigger] course[i]).phase == phase
}

/// Whether looking at the child gives its status, or that it is lost.
pub open spec fn look_settles(pid: pid_t, look: (pid_t, c_int)) -> bool {
    look.0 == pid || look.0 < 0
}

/// What a wait comes to: its end, and what happens to the child on the way.
pub open spec fn wait_outcome(
    wait: WaitState,
    looks: spec_fn(u64) -> (pid_t, c_int),
    course: Seq<WaitState>,
) -> bool {
    let end = course.last();
    let (rc, status) = looks(end.polls);
    let settled = look_settles(wait.pid, looks(end.polls));
    &&& course.len() > 0 && end.polls <= wait.max_polls
    &&& end.phase == (if rc == wait.pid {
        WaitPhase::Exited(status)
    } else {
        WaitPhase::GaveUp
    })
    &&& forall|n: u64|
        wait.polls <= n < end.polls ==> !look_settles(wait.pid, #[trigger] looks(n))
    &&& settled || end.polls == wait.max_polls
    &&& wait_reaches(course, WaitPhase::Kill) <==> !settled
    &&& wait_reaches(course, WaitPhase::Reap) <==> !settled
}

/// The last steps of a wait, once a look settles it or its time is up.
proof fn lemma_last_steps(wait: WaitState, looks: spec_fn(u64) -> (pid_t, c_int))
    requires
        wait.wf(),
        wait.phase == WaitPhase::Poll,
        wait_step(wait, looks).phase != WaitPhase::Sleep,
    ensures
        wait_outcome(wait, looks, wait_course(wait, looks)),
{
    let course = wait_course(wait, looks);
    let next = wait_step(wait, looks);
    reveal_with_fuel(wait_course, 4);
    if look_settles(wait.pid, looks(wait.polls)) {
        assert(course =~= seq![wait, next]);
    } else {
        let reap = wait_step(next, looks);
        let end = wait_step(reap, looks);
        assert(course =~= seq![wait, next, reap, end]);
        assert(course[1].phase == WaitPhase::Kill);
        assert(course[2].phase == WaitPhase::Reap);
    }
}

/// Every wait ends, with the status of the child if it ended in time, and
/// otherwise by giving up, after no more pauses than fill the timeout. The child
/// is killed and taken off the process table if and only if no look settled the
/// wait.
pub proof fn law_wait_ends(wait: WaitState, looks: spec_fn(u64) -> (pid_t, c_int))
    requires
        wait.wf(),
        wait.phase == WaitPhase::Poll,
    ensures
        wait_outcome(wait, looks, wait_course(wait, looks)),
    decreases steps_left(wait),
{
    let next = wait_step(wait, looks);
    if next.phase == WaitPhase::Sleep {
        let again = wait_step(next, looks);
        law_wait_ends(again, looks);
        let rest = wait_course(again, looks);
        let course = wait_course(wait, looks);
        reveal_with_fuel(wait_course, 3);
        assert(course =~= seq![wait, next] + rest);
        assert(course.last() == rest.last());
        assert forall|i: int| 0 <= i < rest.len() implies #[trigger] course[i + 2] == rest[i] by {}
        assert forall|phase: WaitPhase|
            phase == WaitPhase::Kill || phase == WaitPhase::Reap implies wait_reaches(course, phase)
            == wait_reaches(rest, phase) by {
            if wait_reaches(course, phase) {
                let i = choose|i: int|
                    0 <= i < course.len() && (#[trigger] course[i]).phase == phase;
                assert(rest[i - 2] == course[i]);
            }
            if wait_reaches(rest, phase) {
                let i = choose|i: int| 0 <= i < rest.len() && (#[trigger] rest[i]).phase == phase;
                assert(course[i + 2] == rest[i]);
            }
        }
    } else {
        lemma_last_steps(wait, looks);
    }
}

/// The pauses of a wait take no longer than its timeout.
pub proof fn law_pauses_fit_timeout(timeout_secs: u64, polls: u64)
    requires
        polls <= poll_limit(timeout_secs),
    ensures
        polls * POLL_INTERVAL_US <= timeout_secs * 1000000,
{
}

/// A helper is waited for no longer than thirty seconds, whatever it does: the
/// wait ends, and its pauses take no longer than that.
pub proof fn law_helper_wait(
    wait: WaitState,
    pid: pid_t,
    looks: spec_fn(u64) -> (pid_t, c_int),
)
    requires
        wait.begins(pid, HELPER_TIMEOUT_SECS),
    ensures
        ({
            let end = wait_course(wait, looks).last();
            &&& end.phase is Exited || end.phase == WaitPhase::GaveUp
            &&& end.polls * POLL_INTERVAL_US <= 30 * 1000000
        }),
{
    law_wait_ends(wait, looks);
    law_pauses_fit_timeout(HELPER_TIMEOUT_SECS, wait_course(wait, looks).last().polls);
}

/// The limit of a wait is as many pauses as fit in its timeout: no more, and no
/// fewer.
pub proof fn law_poll_limit(timeout_secs: u64)
    ensures
        poll_limit(timeout_secs) * 50000 <= timeout_secs * 1000000,
        timeout_secs * 1000000 < (poll_limit(timeout_secs) + 1) * 50000,
        poll_limit(timeout_secs) == 20 * timeout_secs,
{
}

/// What a wait comes to, where looking at the child for the `n`th time returns
/// `looks(n)`. The child ended if that is its number, is lost if it is negative,
/// and runs otherwise. The first look that finds it not running ends the wait:
/// with the status, or by giving up. Where no look does, the wait has paused as
/// often as its limit allows, and then the child is killed and taken off the
/// process table.
pub proof fn law_wait_result(wait: WaitState, looks: spec_fn(u64) -> (pid_t, c_int))
    requires
        wait.wf(),
        wait.phase == WaitPhase::Poll,
    ensures
        ({
            let course = wait_course(wait, looks);
            let end = course.last();
            let (rc, status) = looks(end.polls);
            let over = rc == wait.pid || rc < 0;
            &&& course.len() > 0 && course[0] == wait
            &&& wait.polls <= end.polls <= wait.max_polls
            &&& forall|n: u64|
                wait.polls <= n < end.polls ==> (#[trigger] looks(n)).0 != wait.pid && looks(n).0
                    >= 0
            &&& !over ==> end.polls == wait.max_polls
            &&& rc == wait.pid ==> end.phase == WaitPhase::Exited(status)
            &&& rc != wait.pid ==> end.phase == WaitPhase::GaveUp
            &&& (exists|i: int| 0 <= i < course.len() && (#[trigger] course[i]).phase
                == WaitPhase::Kill) <==> !over
            &&& (exists|i: int| 0 <= i < course.len() && (#[trigger] course[i]).phase
                == WaitPhase::Reap) <==> !over
        }),
{
    law_wait_ends(wait, looks);
    let course = wait_course(wait, looks);
    lemma_polls_grow(wait, looks);
    let end = course.last();
    assert forall|n: u64| wait.polls <= n < end.polls implies (#[trigger] looks(n)).0 != wait.pid
        && looks(n).0 >= 0 by {
        assert(!look_settles(wait.pid, looks(n)));
    }
    assert(wait_reaches(course, WaitPhase::Kill) <==> !look_settles(wait.pid, looks(end.polls)));
    assert(wait_reaches(course, WaitPhase::Reap) <==> !look_settles(wait.pid, looks(end.polls)));
}

proof fn lemma_polls_grow(wait: WaitState, looks: spec_fn(u64) -> (pid_t, c_int))
    requires
        wait.wf(),
    ensures
        wait_course(wait, looks).len() > 0,
        wait_course(wait, looks)[0] == wait,
        wait.polls <= wait_course(wait, looks).last().polls,
    decreases steps_left(wait),
{
    if !(wait.phase is Exited || wait.phase == WaitPhase::GaveUp) {
        let next = wait_step(wait, looks);
        lemma_polls_grow(next, looks);
        let course = wait_course(wait, looks);
        assert(course =~= seq![wait] + wait_course(next, looks));
        assert(course.last() == wait_course(next, looks).last());
    }
}

/// A helper has thirty seconds: it is killed if and only if it still runs after
/// all six hundred pauses, and not before.
pub proof fn law_helper_has_its_time(
    wait: WaitState,
    pid: pid_t,
    looks: spec_fn(u64) -> (pid_t, c_int),
)
    requires
        wait.begins(pid, HELPER_TIMEOUT_SECS),
    ensures
        ({
            let course = wait_course(wait, looks);
            let killed = exists|i: int|
                0 <= i < course.len() && (#[trigger] course[i]).phase == WaitPhase::Kill;
            &&& wait.pid == pid && wait.polls == 0 && wait.max_polls == 600
            &&& killed <==> forall|n: u64|
                n <= 600 ==> (#[trigger] looks(n)).0 != pid && looks(n).0 >= 0
        }),
{
    law_wait_result(wait, looks);
    let course = wait_course(wait, looks);
    let end = course.last();
    let (rc, status) = looks(end.polls);
    if forall|n: u64| n <= 600 ==> (#[trigger] looks(n)).0 != pid && looks(n).0 >= 0 {
        assert(looks(end.polls).0 != pid && looks(end.polls).0 >= 0);
    }
    if !(rc == pid || rc < 0) {
        assert forall|n: u64| n <= 600 implies (#[trigger] looks(n)).0 != pid && looks(n).0
            >= 0 by {
            if n < end.polls {
                assert(wait.polls <= n);
            }
        }
    }
}

/// A wait begins with no pause behind it, and with as many before it as fit in
/// its timeout: twenty a second.
pub proof fn law_wait_begins(wait: WaitState, pid: pid_t, timeout_secs: u64)
    requires
        wait.begins(pid, timeout_secs),
    ensures
        wait.pid == pid,
        wait.polls == 0,
        wait.max_polls == 20 * timeout_secs,
        wait.phase == WaitPhase::Poll,
{
    law_poll_limit(timeout_secs);
}

} // verus!
