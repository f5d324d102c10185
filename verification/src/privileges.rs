//! Acting as the user: dropping privileges, taking them back, and becoming the
//! user for good in a child process.

use libc::{c_int, gid_t, uid_t};
use vstd::prelude::*;

use crate::user::PasswordInfo;

verus! {

/// How many groups to make room for where the system has no limit.
pub const DEFAULT_GROUPS: usize = 64;

/// A call that changes what the process may do.
#[derive(Clone, Copy, Debug, PartialEq, Eq, Structural)]
pub enum CredCall {
    /// Sets the effective user.
    SetEuid(uid_t),
    /// Sets the effective group.
    SetEgid(gid_t),
    /// Makes this the only supplementary group.
    OnlyGroup(gid_t),
    /// Sets the supplementary groups that were recorded.
    RecordedGroups,
    /// Sets the real, the effective and the saved group.
    SetGid(gid_t),
    /// Sets the real, the effective and the saved user.
    SetResUid(uid_t),
    /// Empties the environment.
    ClearEnv,
}

/// Whether a call that returned `rc` failed.
pub open spec fn call_failed(call: CredCall, rc: c_int) -> bool {
    match call {
        CredCall::ClearEnv => rc != 0,
        _ => rc < 0,
    }
}

/// What follows a call in a list of calls that must all succeed.
#[derive(Clone, Copy, Debug, PartialEq, Eq, Structural)]
pub enum PlanStep {
    /// The call at this position.
    Next(usize),
    /// Nothing: all calls succeeded.
    Succeeded,
    /// Nothing: a call failed.
    Failed,
}

/// What follows the call at `index`, which returned `rc`.
pub open spec fn plan_next(calls: Seq<CredCall>, index: usize, rc: c_int) -> PlanStep {
    if index >= calls.len() || call_failed(calls[index as int], rc) {
        PlanStep::Failed
    } else if index + 1 == calls.len() {
        PlanStep::Succeeded
    } else {
        PlanStep::Next((index + 1) as usize)
    }
}

/// Decides what follows the call at `index`, which returned `rc`, in a list of
/// calls that must all succeed.
pub fn plan_step(calls: &Vec<CredCall>, index: usize, rc: c_int) -> (r: PlanStep)
    ensures
        r == plan_next(calls@, index, rc),
{
    if index >= calls.len() {
        return PlanStep::Failed;
    }
    let failed: bool = match calls[index] {
        CredCall::ClearEnv => rc != 0,
        _ => rc < 0,
    };
    if failed {
        PlanStep::Failed
    } else if index + 1 == calls.len() {
        PlanStep::Succeeded
    } else {
        PlanStep::Next(index + 1)
    }
}

/// The privileges of the process, recorded to take them back later. A process
/// may have no supplementary groups at all, which is not the same as groups that
/// could not be found out: `known` tells the two apart.
#[derive(Debug)]
pub struct Privileges {
    pub oeuid: uid_t,
    pub oegid: gid_t,
    pub groups: Vec<gid_t>,
    pub known: bool,
}

/// How many groups to make room for.
pub open spec fn group_room(ngroups_max: isize) -> int {
    if ngroups_max > 0 {
        ngroups_max + 1
    } else {
        DEFAULT_GROUPS as int
    }
}

/// How many groups to make room for, given the limit that the system reports,
/// which is not positive where there is none.
pub fn max_groups(ngroups_max: isize) -> (r: usize)
    ensures
        r == group_room(ngroups_max),
{
    if ngroups_max > 0 {
        (ngroups_max as usize) + 1
    } else {
        DEFAULT_GROUPS
    }
}

/// The groups that were filled in, of which the system reported `ngids`. Where
/// it reported a failure there are none.
pub open spec fn reported_groups(groups: Seq<gid_t>, ngids: c_int) -> Seq<gid_t> {
    if ngids < 0 {
        Seq::empty()
    } else if ngids <= groups.len() {
        groups.take(ngids as int)
    } else {
        groups
    }
}

/// The calls that drop privileges to a user.
pub open spec fn drop_calls(uid: uid_t, gid: gid_t) -> Seq<CredCall> {
    seq![CredCall::SetEgid(gid), CredCall::OnlyGroup(gid), CredCall::SetEuid(uid)]
}

/// The calls by which a child process becomes the user for good. The user is
/// changed last, because the user may not change the groups.
pub open spec fn impersonate_calls(pwd: PasswordInfo, oeuid: uid_t) -> Seq<CredCall> {
    seq![
        CredCall::SetEuid(oeuid),
        CredCall::ClearEnv,
        CredCall::OnlyGroup(pwd.gid),
        CredCall::SetGid(pwd.gid),
        CredCall::SetResUid(pwd.uid),
    ]
}

impl Privileges {
    /// Records privileges, given the room for groups as the system filled it in
    /// and the number of groups that it reported.
    pub fn new(oeuid: uid_t, oegid: gid_t, groups: Vec<gid_t>, ngids: c_int) -> (r: Privileges)
        ensures
            r.oeuid == oeuid,
            r.oegid == oegid,
            r.groups@ == reported_groups(groups@, ngids),
            r.known == (ngids >= 0),
    {
        let mut groups = groups;
        if ngids < 0 {
            groups.clear();
        } else {
            groups.truncate(ngids as usize);
        }
        Privileges { oeuid, oegid, groups, known: ngids >= 0 }
    }

    /// The calls that drop privileges to a user. The first one that fails is
    /// the last one made.
    pub fn drop_privileges(&self, uid: uid_t, gid: gid_t) -> (r: Vec<CredCall>)
        ensures
            r@ == drop_calls(uid, gid),
    {
        let mut r: Vec<CredCall> = Vec::new();
        r.push(CredCall::SetEgid(gid));
        r.push(CredCall::OnlyGroup(gid));
        r.push(CredCall::SetEuid(uid));
        assert(r@ =~= drop_calls(uid, gid));
        r
    }

    /// The calls that take the recorded privileges back. Groups that could not be
    /// found out are left alone.
    pub open spec fn restore_calls(self) -> Seq<CredCall> {
        if self.known {
            seq![
                CredCall::SetEuid(self.oeuid),
                CredCall::SetEgid(self.oegid),
                CredCall::RecordedGroups,
            ]
        } else {
            seq![CredCall::SetEuid(self.oeuid), CredCall::SetEgid(self.oegid)]
        }
    }

    /// The calls that take the recorded privileges back. All of them are made,
    /// whether or not one fails.
    pub fn restore_privileges(&self) -> (r: Vec<CredCall>)
        ensures
            r@ == self.restore_calls(),
    {
        let mut r: Vec<CredCall> = Vec::new();
        r.push(CredCall::SetEuid(self.oeuid));
        r.push(CredCall::SetEgid(self.oegid));
        if self.known {
            r.push(CredCall::RecordedGroups);
        }
        assert(r@ =~= self.restore_calls());
        r
    }
}

/// The calls by which a child process becomes the user. The first one that
/// fails ends the child.
pub fn impersonate_user_after_fork(pwd: &PasswordInfo, oeuid: uid_t) -> (r: Vec<CredCall>)
    ensures
        r@ == impersonate_calls(*pwd, oeuid),
{
    let mut r: Vec<CredCall> = Vec::new();
    r.push(CredCall::SetEuid(oeuid));
    r.push(CredCall::ClearEnv);
    r.push(CredCall::OnlyGroup(pwd.gid));
    r.push(CredCall::SetGid(pwd.gid));
    r.push(CredCall::SetResUid(pwd.uid));
    assert(r@ =~= impersonate_calls(*pwd, oeuid));
    r
}

/// What a process is: its users, its groups, and whether its environment is
/// empty.
pub struct Creds {
    pub ruid: uid_t,
    pub euid: uid_t,
    pub suid: uid_t,
    pub rgid: gid_t,
    pub egid: gid_t,
    pub sgid: gid_t,
    pub groups: Seq<gid_t>,
    pub env_empty: bool,
}

/// What a privileged process is after a call that succeeds, where `recorded`
/// are the groups that were recorded.
pub open spec fn after_call(creds: Creds, call: CredCall, recorded: Seq<gid_t>) -> Creds {
    match call {
        CredCall::SetEuid(uid) => Creds { euid: uid, ..creds },
        CredCall::SetEgid(gid) => Creds { egid: gid, ..creds },
        CredCall::OnlyGroup(gid) => Creds { groups: seq![gid], ..creds },
        CredCall::RecordedGroups => Creds { groups: recorded, ..creds },
        CredCall::SetGid(gid) => Creds { rgid: gid, egid: gid, sgid: gid, ..creds },
        CredCall::SetResUid(uid) => Creds { ruid: uid, euid: uid, suid: uid, ..creds },
        CredCall::ClearEnv => Creds { env_empty: true, ..creds },
    }
}

/// What a privileged process is after calls that all succeed.
pub open spec fn after_calls(creds: Creds, calls: Seq<CredCall>, recorded: Seq<gid_t>) -> Creds
    decreases calls.len(),
{
    if calls.len() == 0 {
        creds
    } else {
        after_call(after_calls(creds, calls.drop_last(), recorded), calls.last(), recorded)
    }
}

/// How many of the calls are made from position `i` on, where each call
/// returns what `rc` says, and whether all succeed.
pub open spec fn plan_run(calls: Seq<CredCall>, i: usize, rc: spec_fn(usize) -> c_int) -> (
    int,
    bool,
)
    decreases calls.len() - i,
{
    match plan_next(calls, i, rc(i)) {
        PlanStep::Next(j) => if i < j < calls.len() {
            let (made, all) = plan_run(calls, j, rc);
            (made + 1, all)
        } else {
            (0, false)
        },
        PlanStep::Succeeded => (1, true),
        PlanStep::Failed => (1, false),
    }
}

/// A list of calls succeeds if and only if each call does, and ends with the
/// first call that fails.
pub proof fn law_plan(calls: Seq<CredCall>, i: usize, rc: spec_fn(usize) -> c_int)
    requires
        i < calls.len() <= usize::MAX,
    ensures
        plan_run(calls, i, rc).1 <==> (forall|k: usize|
            i <= k < calls.len() ==> !call_failed(calls[k as int], #[trigger] rc(k))),
        plan_run(calls, i, rc).1 ==> plan_run(calls, i, rc).0 == calls.len() - i,
        !plan_run(calls, i, rc).1 ==> ({
            let last = (i + plan_run(calls, i, rc).0 - 1) as usize;
            &&& i <= last < calls.len()
            &&& call_failed(calls[last as int], rc(last))
            &&& forall|k: usize| i <= k < last ==> !call_failed(calls[k as int], #[trigger] rc(k))
        }),
    decreases calls.len() - i,
{
    match plan_next(calls, i, rc(i)) {
        PlanStep::Next(j) => {
            law_plan(calls, j, rc);
        },
        _ => {},
    }
}

/// After privileges were dropped, files are accessed as the user, with the
/// group of the user and no other. The real and saved users are kept.
pub proof fn law_drop(creds: Creds, uid: uid_t, gid: gid_t, recorded: Seq<gid_t>)
    ensures
        after_calls(creds, drop_calls(uid, gid), recorded) == (Creds {
            euid: uid,
            egid: gid,
            groups: seq![gid],
            ..creds
        }),
{
    reveal_with_fuel(after_calls, 4);
    let calls = drop_calls(uid, gid);
    assert(calls.drop_last() =~= seq![CredCall::SetEgid(gid), CredCall::OnlyGroup(gid)]);
    assert(calls.drop_last().drop_last() =~= seq![CredCall::SetEgid(gid)]);
    assert(calls.drop_last().drop_last().drop_last() =~= Seq::empty());
}

/// Taking privileges back undoes dropping them, however many of the calls that
/// drop them were made. This holds of every process whose groups could be found
/// out, one without any among them.
pub proof fn law_restore_undoes_drop(
    creds: Creds,
    privileges: Privileges,
    uid: uid_t,
    gid: gid_t,
    made: int,
)
    requires
        privileges.oeuid == creds.euid,
        privileges.oegid == creds.egid,
        privileges.groups@ == creds.groups,
        0 <= made <= drop_calls(uid, gid).len(),
        privileges.known,
    ensures
        after_calls(
            after_calls(creds, drop_calls(uid, gid).take(made), privileges.groups@),
            privileges.restore_calls(),
            privileges.groups@,
        ) == creds,
{
    reveal_with_fuel(after_calls, 4);
    let calls = drop_calls(uid, gid).take(made);
    if made > 0 {
        assert(calls.drop_last() =~= drop_calls(uid, gid).take(made - 1));
    }
    if made > 1 {
        assert(calls.drop_last().drop_last() =~= drop_calls(uid, gid).take(made - 2));
    }
    if made > 2 {
        assert(calls.drop_last().drop_last().drop_last() =~= Seq::empty());
    }
    let back = privileges.restore_calls();
    assert(back.drop_last() =~= seq![
        CredCall::SetEuid(privileges.oeuid),
        CredCall::SetEgid(privileges.oegid),
    ]);
    assert(back.drop_last().drop_last() =~= seq![CredCall::SetEuid(privileges.oeuid)]);
    assert(back.drop_last().drop_last().drop_last() =~= Seq::empty());
}

/// A child that impersonated the user is the user in every respect, has no
/// other group, and starts with an empty environment, whatever it was before.
pub proof fn law_impersonate(creds: Creds, pwd: PasswordInfo, oeuid: uid_t, recorded: Seq<gid_t>)
    ensures
        after_calls(creds, impersonate_calls(pwd, oeuid), recorded) == (Creds {
            ruid: pwd.uid,
            euid: pwd.uid,
            suid: pwd.uid,
            rgid: pwd.gid,
            egid: pwd.gid,
            sgid: pwd.gid,
            groups: seq![pwd.gid],
            env_empty: true,
        }),
{
    reveal_with_fuel(after_calls, 6);
    let calls = impersonate_calls(pwd, oeuid);
    let calls4 = calls.drop_last();
    let calls3 = calls4.drop_last();
    let calls2 = calls3.drop_last();
    let calls1 = calls2.drop_last();
    assert(calls1.drop_last() =~= Seq::empty());
}

/// Emptying the environment succeeds with zero alone, and every other call fails
/// with a negative number alone.
pub proof fn law_call_failed(call: CredCall, rc: c_int)
    ensures
        call == CredCall::ClearEnv ==> (call_failed(call, rc) <==> rc != 0),
        call != CredCall::ClearEnv ==> (call_failed(call, rc) <==> rc < 0),
{
}

/// There is room for every group that a process may have: one more than the
/// limit of the system, or 64 where it has none.
pub proof fn law_group_room(ngroups_max: isize)
    ensures
        ngroups_max > 0 ==> group_room(ngroups_max) == ngroups_max + 1,
        ngroups_max <= 0 ==> group_room(ngroups_max) == 64,
{
}

/// The groups that are recorded are those that the system reported, in order and
/// without what it left unfilled.
pub proof fn law_reported_groups(filled: Seq<gid_t>, unfilled: Seq<gid_t>, ngids: c_int)
    requires
        ngids == filled.len() || ngids < 0,
    ensures
        ngids >= 0 ==> reported_groups(filled + unfilled, ngids) == filled,
        ngids < 0 ==> reported_groups(filled + unfilled, ngids).len() == 0,
{
    if ngids >= 0 {
        assert((filled + unfilled).take(ngids as int) =~= filled);
    }
}

/// Which calls drop privileges: the group of the user is set first and their
/// user last, because the user may not change the groups.
pub proof fn law_drop_calls(uid: uid_t, gid: gid_t)
    ensures
        drop_calls(uid, gid).len() == 3,
        drop_calls(uid, gid)[0] == CredCall::SetEgid(gid),
        drop_calls(uid, gid)[1] == CredCall::OnlyGroup(gid),
        drop_calls(uid, gid)[2] == CredCall::SetEuid(uid),
{
}

/// Which calls take privileges back: the user is set first, because only then
/// the groups may be changed.
pub proof fn law_restore_calls(privileges: Privileges)
    ensures
        ({
            let calls = privileges.restore_calls();
            &&& calls.len() == if privileges.known {
                3int
            } else {
                2
            }
            &&& calls[0] == CredCall::SetEuid(privileges.oeuid)
            &&& calls[1] == CredCall::SetEgid(privileges.oegid)
            &&& privileges.known ==> calls[2] == CredCall::RecordedGroups
        }),
{
}

/// By which calls a child becomes the user: with the privileges of its parent it
/// empties its environment and gives its groups away, and then itself.
pub proof fn law_impersonate_calls(pwd: PasswordInfo, oeuid: uid_t)
    ensures
        ({
            let calls = impersonate_calls(pwd, oeuid);
            &&& calls.len() == 5
            &&& calls[0] == CredCall::SetEuid(oeuid)
            &&& calls[1] == CredCall::ClearEnv
            &&& calls[2] == CredCall::OnlyGroup(pwd.gid)
            &&& calls[3] == CredCall::SetGid(pwd.gid)
            &&& calls[4] == CredCall::SetResUid(pwd.uid)
        }),
{
}

/// A list of calls goes on if and only if the call succeeded and is not the
/// last, and succeeds if and only if the last call did.
pub proof fn law_plan_step(calls: Seq<CredCall>, index: usize, rc: c_int)
    requires
        index < calls.len() <= usize::MAX,
    ensures
        ({
            let call = calls[index as int];
            let failed = if call == CredCall::ClearEnv {
                rc != 0
            } else {
                rc < 0
            };
            let step = plan_next(calls, index, rc);
            &&& step == PlanStep::Failed <==> failed
            &&& step == PlanStep::Succeeded <==> !failed && index + 1 == calls.len()
            &&& step matches PlanStep::Next(next) ==> next == index + 1 && next < calls.len()
        }),
{
}

} // verus!
