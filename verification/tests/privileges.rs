use pam_gocryptfs::privileges::{
    impersonate_user_after_fork, max_groups, plan_step, CredCall, PlanStep, Privileges,
};
use pam_gocryptfs::user::PasswordInfo;

#[test]
fn room_for_groups() {
    assert_eq!(max_groups(65536), 65537);
    assert_eq!(max_groups(1), 2);
    assert_eq!(max_groups(0), 64);
    assert_eq!(max_groups(-1), 64);
    assert_eq!(max_groups(isize::MAX), (isize::MAX as usize) + 1);
}

#[test]
fn only_reported_groups_are_recorded() {
    assert_eq!(Privileges::new(0, 0, vec![4, 5, 6], 2).groups, [4, 5]);
    assert_eq!(Privileges::new(0, 0, vec![4, 5, 6], -1).groups, []);
    assert_eq!(Privileges::new(0, 0, vec![4, 5, 6], 0).groups, []);
    assert_eq!(Privileges::new(0, 0, vec![4], 9).groups, [4]);
}

#[test]
fn no_groups_are_not_unknown_groups() {
    assert!(Privileges::new(0, 0, vec![4], 1).known);
    assert!(Privileges::new(0, 0, vec![4], 0).known);
    assert!(!Privileges::new(0, 0, vec![4], -1).known);
}

#[test]
fn dropping_privileges() {
    let p = Privileges::new(0, 0, vec![1], 1);
    let calls = [CredCall::SetEgid(20), CredCall::OnlyGroup(20), CredCall::SetEuid(10)];
    assert_eq!(p.drop_privileges(10, 20), calls);
}

#[test]
fn taking_privileges_back() {
    let p = Privileges::new(3, 4, vec![1], 1);
    let calls = [CredCall::SetEuid(3), CredCall::SetEgid(4), CredCall::RecordedGroups];
    assert_eq!(p.restore_privileges(), calls);
    let p = Privileges::new(3, 4, vec![1], 0);
    assert_eq!(p.restore_privileges(), calls);
    let p = Privileges::new(3, 4, vec![1], -1);
    assert_eq!(p.restore_privileges(), [CredCall::SetEuid(3), CredCall::SetEgid(4)]);
}

#[test]
fn becoming_the_user() {
    let pwd = PasswordInfo { name: Vec::new(), dir: Vec::new(), uid: 10, gid: 20 };
    let calls = [
        CredCall::SetEuid(0),
        CredCall::ClearEnv,
        CredCall::OnlyGroup(20),
        CredCall::SetGid(20),
        CredCall::SetResUid(10),
    ];
    assert_eq!(impersonate_user_after_fork(&pwd, 0), calls);
}

#[test]
fn first_failure_ends_a_list_of_calls() {
    let calls = vec![CredCall::SetEuid(0), CredCall::ClearEnv, CredCall::SetGid(1)];
    assert_eq!(plan_step(&calls, 0, 0), PlanStep::Next(1));
    assert_eq!(plan_step(&calls, 0, 1), PlanStep::Next(1));
    assert_eq!(plan_step(&calls, 0, -1), PlanStep::Failed);
    assert_eq!(plan_step(&calls, 1, 1), PlanStep::Failed);
    assert_eq!(plan_step(&calls, 1, 0), PlanStep::Next(2));
    assert_eq!(plan_step(&calls, 2, 0), PlanStep::Succeeded);
    assert_eq!(plan_step(&calls, 3, 0), PlanStep::Failed);
}

/// The effective user and group and the groups after calls that succeed.
fn after(start: (u32, u32, Vec<u32>), calls: &[CredCall], held: &Privileges) -> (u32, u32, Vec<u32>) {
    let (mut euid, mut egid, mut groups) = start;
    for call in calls {
        match call {
            CredCall::SetEuid(uid) => euid = *uid,
            CredCall::SetEgid(gid) => egid = *gid,
            CredCall::OnlyGroup(gid) => groups = vec![*gid],
            CredCall::RecordedGroups => groups = held.groups.clone(),
            _ => panic!("not a call that drops or restores"),
        }
    }
    (euid, egid, groups)
}

#[test]
fn restoring_undoes_dropping() {
    let start = (0, 5, vec![5, 6, 7]);
    let held = Privileges::new(0, 5, vec![5, 6, 7, 0, 0], 3);
    let drop = held.drop_privileges(10, 20);
    for made in 0..=drop.len() {
        let low = after(start.clone(), &drop[..made], &held);
        assert_eq!(after(low, &held.restore_privileges(), &held), start);
    }
    assert_eq!(after(start, &drop, &held), (10, 20, vec![20]));
}

#[test]
fn process_without_groups_has_none_again() {
    let held = Privileges::new(0, 5, vec![0; 4], 0);
    let low = after((0, 5, Vec::new()), &held.drop_privileges(10, 20), &held);
    assert_eq!(low, (10, 20, vec![20]));
    assert_eq!(after(low, &held.restore_privileges(), &held), (0, 5, Vec::new()));
}
