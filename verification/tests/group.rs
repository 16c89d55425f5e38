use veloren_logic::group::{
    decide_assign_leader, decide_kick, AssignLeaderOutcome, GroupInfo, GroupInvites, InviteFacts, InviteOutcome,
    KickFacts, KickOutcome, INVITE_TIMEOUT_MS,
};

fn facts(invitee: u64) -> InviteFacts {
    InviteFacts {
        invitee: Some(invitee),
        target_uid: invitee + 1000,
        inviter_uid: Some(1),
        inviter_group: None,
        invitee_group: None,
        invitee_has_stream: true,
        invitee_is_agent: false,
    }
}

#[test]
fn invite_then_accept() {
    let mut g = GroupInvites::new();
    assert_eq!(g.invite(1, facts(2), 6, 100), InviteOutcome::SentToClient);
    assert_eq!(g.inviter_of(2), Some(1));
    assert_eq!(g.pending_len(1), 1);
    assert_eq!(g.invite(1, facts(2), 6, 100), InviteOutcome::AlreadyInvited);
    assert_eq!(g.answer_invite(2), Some(1));
    assert_eq!(g.inviter_of(2), None);
    assert_eq!(g.pending_len(1), 0);
    assert_eq!(g.answer_invite(2), None);
}

#[test]
fn invite_refusals() {
    let mut g = GroupInvites::new();
    let mut f = facts(2);
    f.invitee = None;
    assert_eq!(g.invite(1, f, 6, 0), InviteOutcome::TargetMissing);
    let mut f = facts(2);
    f.target_uid = 1;
    assert_eq!(g.invite(1, f, 6, 0), InviteOutcome::SelfInvite);
    let mut f = facts(2);
    f.inviter_group = Some(GroupInfo { group: 9, leader: 1, num_members: 3 });
    f.invitee_group = Some(9);
    assert_eq!(g.invite(1, f, 6, 0), InviteOutcome::AlreadyInGroup);
    let mut f = facts(2);
    f.inviter_group = Some(GroupInfo { group: 9, leader: 1, num_members: 6 });
    assert_eq!(g.invite(1, f, 6, 0), InviteOutcome::GroupFull);
    let mut f = facts(2);
    f.invitee_has_stream = false;
    assert_eq!(g.invite(1, f, 6, 0), InviteOutcome::NotPlayerOrNpc);
    f.invitee_is_agent = true;
    assert_eq!(g.invite(1, f, 6, 0), InviteOutcome::SentToAgent);
    assert_eq!(g.inviter_of(2), Some(1));
}

#[test]
fn pending_invites_count_against_the_group_limit() {
    let mut g = GroupInvites::new();
    assert_eq!(g.invite(1, facts(2), 3, 0), InviteOutcome::SentToClient);
    assert_eq!(g.invite(1, facts(3), 3, 0), InviteOutcome::SentToClient);
    assert_eq!(g.invite(1, facts(4), 3, 0), InviteOutcome::GroupFull);
}

#[test]
fn invites_time_out() {
    let mut g = GroupInvites::new();
    assert_eq!(g.invite(1, facts(2), 6, 1000), InviteOutcome::SentToClient);
    assert_eq!(g.invite(5, facts(3), 6, 2000), InviteOutcome::SentToClient);
    assert_eq!(g.remove_timed_out(1000 + INVITE_TIMEOUT_MS - 1), vec![]);
    assert_eq!(g.remove_timed_out(1000 + INVITE_TIMEOUT_MS), vec![(2, 1)]);
    assert_eq!(g.inviter_of(2), None);
    assert_eq!(g.inviter_of(3), Some(5));
    assert_eq!(g.remove_timed_out(u64::MAX), vec![(3, 5)]);
    assert_eq!(g.pending_len(5), 0);
}

#[test]
fn kick_decisions() {
    let base = KickFacts {
        target: Some(7),
        target_uid: 70,
        kicker_uid: Some(10),
        target_owner: None,
        target_own_uid: None,
        target_group_leader: Some(1),
    };
    assert_eq!(decide_kick(1, base), KickOutcome::Kicked);
    assert_eq!(decide_kick(2, base), KickOutcome::NotLeader);
    assert_eq!(decide_kick(1, KickFacts { target: None, ..base }), KickOutcome::TargetMissing);
    assert_eq!(decide_kick(1, KickFacts { target_owner: Some(3), target_own_uid: Some(70), ..base }), KickOutcome::CannotKickPet);
    assert_eq!(decide_kick(1, KickFacts { kicker_uid: Some(70), ..base }), KickOutcome::CannotKickSelf);
    assert_eq!(decide_kick(1, KickFacts { target_group_leader: None, ..base }), KickOutcome::NotInGroup);
}

#[test]
fn assign_leader_decisions() {
    assert_eq!(decide_assign_leader(1, Some(2), Some(1)), AssignLeaderOutcome::Assigned);
    assert_eq!(decide_assign_leader(3, Some(2), Some(1)), AssignLeaderOutcome::NotLeader);
    assert_eq!(decide_assign_leader(1, Some(2), None), AssignLeaderOutcome::NotInGroup);
    assert_eq!(decide_assign_leader(1, None, Some(1)), AssignLeaderOutcome::TargetMissing);
}
