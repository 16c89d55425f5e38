use veloren_logic::group::{
    decide_assign_leader, decide_kick, AssignLeaderOutcome, GroupInfo, GroupInvites, InviteFacts, InviteOutcome,
    KickFacts, KickOutcome, PRESENTED_INVITE_TIMEOUT_MS,
};
use veloren_logic::group_messages::{
    answer_messages, assign_leader_messages, invite_messages, kick_messages, timeout_messages, GroupMessage,
    InviteAnswer,
};

fn player(invitee: u64) -> InviteFacts {
    InviteFacts {
        invitee: Some(invitee),
        target_uid: invitee + 1000,
        inviter_uid: Some(1001),
        inviter_group: None,
        invitee_group: None,
        invitee_has_stream: true,
        invitee_is_agent: false,
    }
}

fn chat(messages: &[(u64, GroupMessage)]) -> Vec<(u64, String)> {
    messages
        .iter()
        .map(|(to, m)| match m {
            GroupMessage::Meta(s) => (*to, s.clone()),
            other => panic!("not a chat line: {:?}", other),
        })
        .collect()
}

#[test]
fn sent_invite_goes_to_the_invitee_with_the_presented_timeout() {
    let mut g = GroupInvites::new();
    let f = player(2);
    let outcome = g.invite(1, f, 6, 0);
    assert_eq!(outcome, InviteOutcome::SentToClient);
    let m = invite_messages(1, &f, outcome);
    assert_eq!(m.len(), 2);
    match &m[0] {
        (2, GroupMessage::GroupInvite { inviter: 1001, timeout_ms }) => {
            assert_eq!(*timeout_ms, PRESENTED_INVITE_TIMEOUT_MS);
            assert_eq!(*timeout_ms, 30000);
        }
        other => panic!("unexpected {:?}", other),
    }
    assert!(matches!(m[1], (1, GroupMessage::InvitePending(1002))));
}

#[test]
fn invite_to_an_npc_only_tells_the_inviter() {
    let mut f = player(2);
    f.invitee_has_stream = false;
    f.invitee_is_agent = true;
    let m = invite_messages(1, &f, InviteOutcome::SentToAgent);
    assert_eq!(m.len(), 1);
    assert!(matches!(m[0], (1, GroupMessage::InvitePending(1002))));
}

#[test]
fn full_group_refusal_is_told_to_the_inviter() {
    let mut g = GroupInvites::new();
    let mut f = player(2);
    f.inviter_group = Some(GroupInfo { group: 9, leader: 1, num_members: 6 });
    let outcome = g.invite(1, f, 6, 0);
    assert_eq!(outcome, InviteOutcome::GroupFull);
    assert_eq!(g.inviter_of(2), None);
    assert_eq!(
        chat(&invite_messages(1, &f, outcome)),
        vec![(1, "Invite failed, pending invites plus current group size have reached the group size limit".to_string())]
    );
}

#[test]
fn other_invite_refusals_are_told_to_the_inviter() {
    let f = player(2);
    assert_eq!(
        chat(&invite_messages(1, &f, InviteOutcome::TargetMissing)),
        vec![(1, "Invite failed, target does not exist.".to_string())]
    );
    assert_eq!(
        chat(&invite_messages(1, &f, InviteOutcome::AlreadyInGroup)),
        vec![(1, "Invite failed, can't invite someone already in your group".to_string())]
    );
    assert_eq!(
        chat(&invite_messages(1, &f, InviteOutcome::AlreadyInvited)),
        vec![(1, "This player already has a pending invite.".to_string())]
    );
    assert_eq!(
        chat(&invite_messages(1, &f, InviteOutcome::NotPlayerOrNpc)),
        vec![(1, "Can't invite, not a player or npc".to_string())]
    );
    assert!(invite_messages(1, &f, InviteOutcome::SelfInvite).is_empty());
}

#[test]
fn answers_are_told_to_the_inviter() {
    let m = answer_messages(Some(1), Some(1002), true);
    assert!(matches!(m[..], [(1, GroupMessage::InviteComplete { target: 1002, answer: InviteAnswer::Accepted })]));
    let m = answer_messages(Some(1), Some(1002), false);
    assert!(matches!(m[..], [(1, GroupMessage::InviteComplete { target: 1002, answer: InviteAnswer::Declined })]));
    assert!(answer_messages(None, Some(1002), true).is_empty());
    assert!(answer_messages(Some(1), None, true).is_empty());
}

#[test]
fn timed_out_invites_are_told_to_their_inviters_in_order() {
    let m = timeout_messages(&vec![(2, 1), (3, 5), (4, 6)], &vec![Some(1002), None, Some(1004)]);
    assert_eq!(m.len(), 2);
    assert!(matches!(m[0], (1, GroupMessage::InviteComplete { target: 1002, answer: InviteAnswer::TimedOut })));
    assert!(matches!(m[1], (6, GroupMessage::InviteComplete { target: 1004, answer: InviteAnswer::TimedOut })));
    assert!(timeout_messages(&vec![], &vec![]).is_empty());
}

#[test]
fn kick_messages_name_both_parties() {
    let base = KickFacts {
        target: Some(7),
        target_uid: 70,
        kicker_uid: Some(10),
        target_owner: None,
        target_own_uid: None,
        target_group_leader: Some(1),
    };
    let outcome = decide_kick(1, base);
    assert_eq!(outcome, KickOutcome::Kicked);
    assert_eq!(
        chat(&kick_messages(1, base.target, outcome)),
        vec![(7, "You were removed from the group.".to_string()), (1, "Player kicked.".to_string())]
    );
    assert_eq!(
        chat(&kick_messages(2, base.target, decide_kick(2, base))),
        vec![(2, "Kick failed: You are not the leader of the target's group.".to_string())]
    );
    assert_eq!(
        chat(&kick_messages(1, None, KickOutcome::TargetMissing)),
        vec![(1, "Kick failed, target does not exist.".to_string())]
    );
    assert_eq!(
        chat(&kick_messages(1, Some(7), KickOutcome::CannotKickPet)),
        vec![(1, "Kick failed, you can't kick pets.".to_string())]
    );
    assert_eq!(
        chat(&kick_messages(1, Some(7), KickOutcome::CannotKickSelf)),
        vec![(1, "Kick failed, you can't kick yourself.".to_string())]
    );
    assert_eq!(
        chat(&kick_messages(1, Some(7), KickOutcome::NotInGroup)),
        vec![(1, "Kick failed: Your target is not in a group.".to_string())]
    );
}

#[test]
fn new_and_old_leader_are_both_told() {
    let outcome = decide_assign_leader(1, Some(2), Some(1));
    assert_eq!(outcome, AssignLeaderOutcome::Assigned);
    assert_eq!(
        chat(&assign_leader_messages(1, Some(2), outcome)),
        vec![(2, "You are the group leader now.".to_string()), (1, "You are no longer the group leader.".to_string())]
    );
    assert_eq!(
        chat(&assign_leader_messages(3, Some(2), decide_assign_leader(3, Some(2), Some(1)))),
        vec![(3, "Transfer failed: You are not the leader of the target's group.".to_string())]
    );
    assert_eq!(
        chat(&assign_leader_messages(1, Some(2), AssignLeaderOutcome::NotInGroup)),
        vec![(1, "Transfer failed: Your target is not in a group.".to_string())]
    );
    assert_eq!(
        chat(&assign_leader_messages(1, None, AssignLeaderOutcome::TargetMissing)),
        vec![(1, "Leadership transfer failed, target does not exist".to_string())]
    );
}
