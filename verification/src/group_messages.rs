use vstd::prelude::*;
use vstd::string::StringExecFns;
use crate::group::{
    invite_outcome, kick_outcome, AssignLeaderOutcome, InviteFacts, InviteOutcome, KickFacts, KickOutcome,
    PRESENTED_INVITE_TIMEOUT_MS,
};

verus! {

/// How an invitee answered, as the inviter is told.
#[derive(Clone, Copy, Debug, PartialEq, Eq, Structural)]
pub enum InviteAnswer {
    Accepted,
    Declined,
    TimedOut,
}

/// A message the server sends to a player about groups. A `Meta` line goes
/// to the player's chat; the others go to the player's game client.
#[derive(Clone, Debug)]
pub enum GroupMessage {
    /// A server line in the chat.
    Meta(String),
    /// An invitation from the player with uid `inviter`, shown for
    /// `timeout_ms` milliseconds.
    GroupInvite { inviter: u64, timeout_ms: u64 },
    /// The invite to the player with this uid is waiting for an answer.
    InvitePending(u64),
    /// The player with uid `target` answered an invite.
    InviteComplete { target: u64, answer: InviteAnswer },
}

/// A group message as a mathematical value.
pub enum GroupMessageView {
    Meta(Seq<char>),
    GroupInvite { inviter: u64, timeout_ms: u64 },
    InvitePending(u64),
    InviteComplete { target: u64, answer: InviteAnswer },
}

impl View for GroupMessage {
    type V = GroupMessageView;

    open spec fn view(&self) -> GroupMessageView {
        match self {
            GroupMessage::Meta(s) => GroupMessageView::Meta(s@),
            GroupMessage::GroupInvite { inviter, timeout_ms } => GroupMessageView::GroupInvite {
                inviter: *inviter,
                timeout_ms: *timeout_ms,
            },
            GroupMessage::InvitePending(u) => GroupMessageView::InvitePending(*u),
            GroupMessage::InviteComplete { target, answer } => GroupMessageView::InviteComplete {
                target: *target,
                answer: *answer,
            },
        }
    }
}

/// Messages with their recipients (entities), as mathematical values.
pub open spec fn messages_view(s: Seq<(u64, GroupMessage)>) -> Seq<(u64, GroupMessageView)> {
    s.map_values(|e: (u64, GroupMessage)| (e.0, e.1@))
}

/// A chat line to `to`.
pub open spec fn meta_to(to: u64, text: Seq<char>) -> (u64, GroupMessageView) {
    (to, GroupMessageView::Meta(text))
}

fn meta(to: u64, text: &str) -> (r: (u64, GroupMessage))
    ensures
        r.0 == to,
        r.1@ == GroupMessageView::Meta(text@),
{
    (to, GroupMessage::Meta(String::from_str(text)))
}

/// What an invitation by `inviter` (an entity) sends, given the world facts
/// it was decided on and its outcome: a chat line to the inviter on each
/// refusal (none for inviting oneself); for an invite to a player, the
/// invitation to the invitee with the presented timeout, then the pending
/// notice to the inviter; for an invite to an NPC, the pending notice only.
pub open spec fn invite_messages_spec(inviter: u64, facts: InviteFacts, outcome: InviteOutcome) -> Seq<
    (u64, GroupMessageView),
> {
    match outcome {
        InviteOutcome::TargetMissing => seq![meta_to(inviter, "Invite failed, target does not exist."@)],
        InviteOutcome::SelfInvite => seq![],
        InviteOutcome::AlreadyInGroup => seq![
            meta_to(inviter, "Invite failed, can't invite someone already in your group"@),
        ],
        InviteOutcome::GroupFull => seq![
            meta_to(
                inviter,
                "Invite failed, pending invites plus current group size have reached the group size limit"@,
            ),
        ],
        InviteOutcome::AlreadyInvited => seq![meta_to(inviter, "This player already has a pending invite."@)],
        InviteOutcome::NotPlayerOrNpc => seq![meta_to(inviter, "Can't invite, not a player or npc"@)],
        InviteOutcome::SentToClient => seq![
            (
                facts.invitee->0,
                GroupMessageView::GroupInvite {
                    inviter: facts.inviter_uid->0,
                    timeout_ms: PRESENTED_INVITE_TIMEOUT_MS,
                },
            ),
            (inviter, GroupMessageView::InvitePending(facts.target_uid)),
        ],
        InviteOutcome::SentToAgent => seq![(inviter, GroupMessageView::InvitePending(facts.target_uid))],
    }
}

/// The messages an invitation sends; see `invite_messages_spec`. For a sent
/// invite the facts must name the invitee, and for one sent to a player the
/// inviter's uid, as they do whenever `GroupInvites::invite` decided so.
pub fn invite_messages(inviter: u64, facts: &InviteFacts, outcome: InviteOutcome) -> (r: Vec<(u64, GroupMessage)>)
    requires
        outcome == InviteOutcome::SentToClient ==> facts.invitee is Some && facts.inviter_uid is Some,
    ensures
        messages_view(r@) == invite_messages_spec(inviter, *facts, outcome),
{
    let r = match outcome {
        InviteOutcome::TargetMissing => vec![meta(inviter, "Invite failed, target does not exist.")],
        InviteOutcome::SelfInvite => Vec::new(),
        InviteOutcome::AlreadyInGroup => vec![
            meta(inviter, "Invite failed, can't invite someone already in your group"),
        ],
        InviteOutcome::GroupFull => vec![
            meta(
                inviter,
                "Invite failed, pending invites plus current group size have reached the group size limit",
            ),
        ],
        InviteOutcome::AlreadyInvited => vec![meta(inviter, "This player already has a pending invite.")],
        InviteOutcome::NotPlayerOrNpc => vec![meta(inviter, "Can't invite, not a player or npc")],
        InviteOutcome::SentToClient => {
            let invitee = match facts.invitee {
                Some(e) => e,
                None => 0,
            };
            let inviter_uid = match facts.inviter_uid {
                Some(u) => u,
                None => 0,
            };
            vec![
                (invitee, GroupMessage::GroupInvite { inviter: inviter_uid, timeout_ms: PRESENTED_INVITE_TIMEOUT_MS }),
                (inviter, GroupMessage::InvitePending(facts.target_uid)),
            ]
        },
        InviteOutcome::SentToAgent => vec![(inviter, GroupMessage::InvitePending(facts.target_uid))],
    };
    assert(messages_view(r@) =~= invite_messages_spec(inviter, *facts, outcome));
    r
}

/// What answering an invite sends: when the answer found its invite (the
/// inviter is known) and the invitee has a uid, the inviter is told the
/// invitee's answer; otherwise nothing.
pub open spec fn answer_messages_spec(inviter: Option<u64>, invitee_uid: Option<u64>, accepted: bool) -> Seq<
    (u64, GroupMessageView),
> {
    match (inviter, invitee_uid) {
        (Some(i), Some(u)) => seq![
            (
                i,
                GroupMessageView::InviteComplete {
                    target: u,
                    answer: if accepted { InviteAnswer::Accepted } else { InviteAnswer::Declined },
                },
            ),
        ],
        _ => seq![],
    }
}

/// The messages an answer to an invite sends; `inviter` is what
/// `GroupInvites::answer_invite` returned.
pub fn answer_messages(inviter: Option<u64>, invitee_uid: Option<u64>, accepted: bool) -> (r: Vec<
    (u64, GroupMessage),
>)
    ensures
        messages_view(r@) == answer_messages_spec(inviter, invitee_uid, accepted),
{
    let r = match inviter {
        Some(i) => match invitee_uid {
            Some(u) => {
                let answer = if accepted { InviteAnswer::Accepted } else { InviteAnswer::Declined };
                vec![(i, GroupMessage::InviteComplete { target: u, answer })]
            },
            None => Vec::new(),
        },
        None => Vec::new(),
    };
    assert(messages_view(r@) =~= answer_messages_spec(inviter, invitee_uid, accepted));
    r
}

/// What the timed-out invites `timed_out` (invitee, inviter pairs, with the
/// invitees' uids in `invitee_uids`) send: each inviter whose invitee has a
/// uid is told the invite timed out, in the order of the list.
pub open spec fn timeout_messages_spec(timed_out: Seq<(u64, u64)>, invitee_uids: Seq<Option<u64>>) -> Seq<
    (u64, GroupMessageView),
>
    decreases timed_out.len(),
{
    if timed_out.len() == 0 {
        seq![]
    } else {
        let prev = timeout_messages_spec(timed_out.drop_last(), invitee_uids.drop_last());
        match invitee_uids.last() {
            Some(u) => prev.push(
                (timed_out.last().1, GroupMessageView::InviteComplete { target: u, answer: InviteAnswer::TimedOut }),
            ),
            None => prev,
        }
    }
}

/// The messages that the invites which `GroupInvites::remove_timed_out`
/// returned send; see `timeout_messages_spec`.
pub fn timeout_messages(timed_out: &Vec<(u64, u64)>, invitee_uids: &Vec<Option<u64>>) -> (r: Vec<(u64, GroupMessage)>)
    requires
        timed_out@.len() == invitee_uids@.len(),
    ensures
        messages_view(r@) == timeout_messages_spec(timed_out@, invitee_uids@),
{
    let mut r: Vec<(u64, GroupMessage)> = Vec::new();
    let mut k: usize = 0;
    assert(messages_view(r@) =~= timeout_messages_spec(timed_out@.take(0), invitee_uids@.take(0)));
    while k < timed_out.len()
        invariant
            k <= timed_out@.len(),
            timed_out@.len() == invitee_uids@.len(),
            messages_view(r@) == timeout_messages_spec(timed_out@.take(k as int), invitee_uids@.take(k as int)),
        decreases timed_out@.len() - k,
    {
        proof {
            assert(timed_out@.take(k as int + 1).drop_last() =~= timed_out@.take(k as int));
            assert(invitee_uids@.take(k as int + 1).drop_last() =~= invitee_uids@.take(k as int));
        }
        let ghost before = r@;
        match invitee_uids[k] {
            Some(u) => {
                r.push((timed_out[k].1, GroupMessage::InviteComplete { target: u, answer: InviteAnswer::TimedOut }));
                assert(messages_view(r@) =~= messages_view(before).push(messages_view(r@).last()));
            },
            None => {},
        }
        k = k + 1;
    }
    assert(timed_out@.take(timed_out@.len() as int) =~= timed_out@);
    assert(invitee_uids@.take(invitee_uids@.len() as int) =~= invitee_uids@);
    r
}

/// What a kick by `kicker` of the entity `target` (if it exists) sends: a
/// chat line to the kicker on each refusal; on success the target is told
/// it was removed, then the kicker that the kick worked.
pub open spec fn kick_messages_spec(kicker: u64, target: Option<u64>, outcome: KickOutcome) -> Seq<
    (u64, GroupMessageView),
> {
    match outcome {
        KickOutcome::TargetMissing => seq![meta_to(kicker, "Kick failed, target does not exist."@)],
        KickOutcome::CannotKickPet => seq![meta_to(kicker, "Kick failed, you can't kick pets."@)],
        KickOutcome::CannotKickSelf => seq![meta_to(kicker, "Kick failed, you can't kick yourself."@)],
        KickOutcome::Kicked => seq![
            meta_to(target->0, "You were removed from the group."@),
            meta_to(kicker, "Player kicked."@),
        ],
        KickOutcome::NotLeader => seq![
            meta_to(kicker, "Kick failed: You are not the leader of the target's group."@),
        ],
        KickOutcome::NotInGroup => seq![meta_to(kicker, "Kick failed: Your target is not in a group."@)],
    }
}

/// The messages a kick sends; see `kick_messages_spec`. A successful kick
/// has a target.
pub fn kick_messages(kicker: u64, target: Option<u64>, outcome: KickOutcome) -> (r: Vec<(u64, GroupMessage)>)
    requires
        outcome == KickOutcome::Kicked ==> target is Some,
    ensures
        messages_view(r@) == kick_messages_spec(kicker, target, outcome),
{
    let r = match outcome {
        KickOutcome::TargetMissing => vec![meta(kicker, "Kick failed, target does not exist.")],
        KickOutcome::CannotKickPet => vec![meta(kicker, "Kick failed, you can't kick pets.")],
        KickOutcome::CannotKickSelf => vec![meta(kicker, "Kick failed, you can't kick yourself.")],
        KickOutcome::Kicked => {
            let t = match target {
                Some(t) => t,
                None => 0,
            };
            vec![meta(t, "You were removed from the group."), meta(kicker, "Player kicked.")]
        },
        KickOutcome::NotLeader => vec![meta(kicker, "Kick failed: You are not the leader of the target's group.")],
        KickOutcome::NotInGroup => vec![meta(kicker, "Kick failed: Your target is not in a group.")],
    };
    assert(messages_view(r@) =~= kick_messages_spec(kicker, target, outcome));
    r
}

/// What a leadership transfer by `assigner` to the entity `target` (if it
/// exists) sends: a chat line to the assigner on each refusal; on success
/// the new leader is told it leads now, and the old leader that it no
/// longer does.
pub open spec fn assign_leader_messages_spec(assigner: u64, target: Option<u64>, outcome: AssignLeaderOutcome) -> Seq<
    (u64, GroupMessageView),
> {
    match outcome {
        AssignLeaderOutcome::TargetMissing => seq![
            meta_to(assigner, "Leadership transfer failed, target does not exist"@),
        ],
        AssignLeaderOutcome::Assigned => seq![
            meta_to(target->0, "You are the group leader now."@),
            meta_to(assigner, "You are no longer the group leader."@),
        ],
        AssignLeaderOutcome::NotLeader => seq![
            meta_to(assigner, "Transfer failed: You are not the leader of the target's group."@),
        ],
        AssignLeaderOutcome::NotInGroup => seq![
            meta_to(assigner, "Transfer failed: Your target is not in a group."@),
        ],
    }
}

/// The messages a leadership transfer sends; see
/// `assign_leader_messages_spec`. A successful transfer has a target.
pub fn assign_leader_messages(assigner: u64, target: Option<u64>, outcome: AssignLeaderOutcome) -> (r: Vec<
    (u64, GroupMessage),
>)
    requires
        outcome == AssignLeaderOutcome::Assigned ==> target is Some,
    ensures
        messages_view(r@) == assign_leader_messages_spec(assigner, target, outcome),
{
    let r = match outcome {
        AssignLeaderOutcome::TargetMissing => vec![meta(assigner, "Leadership transfer failed, target does not exist")],
        AssignLeaderOutcome::Assigned => {
            let t = match target {
                Some(t) => t,
                None => 0,
            };
            vec![meta(t, "You are the group leader now."), meta(assigner, "You are no longer the group leader.")]
        },
        AssignLeaderOutcome::NotLeader => vec![
            meta(assigner, "Transfer failed: You are not the leader of the target's group."),
        ],
        AssignLeaderOutcome::NotInGroup => vec![meta(assigner, "Transfer failed: Your target is not in a group.")],
    };
    assert(messages_view(r@) =~= assign_leader_messages_spec(assigner, target, outcome));
    r
}

/// The decisions only report a sent invite or a done kick when the parties
/// the messages go to exist: the messages can always be built from them.
pub proof fn lemma_outcomes_name_their_parties(
    inviter: u64,
    facts: InviteFacts,
    invites: Seq<(u64, u64)>,
    p: Map<u64, Seq<(u64, u64)>>,
    max_group_size: u32,
    kicker: u64,
    kick: KickFacts,
)
    ensures
        invite_outcome(inviter, facts, invites, p, max_group_size) == InviteOutcome::SentToClient ==> facts.invitee is Some
            && facts.inviter_uid is Some,
        kick_outcome(kicker, kick) == KickOutcome::Kicked ==> kick.target is Some,
{
}

} // verus!
