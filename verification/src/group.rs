use vstd::prelude::*;
use std::collections::HashMap;

verus! {

broadcast use vstd::std_specs::hash::group_hash_axioms;

/// How long an invite stays open, in milliseconds.
pub const INVITE_TIMEOUT_MS: u64 = 31000u64;

/// The timeout shown to the invited player, in milliseconds: a little
/// shorter than the real one, to allow for latency.
pub const PRESENTED_INVITE_TIMEOUT_MS: u64 = 30000u64;

/// A group and who leads it.
#[derive(Clone, Copy, Debug, PartialEq, Eq, Structural)]
pub struct GroupInfo {
    pub group: u64,
    pub leader: u64,
    pub num_members: u32,
}

/// What the world says about an invitation request.
#[derive(Clone, Copy, Debug, PartialEq, Eq, Structural)]
pub struct InviteFacts {
    /// The entity that carries the invited uid, if it exists.
    pub invitee: Option<u64>,
    /// The uid that was invited.
    pub target_uid: u64,
    /// The inviter's own uid, if it has one.
    pub inviter_uid: Option<u64>,
    /// The group the inviter belongs to, if any.
    pub inviter_group: Option<GroupInfo>,
    /// The group the invitee belongs to, if any.
    pub invitee_group: Option<u64>,
    /// Whether the invitee is a connected player.
    pub invitee_has_stream: bool,
    /// Whether the invitee is an NPC.
    pub invitee_is_agent: bool,
}

/// How an invitation request was answered.
#[derive(Clone, Copy, Debug, PartialEq, Eq, Structural)]
pub enum InviteOutcome {
    /// No entity carries the invited uid.
    TargetMissing,
    /// The inviter invited itself.
    SelfInvite,
    /// The invitee is already in the group that the inviter leads.
    AlreadyInGroup,
    /// The inviter's group plus its open invites have reached the limit.
    GroupFull,
    /// The invitee already has an open invite.
    AlreadyInvited,
    /// The invitee is neither a player nor an NPC.
    NotPlayerOrNpc,
    /// The invite was recorded and must be shown to the invited player.
    SentToClient,
    /// The invite was recorded for an NPC.
    SentToAgent,
}

/// What the world says about a request to kick a group member.
#[derive(Clone, Copy, Debug, PartialEq, Eq, Structural)]
pub struct KickFacts {
    /// The entity that carries the targeted uid, if it exists.
    pub target: Option<u64>,
    /// The targeted uid.
    pub target_uid: u64,
    /// The kicker's own uid, if it has one.
    pub kicker_uid: Option<u64>,
    /// The owner's uid when the target is owned (a pet).
    pub target_owner: Option<u64>,
    /// The target's own uid, if it has one.
    pub target_own_uid: Option<u64>,
    /// The leader of the target's group, if the target is in a group.
    pub target_group_leader: Option<u64>,
}

/// How a kick request was answered.
#[derive(Clone, Copy, Debug, PartialEq, Eq, Structural)]
pub enum KickOutcome {
    /// No entity carries the targeted uid.
    TargetMissing,
    /// The target is someone's pet.
    CannotKickPet,
    /// The kicker targeted itself.
    CannotKickSelf,
    /// The target must leave its group.
    Kicked,
    /// The kicker does not lead the target's group.
    NotLeader,
    /// The target is not in a group.
    NotInGroup,
}

/// How a kick by `kicker` is answered.
pub open spec fn kick_outcome(kicker: u64, f: KickFacts) -> KickOutcome {
    match f.target {
        None => KickOutcome::TargetMissing,
        Some(_) => if f.target_owner matches Some(owner) && (f.target_own_uid matches Some(u) ==> u != owner) {
            KickOutcome::CannotKickPet
        } else if f.kicker_uid == Some(f.target_uid) {
            KickOutcome::CannotKickSelf
        } else {
            match f.target_group_leader {
                Some(leader) => if leader == kicker {
                    KickOutcome::Kicked
                } else {
                    KickOutcome::NotLeader
                },
                None => KickOutcome::NotInGroup,
            }
        },
    }
}

/// Decides a kick by `kicker`: the target must exist, must not be a pet
/// (an owned entity whose own uid is not its owner's), must not be the
/// kicker, and the kicker must lead the target's group.
pub fn decide_kick(kicker: u64, facts: KickFacts) -> (r: KickOutcome)
    ensures
        r == kick_outcome(kicker, facts),
{
    if facts.target.is_none() {
        return KickOutcome::TargetMissing;
    }
    let is_pet = match facts.target_owner {
        Some(owner) => match facts.target_own_uid {
            Some(u) => u != owner,
            None => true,
        },
        None => false,
    };
    if is_pet {
        return KickOutcome::CannotKickPet;
    }
    let is_self = match facts.kicker_uid {
        Some(u) => u == facts.target_uid,
        None => false,
    };
    if is_self {
        return KickOutcome::CannotKickSelf;
    }
    match facts.target_group_leader {
        Some(leader) => if leader == kicker {
            KickOutcome::Kicked
        } else {
            KickOutcome::NotLeader
        },
        None => KickOutcome::NotInGroup,
    }
}

/// How a request to hand over leadership was answered.
#[derive(Clone, Copy, Debug, PartialEq, Eq, Structural)]
pub enum AssignLeaderOutcome {
    /// No entity carries the targeted uid.
    TargetMissing,
    /// The target becomes the leader of its group.
    Assigned,
    /// The requester does not lead the target's group.
    NotLeader,
    /// The target is not in a group.
    NotInGroup,
}

/// Decides a leadership hand-over by `assigner` to `target` (the entity
/// with the requested uid, if any), whose group is led by
/// `target_group_leader` (if the target is in a group).
pub fn decide_assign_leader(assigner: u64, target: Option<u64>, target_group_leader: Option<u64>) -> (r: AssignLeaderOutcome)
    ensures
        target is None ==> r == AssignLeaderOutcome::TargetMissing,
        target is Some ==> r == match target_group_leader {
            Some(leader) => if leader == assigner {
                AssignLeaderOutcome::Assigned
            } else {
                AssignLeaderOutcome::NotLeader
            },
            None => AssignLeaderOutcome::NotInGroup,
        },
{
    if target.is_none() {
        return AssignLeaderOutcome::TargetMissing;
    }
    match target_group_leader {
        Some(leader) => if leader == assigner {
            AssignLeaderOutcome::Assigned
        } else {
            AssignLeaderOutcome::NotLeader
        },
        None => AssignLeaderOutcome::NotInGroup,
    }
}

/// Open group invitations: who invited whom (sorted by invitee, one invite
/// per invitee), and for each inviter its pending invitees with the time
/// (in milliseconds) at which each invite runs out.
pub struct GroupInvites {
    invites: Vec<(u64, u64)>,
    pending: HashMap<u64, Vec<(u64, u64)>>,
}

/// Whether the invite entries are sorted strictly by invitee.
pub open spec fn sorted_by_invitee(s: Seq<(u64, u64)>) -> bool {
    forall|i: int, j: int| 0 <= i < j < s.len() ==> s[i].0 < s[j].0
}

/// The index of the first entry whose first component is `k`, if any.
pub open spec fn key_index(s: Seq<(u64, u64)>, k: u64) -> Option<int> {
    if exists|i: int| 0 <= i < s.len() && s[i].0 == k {
        Some(choose|i: int| 0 <= i < s.len() && s[i].0 == k && (forall|j: int| 0 <= j < i ==> s[j].0 != k))
    } else {
        None
    }
}

/// The position at which an entry for key `k` keeps a sorted sequence
/// sorted, scanning from `i`.
pub open spec fn lower_bound(s: Seq<(u64, u64)>, k: u64, i: int) -> int
    decreases s.len() - i,
{
    if i >= s.len() || i < 0 || s[i].0 >= k {
        i
    } else {
        lower_bound(s, k, i + 1)
    }
}

/// The pending lists of a map, as sequences.
pub open spec fn lists_view(m: Map<u64, Vec<(u64, u64)>>) -> Map<u64, Seq<(u64, u64)>> {
    Map::new(|k: u64| m.contains_key(k), |k: u64| m[k]@)
}

/// `list` with entry `i` removed by moving the last entry into its place.
pub open spec fn swap_removed(list: Seq<(u64, u64)>, i: int) -> Seq<(u64, u64)> {
    list.update(i, list.last()).drop_last()
}

/// The pending lists once `invitee` is taken off `inviter`'s list (a list
/// that becomes empty disappears); `None` when the inviter has no pending
/// entry for the invitee.
pub open spec fn take_pending(p: Map<u64, Seq<(u64, u64)>>, inviter: u64, invitee: u64) -> Option<
    Map<u64, Seq<(u64, u64)>>,
> {
    if p.contains_key(inviter) && key_index(p[inviter], invitee) is Some {
        let l2 = swap_removed(p[inviter], key_index(p[inviter], invitee)->0);
        Some(
            if l2.len() == 0 {
                p.remove(inviter)
            } else {
                p.insert(inviter, l2)
            },
        )
    } else {
        None
    }
}

/// Like `take_pending`, but only when the invite has run out at `now`.
pub open spec fn take_timed_out(p: Map<u64, Seq<(u64, u64)>>, inviter: u64, invitee: u64, now: u64) -> Option<
    Map<u64, Seq<(u64, u64)>>,
> {
    if p.contains_key(inviter) && key_index(p[inviter], invitee) is Some && p[inviter][key_index(
        p[inviter],
        invitee,
    )->0].1 <= now {
        take_pending(p, inviter, invitee)
    } else {
        None
    }
}

/// Goes through the invites in order and takes every run-out invite off
/// its inviter's list: the lists left over, and the run-out invites as
/// (invitee, inviter) pairs in the order they were found.
pub open spec fn sweep_spec(invites: Seq<(u64, u64)>, p: Map<u64, Seq<(u64, u64)>>, now: u64) -> (
    Map<u64, Seq<(u64, u64)>>,
    Seq<(u64, u64)>,
)
    decreases invites.len(),
{
    if invites.len() == 0 {
        (p, seq![])
    } else {
        let prev = sweep_spec(invites.drop_last(), p, now);
        let (invitee, inviter) = invites.last();
        match take_timed_out(prev.0, inviter, invitee, now) {
            Some(p2) => (p2, prev.1.push((invitee, inviter))),
            None => prev,
        }
    }
}

/// The size that counts against the group limit: the members of the group
/// the inviter leads, or just the inviter.
pub open spec fn own_group_size(inviter: u64, f: InviteFacts) -> int {
    match f.inviter_group {
        Some(g) => if g.leader == inviter {
            g.num_members as int
        } else {
            1
        },
        None => 1,
    }
}

/// Whether the invitee is already in the group that the inviter leads.
pub open spec fn in_inviters_group(inviter: u64, f: InviteFacts) -> bool {
    match f.inviter_group {
        Some(g) => g.leader == inviter && f.invitee_group == Some(g.group),
        None => false,
    }
}

/// The number of invites the inviter has open.
pub open spec fn pending_count(p: Map<u64, Seq<(u64, u64)>>, inviter: u64) -> int {
    if p.contains_key(inviter) {
        p[inviter].len() as int
    } else {
        0
    }
}

/// How an invitation from `inviter` is answered, given the world facts,
/// the open invites and the group size limit.
pub open spec fn invite_outcome(
    inviter: u64,
    f: InviteFacts,
    invites: Seq<(u64, u64)>,
    p: Map<u64, Seq<(u64, u64)>>,
    max_group_size: u32,
) -> InviteOutcome {
    match f.invitee {
        None => InviteOutcome::TargetMissing,
        Some(invitee) => if f.inviter_uid == Some(f.target_uid) {
            InviteOutcome::SelfInvite
        } else if in_inviters_group(inviter, f) {
            InviteOutcome::AlreadyInGroup
        } else if own_group_size(inviter, f) + pending_count(p, inviter) >= max_group_size {
            InviteOutcome::GroupFull
        } else if key_index(invites, invitee) is Some {
            InviteOutcome::AlreadyInvited
        } else if f.invitee_has_stream && f.inviter_uid is Some {
            InviteOutcome::SentToClient
        } else if f.invitee_is_agent {
            InviteOutcome::SentToAgent
        } else {
            InviteOutcome::NotPlayerOrNpc
        },
    }
}

proof fn lemma_key_index_first(s: Seq<(u64, u64)>, k: u64, i: int)
    requires
        0 <= i < s.len(),
        s[i].0 == k,
        forall|j: int| 0 <= j < i ==> s[j].0 != k,
    ensures
        key_index(s, k) == Some(i),
{
    let c = choose|c: int| 0 <= c < s.len() && s[c].0 == k && (forall|j: int| 0 <= j < c ==> s[j].0 != k);
    assert(0 <= i < s.len() && s[i].0 == k && (forall|j: int| 0 <= j < i ==> s[j].0 != k));
    if c < i {
        assert(s[c].0 != k);
    } else if c > i {
        assert(s[i].0 != k);
    }
}

proof fn lemma_least_key_exists(s: Seq<(u64, u64)>, k: u64, i: int)
    requires
        0 <= i < s.len(),
        s[i].0 == k,
    ensures
        exists|c: int| 0 <= c < s.len() && s[c].0 == k && (forall|j: int| 0 <= j < c ==> s[j].0 != k),
    decreases i,
{
    if exists|j: int| 0 <= j < i && s[j].0 == k {
        let j = choose|j: int| 0 <= j < i && s[j].0 == k;
        lemma_least_key_exists(s, k, j);
    } else {
        assert(forall|j: int| 0 <= j < i ==> s[j].0 != k);
    }
}

/// `key_index` names the first entry with key `k`, and is `None` exactly
/// when no entry has that key.
pub proof fn lemma_key_index(s: Seq<(u64, u64)>, k: u64)
    ensures
        key_index(s, k) matches Some(i) ==> 0 <= i < s.len() && s[i].0 == k && (forall|j: int|
            0 <= j < i ==> s[j].0 != k),
        key_index(s, k) is None <==> (forall|j: int| 0 <= j < s.len() ==> s[j].0 != k),
{
    if exists|i: int| 0 <= i < s.len() && s[i].0 == k {
        let i = choose|i: int| 0 <= i < s.len() && s[i].0 == k;
        lemma_least_key_exists(s, k, i);
    }
}

fn find_key(s: &Vec<(u64, u64)>, k: u64) -> (r: Option<usize>)
    ensures
        match r {
            Some(i) => i < s@.len() && s@[i as int].0 == k && key_index(s@, k) == Some(i as int),
            None => key_index(s@, k) is None,
        },
{
    let mut i: usize = 0;
    while i < s.len()
        invariant
            i <= s@.len(),
            forall|j: int| 0 <= j < i ==> s@[j].0 != k,
        decreases s@.len() - i,
    {
        if s[i].0 == k {
            proof {
                lemma_key_index_first(s@, k, i as int);
            }
            return Some(i);
        }
        i = i + 1;
    }
    None
}

/// `lower_bound` splits a sorted sequence into entries below `k` and
/// entries at or above it.
proof fn lemma_lower_bound(s: Seq<(u64, u64)>, k: u64, i: int)
    requires
        0 <= i <= s.len(),
        sorted_by_invitee(s),
        forall|j: int| 0 <= j < i ==> s[j].0 < k,
    ensures
        i <= lower_bound(s, k, i) <= s.len(),
        forall|j: int| 0 <= j < lower_bound(s, k, i) ==> s[j].0 < k,
        forall|j: int| lower_bound(s, k, i) <= j < s.len() ==> s[j].0 >= k,
    decreases s.len() - i,
{
    if i >= s.len() || s[i].0 >= k {
        assert forall|j: int| i <= j < s.len() implies s[j].0 >= k by {
            if j > i {
                assert(s[i].0 < s[j].0);
            }
        }
    } else {
        lemma_lower_bound(s, k, i + 1);
    }
}

/// Takes `invitee` off `inviter`'s pending list in `pending`; with
/// `now` given, only if that invite has run out by then.
fn remove_pending(pending: &mut HashMap<u64, Vec<(u64, u64)>>, inviter: u64, invitee: u64, now: Option<u64>) -> (r: bool)
    ensures
        ({
            let expected = match now {
                Some(t) => take_timed_out(lists_view(old(pending)@), inviter, invitee, t),
                None => take_pending(lists_view(old(pending)@), inviter, invitee),
            };
            match expected {
                Some(p2) => r && lists_view(final(pending)@) == p2,
                None => !r && lists_view(final(pending)@) == lists_view(old(pending)@),
            }
        }),
{
    let ghost p0 = lists_view(pending@);
    match pending.remove(&inviter) {
        None => {
            assert(lists_view(pending@) =~= p0);
            false
        },
        Some(list) => {
            let mut list = list;
            assert(p0[inviter] == list@);
            match find_key(&list, invitee) {
                None => {
                    pending.insert(inviter, list);
                    assert(lists_view(pending@) =~= p0);
                    false
                },
                Some(i) => {
                    let keep = match now {
                        Some(t) => list[i].1 > t,
                        None => false,
                    };
                    if keep {
                        pending.insert(inviter, list);
                        assert(lists_view(pending@) =~= p0);
                        return false;
                    }
                    let _gone = list.swap_remove(i);
                    if list.len() > 0 {
                        pending.insert(inviter, list);
                        assert(lists_view(pending@) =~= p0.insert(inviter, list@));
                    } else {
                        assert(lists_view(pending@) =~= p0.remove(inviter));
                    }
                    true
                },
            }
        },
    }
}

/// Answering an invite right after it was made undoes it: the invitee's
/// answer finds the inviter, and the open invites and pending lists are
/// back to what they were before the invite (for an invitee that had no
/// open invite and was not on the inviter's pending list, which is not
/// empty when present).
pub proof fn lemma_invite_then_answer(
    invites: Seq<(u64, u64)>,
    p: Map<u64, Seq<(u64, u64)>>,
    inviter: u64,
    invitee: u64,
    deadline: u64,
)
    requires
        sorted_by_invitee(invites),
        key_index(invites, invitee) is None,
        p.contains_key(inviter) ==> key_index(p[inviter], invitee) is None && p[inviter].len() > 0,
    ensures
        ({
            let pos = lower_bound(invites, invitee, 0);
            let invites2 = invites.insert(pos, (invitee, inviter));
            let old_list = if p.contains_key(inviter) {
                p[inviter]
            } else {
                Seq::<(u64, u64)>::empty()
            };
            let p2 = p.insert(inviter, old_list.push((invitee, deadline)));
            &&& key_index(invites2, invitee) == Some(pos)
            &&& invites2[pos].1 == inviter
            &&& invites2.remove(pos) == invites
            &&& take_pending(p2, inviter, invitee) == Some(p)
        }),
{
    let pos = lower_bound(invites, invitee, 0);
    lemma_lower_bound(invites, invitee, 0);
    let invites2 = invites.insert(pos, (invitee, inviter));
    assert forall|j: int| 0 <= j < pos implies invites2[j].0 != invitee by {
        assert(invites2[j] == invites[j]);
    }
    lemma_key_index_first(invites2, invitee, pos);
    assert(invites2.remove(pos) =~= invites);
    let old_list = if p.contains_key(inviter) { p[inviter] } else { Seq::<(u64, u64)>::empty() };
    let list2 = old_list.push((invitee, deadline));
    let p2 = p.insert(inviter, list2);
    let last = old_list.len() as int;
    assert forall|j: int| 0 <= j < last implies list2[j].0 != invitee by {
        if p.contains_key(inviter) {
            if old_list[j].0 == invitee {
                assert(exists|i: int| 0 <= i < old_list.len() && old_list[i].0 == invitee);
            }
        }
    }
    lemma_key_index_first(list2, invitee, last);
    assert(swap_removed(list2, last) =~= old_list);
    assert(take_pending(p2, inviter, invitee) == Some(if old_list.len() == 0 { p2.remove(inviter) } else { p2.insert(inviter, old_list) }));
    if old_list.len() == 0 {
        assert(p2.remove(inviter) =~= p);
    } else {
        assert(p2.insert(inviter, old_list) =~= p);
    }
}

/// No inviter has an empty pending list.
pub open spec fn no_empty_lists(p: Map<u64, Seq<(u64, u64)>>) -> bool {
    forall|k: u64| #[trigger] p.contains_key(k) ==> p[k].len() > 0
}

/// Taking an entry off a pending list never leaves an empty list behind.
pub proof fn lemma_take_pending_no_empty_lists(p: Map<u64, Seq<(u64, u64)>>, inviter: u64, invitee: u64)
    requires
        no_empty_lists(p),
    ensures
        take_pending(p, inviter, invitee) matches Some(p2) ==> no_empty_lists(p2),
{
}

/// Sweeping never leaves an empty pending list behind.
pub proof fn lemma_sweep_no_empty_lists(invites: Seq<(u64, u64)>, p: Map<u64, Seq<(u64, u64)>>, now: u64)
    requires
        no_empty_lists(p),
    ensures
        no_empty_lists(sweep_spec(invites, p, now).0),
    decreases invites.len(),
{
    if invites.len() > 0 {
        lemma_sweep_no_empty_lists(invites.drop_last(), p, now);
        let prev = sweep_spec(invites.drop_last(), p, now);
        let (invitee, inviter) = invites.last();
        lemma_take_pending_no_empty_lists(prev.0, inviter, invitee);
    }
}

/// Every pending invite runs out after `now`.
pub open spec fn all_pending_after(p: Map<u64, Seq<(u64, u64)>>, now: u64) -> bool {
    forall|k: u64, i: int| #[trigger] p.contains_key(k) && 0 <= i < p[k].len() ==> now < #[trigger] p[k][i].1
}

/// A sweep made before any invite has run out changes nothing and reports
/// nothing.
pub proof fn lemma_sweep_before_deadlines(invites: Seq<(u64, u64)>, p: Map<u64, Seq<(u64, u64)>>, now: u64)
    requires
        all_pending_after(p, now),
    ensures
        sweep_spec(invites, p, now) == (p, Seq::<(u64, u64)>::empty()),
    decreases invites.len(),
{
    if invites.len() > 0 {
        lemma_sweep_before_deadlines(invites.drop_last(), p, now);
        let (invitee, inviter) = invites.last();
        if p.contains_key(inviter) && key_index(p[inviter], invitee) is Some {
            let i = key_index(p[inviter], invitee)->0;
            lemma_key_index(p[inviter], invitee);
            assert(now < p[inviter][i].1);
        }
    }
}

/// Once an invite is answered, the invitee has no open invite left.
pub proof fn lemma_answer_clears_invite(invites: Seq<(u64, u64)>, entity: u64)
    requires
        sorted_by_invitee(invites),
        key_index(invites, entity) is Some,
    ensures
        key_index(invites.remove(key_index(invites, entity)->0), entity) is None,
{
    let i = key_index(invites, entity)->0;
    let r = invites.remove(i);
    if exists|j: int| 0 <= j < r.len() && r[j].0 == entity {
        let j = choose|j: int| 0 <= j < r.len() && r[j].0 == entity;
        if j < i {
            assert(r[j] == invites[j]);
            assert(invites[j].0 < invites[i].0);
        } else {
            assert(r[j] == invites[j + 1]);
            assert(invites[i].0 < invites[j + 1].0);
        }
    }
}

impl GroupInvites {
    /// The open invites as (invitee, inviter) pairs, sorted by invitee.
    pub closed spec fn invites_view(&self) -> Seq<(u64, u64)> {
        self.invites@
    }

    /// Each inviter's pending (invitee, deadline) list.
    pub closed spec fn pending_view(&self) -> Map<u64, Seq<(u64, u64)>> {
        lists_view(self.pending@)
    }

    #[verifier::type_invariant]
    spec fn well_formed(self) -> bool {
        sorted_by_invitee(self.invites@)
    }

    /// No open invitations.
    pub fn new() -> (g: GroupInvites)
        ensures
            g.invites_view() == Seq::<(u64, u64)>::empty(),
            g.pending_view() == Map::<u64, Seq<(u64, u64)>>::empty(),
    {
        let g = GroupInvites { invites: Vec::new(), pending: HashMap::new() };
        assert(g.pending_view() =~= Map::<u64, Seq<(u64, u64)>>::empty());
        g
    }

    /// The number of invites `inviter` has open.
    pub fn pending_len(&self, inviter: u64) -> (n: usize)
        ensures
            n == pending_count(self.pending_view(), inviter),
    {
        match self.pending.get(&inviter) {
            Some(list) => list.len(),
            None => 0,
        }
    }

    /// Answers an invitation from `inviter`. When the invite goes out it is
    /// recorded for the invitee and added to the inviter's pending list,
    /// running out `INVITE_TIMEOUT_MS` after `now`; otherwise nothing
    /// changes.
    pub fn invite(&mut self, inviter: u64, facts: InviteFacts, max_group_size: u32, now: u64) -> (r: InviteOutcome)
        requires
            now <= u64::MAX - INVITE_TIMEOUT_MS,
        ensures
            r == invite_outcome(inviter, facts, old(self).invites_view(), old(self).pending_view(), max_group_size),
            (r == InviteOutcome::SentToClient || r == InviteOutcome::SentToAgent) ==> {
                let invitee = facts.invitee->0;
                let old_list = if old(self).pending_view().contains_key(inviter) {
                    old(self).pending_view()[inviter]
                } else {
                    Seq::<(u64, u64)>::empty()
                };
                &&& final(self).invites_view() == old(self).invites_view().insert(
                    lower_bound(old(self).invites_view(), invitee, 0),
                    (invitee, inviter),
                )
                &&& final(self).pending_view() == old(self).pending_view().insert(
                    inviter,
                    old_list.push((invitee, (now + INVITE_TIMEOUT_MS) as u64)),
                )
            },
            !(r == InviteOutcome::SentToClient || r == InviteOutcome::SentToAgent) ==> final(self).invites_view()
                == old(self).invites_view() && final(self).pending_view() == old(self).pending_view(),
    {
        proof {
            use_type_invariant(&*self);
        }
        let invitee = match facts.invitee {
            Some(e) => e,
            None => return InviteOutcome::TargetMissing,
        };
        let self_invite = match facts.inviter_uid {
            Some(u) => u == facts.target_uid,
            None => false,
        };
        if self_invite {
            return InviteOutcome::SelfInvite;
        }
        let (already_in_group, group_size) = match facts.inviter_group {
            Some(g) => if g.leader == inviter {
                (facts.invitee_group == Some(g.group), g.num_members as u64)
            } else {
                (false, 1u64)
            },
            None => (false, 1u64),
        };
        if already_in_group {
            return InviteOutcome::AlreadyInGroup;
        }
        let pending_count = self.pending_len(inviter) as u128;
        if (group_size as u128) + pending_count >= max_group_size as u128 {
            return InviteOutcome::GroupFull;
        }
        if find_key(&self.invites, invitee).is_some() {
            return InviteOutcome::AlreadyInvited;
        }
        let outcome = if facts.invitee_has_stream && facts.inviter_uid.is_some() {
            InviteOutcome::SentToClient
        } else if facts.invitee_is_agent {
            InviteOutcome::SentToAgent
        } else {
            return InviteOutcome::NotPlayerOrNpc;
        };
        let mut p: usize = 0;
        while p < self.invites.len() && self.invites[p].0 < invitee
            invariant
                p <= self.invites@.len(),
                sorted_by_invitee(self.invites@),
                forall|j: int| 0 <= j < p ==> self.invites@[j].0 < invitee,
                lower_bound(self.invites@, invitee, 0) == lower_bound(self.invites@, invitee, p as int),
            decreases self.invites@.len() - p,
        {
            p = p + 1;
        }
        proof {
            lemma_lower_bound(self.invites@, invitee, 0);
            assert(key_index(self.invites@, invitee) is None);
            assert forall|j: int| p <= j < self.invites@.len() implies self.invites@[j].0 > invitee by {
                if self.invites@[j].0 == invitee {
                    assert(exists|i: int| 0 <= i < self.invites@.len() && self.invites@[i].0 == invitee);
                }
            }
        }
        let mut invites = Vec::new();
        std::mem::swap(&mut invites, &mut self.invites);
        invites.insert(p, (invitee, inviter));
        proof {
            assert(sorted_by_invitee(invites@)) by {
                assert forall|i: int, j: int| 0 <= i < j < invites@.len() implies invites@[i].0 < invites@[j].0 by {
                }
            }
        }
        self.invites = invites;
        let ghost p0 = lists_view(self.pending@);
        let mut pending = HashMap::new();
        std::mem::swap(&mut pending, &mut self.pending);
        let list = match pending.remove(&inviter) {
            Some(l) => l,
            None => Vec::new(),
        };
        let mut list = list;
        list.push((invitee, now + INVITE_TIMEOUT_MS));
        pending.insert(inviter, list);
        proof {
            let old_list = if p0.contains_key(inviter) { p0[inviter] } else { Seq::<(u64, u64)>::empty() };
            assert(lists_view(pending@) =~= p0.insert(inviter, old_list.push((invitee, (now + INVITE_TIMEOUT_MS) as u64))));
        }
        self.pending = pending;
        outcome
    }

    /// Takes `entity`'s open invite away (the invitee accepted or declined
    /// it) together with the inviter's pending entry for it, and returns the
    /// inviter. Returns `None` when there was no invite, or when the inviter
    /// had no pending entry for it; the invite itself is removed either way.
    pub fn answer_invite(&mut self, entity: u64) -> (r: Option<u64>)
        ensures
            match key_index(old(self).invites_view(), entity) {
                Some(i) => {
                    let inviter = old(self).invites_view()[i].1;
                    &&& final(self).invites_view() == old(self).invites_view().remove(i)
                    &&& match take_pending(old(self).pending_view(), inviter, entity) {
                        Some(p2) => r == Some(inviter) && final(self).pending_view() == p2,
                        None => r is None && final(self).pending_view() == old(self).pending_view(),
                    }
                },
                None => r is None && final(self).invites_view() == old(self).invites_view()
                    && final(self).pending_view() == old(self).pending_view(),
            },
    {
        proof {
            use_type_invariant(&*self);
        }
        match find_key(&self.invites, entity) {
            None => None,
            Some(i) => {
                let mut invites = Vec::new();
                std::mem::swap(&mut invites, &mut self.invites);
                let ghost before = invites@;
                let (_invitee, inviter) = invites.remove(i);
                proof {
                    assert forall|a: int, b: int| 0 <= a < b < invites@.len() implies invites@[a].0 < invites@[b].0 by {
                        let oa = if a < i { a } else { a + 1 };
                        let ob = if b < i { b } else { b + 1 };
                        assert(invites@[a] == before[oa]);
                        assert(invites@[b] == before[ob]);
                    }
                }
                self.invites = invites;
                let mut pending = HashMap::new();
                std::mem::swap(&mut pending, &mut self.pending);
                let found = remove_pending(&mut pending, inviter, entity, None);
                self.pending = pending;
                if found {
                    Some(inviter)
                } else {
                    None
                }
            },
        }
    }

    /// Removes every invite that has run out by `now`: each is taken off
    /// its inviter's pending list and the invite itself is dropped. Returns
    /// the run-out invites as (invitee, inviter) pairs, in invitee order, so
    /// that each inviter can be told.
    pub fn remove_timed_out(&mut self, now: u64) -> (r: Vec<(u64, u64)>)
        ensures
            r@ == sweep_spec(old(self).invites_view(), old(self).pending_view(), now).1,
            final(self).pending_view() == sweep_spec(old(self).invites_view(), old(self).pending_view(), now).0,
            final(self).invites_view() == old(self).invites_view().filter(
                |e: (u64, u64)| !r@.contains(e),
            ),
    {
        proof {
            use_type_invariant(&*self);
        }
        let ghost inv0 = self.invites@;
        let ghost p0 = lists_view(self.pending@);
        let mut pending = HashMap::new();
        std::mem::swap(&mut pending, &mut self.pending);
        let mut timed_out: Vec<(u64, u64)> = Vec::new();
        let mut i: usize = 0;
        while i < self.invites.len()
            invariant
                i <= self.invites@.len(),
                self.invites@ == inv0,
                sorted_by_invitee(self.invites@),
                (lists_view(pending@), timed_out@) == sweep_spec(inv0.take(i as int), p0, now),
            decreases self.invites@.len() - i,
        {
            proof {
                assert(inv0.take(i + 1).drop_last() =~= inv0.take(i as int));
            }
            let (invitee, inviter) = self.invites[i];
            if remove_pending(&mut pending, inviter, invitee, Some(now)) {
                timed_out.push((invitee, inviter));
            }
            i = i + 1;
        }
        self.pending = pending;
        proof {
            assert(inv0.take(inv0.len() as int) =~= inv0);
        }
        let mut kept: Vec<(u64, u64)> = Vec::new();
        let mut j: usize = 0;
        while j < self.invites.len()
            invariant
                j <= self.invites@.len(),
                self.invites@ == inv0,
                sorted_by_invitee(self.invites@),
                kept@ == inv0.take(j as int).filter(|e: (u64, u64)| !timed_out@.contains(e)),
                sorted_by_invitee(kept@),
                forall|a: int| 0 <= a < kept@.len() ==> exists|b: int| 0 <= b < j && #[trigger] kept@[a] == inv0[b],
            decreases self.invites@.len() - j,
        {
            let e = self.invites[j];
            let mut found = false;
            let mut t: usize = 0;
            while t < timed_out.len()
                invariant
                    t <= timed_out@.len(),
                    found == (exists|u: int| 0 <= u < t && timed_out@[u] == e),
                decreases timed_out@.len() - t,
            {
                if timed_out[t].0 == e.0 && timed_out[t].1 == e.1 {
                    found = true;
                }
                t = t + 1;
            }
            proof {
                assert(inv0.take(j + 1).drop_last() =~= inv0.take(j as int));
                assert(found == timed_out@.contains(e));
                reveal(Seq::filter);
            }
            if !found {
                proof {
                    assert forall|a: int| 0 <= a < kept@.len() implies kept@[a].0 < e.0 by {
                        let b = choose|b: int| 0 <= b < j && kept@[a] == inv0[b];
                    }
                }
                kept.push(e);
            }
            j = j + 1;
        }
        proof {
            assert(inv0.take(inv0.len() as int) =~= inv0);
        }
        self.invites = kept;
        timed_out
    }

    /// The inviter of `invitee`'s open invite, if it has one.
    pub fn inviter_of(&self, invitee: u64) -> (r: Option<u64>)
        ensures
            match key_index(self.invites_view(), invitee) {
                Some(i) => r == Some(self.invites_view()[i].1),
                None => r is None,
            },
    {
        match find_key(&self.invites, invitee) {
            Some(i) => Some(self.invites[i].1),
            None => None,
        }
    }
}

} // verus!
