//! Approvals of the blocks at one height. Each account has at most one of them.

use crate::clock::{Instant, Utc};
use crate::model::{AccountId, Approval, ApprovalInner, ApprovalStake, Balance, BlockHeight};
use crate::stakes::{each_staked_once, has_stake, lemma_stake_map_domain, stake_map, totals_fit};
use crate::stakes::{stake_sum, Epoch};
use crate::tracker::{law_quorums_overlap, DoomslugApprovalsTracker, TrackerState};
use crate::tracker::{DoomslugBlockProductionReadiness, DoomslugThresholdMode};
use vstd::hash_map::StringHashMap;
use vstd::prelude::*;

verus! {

/// What is known of the approvals of the blocks at one height.
#[verifier::ext_equal]
pub ghost struct HeightState {
    /// The approvals of each block, which is known by what approvals say of its parent.
    pub trackers: Map<ApprovalInner, TrackerState>,
    /// What the last approval of each account said.
    pub last: Map<Seq<char>, ApprovalInner>,
}

impl HeightState {
    /// A height that nobody has approved a block at.
    pub open spec fn empty() -> HeightState {
        HeightState { trackers: Map::empty(), last: Map::empty() }
    }

    /// The state after the approval of an account was withdrawn. A block without approvals is
    /// forgotten.
    pub open spec fn withdrawn(self, account: Seq<char>) -> HeightState {
        if self.last.contains_key(account) && self.trackers.contains_key(self.last[account]) {
            let inner = self.last[account];
            let tracker = self.trackers[inner].withdrawn(account);
            HeightState {
                trackers: if tracker.witness.is_empty() {
                    self.trackers.remove(inner)
                } else {
                    self.trackers.insert(inner, tracker)
                },
                ..self
            }
        } else {
            self
        }
    }

    /// The approvals of a block so far: none if it is not known.
    pub open spec fn tracker_or_new(
        self,
        inner: ApprovalInner,
        stakes: Map<Seq<char>, (Balance, Balance)>,
        mode: DoomslugThresholdMode,
    ) -> TrackerState {
        if self.trackers.contains_key(inner) {
            self.trackers[inner]
        } else {
            TrackerState::opened(stakes, mode)
        }
    }

    /// Whether an approval opens a block: it comes from an account with a stake, and once the
    /// earlier approval of that account is withdrawn, the block is not known.
    pub open spec fn opens_tracker(
        self,
        approval: Approval,
        stakes: Map<Seq<char>, (Balance, Balance)>,
    ) -> bool {
        &&& stakes.contains_key(approval.account_id@)
        &&& !self.withdrawn(approval.account_id@).trackers.contains_key(approval.inner)
    }

    /// The approvals of the block that an approval is for, after it came.
    pub open spec fn tracker_after(
        self,
        approval: Approval,
        stakes: Map<Seq<char>, (Balance, Balance)>,
        mode: DoomslugThresholdMode,
        now: Instant,
        utc: Utc,
    ) -> TrackerState {
        self.withdrawn(approval.account_id@).tracker_or_new(
            approval.inner,
            stakes,
            mode,
        ).recorded(approval, utc).checked(now)
    }

    /// The state after an approval came. It replaces the earlier one of the account, and is itself
    /// kept only if the account has a stake.
    pub open spec fn processed(
        self,
        approval: Approval,
        stakes: Map<Seq<char>, (Balance, Balance)>,
        mode: DoomslugThresholdMode,
        now: Instant,
        utc: Utc,
    ) -> HeightState {
        let before = self.withdrawn(approval.account_id@);
        if stakes.contains_key(approval.account_id@) {
            HeightState {
                trackers: before.trackers.insert(
                    approval.inner,
                    self.tracker_after(approval, stakes, mode, now, utc),
                ),
                last: before.last.insert(approval.account_id@, approval.inner),
            }
        } else {
            before
        }
    }

    /// Whether the block that an approval is for can be produced after it came.
    pub open spec fn process_result(
        self,
        approval: Approval,
        stakes: Map<Seq<char>, (Balance, Balance)>,
        mode: DoomslugThresholdMode,
        now: Instant,
        utc: Utc,
    ) -> DoomslugBlockProductionReadiness {
        if stakes.contains_key(approval.account_id@) {
            self.tracker_after(approval, stakes, mode, now, utc).readiness()
        } else {
            DoomslugBlockProductionReadiness::NotReady
        }
    }
}

impl HeightState {
    /// Whether a block has an approval of an account.
    pub open spec fn approves(self, inner: ApprovalInner, account: Seq<char>) -> bool {
        self.trackers.contains_key(inner) && self.trackers[inner].witness.contains_key(account)
    }

    /// The approval of an account that is kept, and when it came.
    pub open spec fn kept(self, account: Seq<char>) -> Option<(Approval, Utc)> {
        if self.last.contains_key(account) && self.approves(self.last[account], account) {
            Some(self.trackers[self.last[account]].witness[account])
        } else {
            None
        }
    }

    /// Whether all approvals are for blocks at `height`.
    pub open spec fn is_for(self, height: BlockHeight) -> bool {
        forall|inner: ApprovalInner, account: Seq<char>| #[trigger]
            self.approves(inner, account) ==> self.trackers[inner].witness[account].0.target_height
                == height
    }

    /// Whether all blocks at the height are held to the given stakes and threshold.
    pub open spec fn held_to(
        self,
        stakes: Map<Seq<char>, (Balance, Balance)>,
        mode: DoomslugThresholdMode,
    ) -> bool {
        forall|inner: ApprovalInner| #[trigger]
            self.trackers.contains_key(inner) ==> self.trackers[inner].stakes == stakes
                && self.trackers[inner].mode == mode
    }

    /// Every block that is known has an approval. Each approval is filed under what it says of the
    /// parent and under its account, and is what that account said last.
    pub open spec fn consistent(self) -> bool {
        &&& forall|inner: ApprovalInner| #[trigger]
            self.trackers.contains_key(inner) ==> self.trackers[inner].well_formed()
                && !self.trackers[inner].witness.is_empty()
        &&& forall|inner: ApprovalInner, account: Seq<char>| #[trigger]
            self.approves(inner, account) ==> {
                &&& self.last.contains_key(account)
                &&& self.last[account] == inner
                &&& self.trackers[inner].witness[account].0.inner == inner
            }
    }
}

/// Each account has at most one approval at a height: no two blocks have approvals of the same
/// account, and the one there is has been given by that account.
pub proof fn law_one_approval_per_account(
    s: HeightState,
    inner1: ApprovalInner,
    inner2: ApprovalInner,
    account: Seq<char>,
)
    requires
        s.consistent(),
        s.approves(inner1, account),
        s.approves(inner2, account),
    ensures
        inner1 == inner2,
        s.kept(account) == Some(s.trackers[inner1].witness[account]),
        s.trackers[inner1].witness[account].0.account_id@ == account,
{
}

/// A withdrawal leaves no approval of the account and keeps those of all others.
proof fn lemma_withdrawn(s: HeightState, account: Seq<char>)
    requires
        s.consistent(),
    ensures
        s.withdrawn(account).consistent(),
        s.withdrawn(account).last == s.last,
        forall|inner: ApprovalInner| !#[trigger] s.withdrawn(account).approves(inner, account),
        forall|inner: ApprovalInner, other: Seq<char>|
            other != account ==> #[trigger] s.withdrawn(account).approves(inner, other)
                == s.approves(inner, other),
        forall|inner: ApprovalInner, other: Seq<char>| #[trigger]
            s.withdrawn(account).approves(inner, other)
                ==> s.withdrawn(account).trackers[inner].witness[other]
                == s.trackers[inner].witness[other],
{
    let after = s.withdrawn(account);
    if s.last.contains_key(account) && s.trackers.contains_key(s.last[account]) {
        let inner = s.last[account];
        let tracker = s.trackers[inner].withdrawn(account);
        assert forall|other: Seq<char>| other != account && s.approves(inner, other) implies
            !tracker.witness.is_empty() by {
            assert(tracker.witness.dom().contains(other));
        }
        assert forall|i: ApprovalInner, other: Seq<char>| other != account implies #[trigger]
        after.approves(i, other) == s.approves(i, other) by {
            assert(i == inner && s.approves(inner, other) ==> !tracker.witness.is_empty());
        }
        assert forall|i: ApprovalInner| !#[trigger] after.approves(i, account) by {
            if after.approves(i, account) && i != inner {
                assert(s.approves(i, account));
            }
        }
        assert forall|i: ApprovalInner, other: Seq<char>| #[trigger]
            after.approves(i, other) implies after.trackers[i].witness[other]
            == s.trackers[i].witness[other] && s.approves(i, other) by {
        }
    } else {
        assert forall|i: ApprovalInner| !#[trigger] after.approves(i, account) by {
            if s.approves(i, account) {
                assert(s.last[account] == i);
            }
        }
    }
}

/// Processing an approval keeps the state consistent.
pub proof fn law_processed_is_consistent(
    s: HeightState,
    approval: Approval,
    stakes: Map<Seq<char>, (Balance, Balance)>,
    mode: DoomslugThresholdMode,
    now: Instant,
    utc: Utc,
)
    requires
        s.consistent(),
        stakes.dom().finite(),
    ensures
        s.processed(approval, stakes, mode, now, utc).consistent(),
{
    let account = approval.account_id@;
    let before = s.withdrawn(account);
    let after = s.processed(approval, stakes, mode, now, utc);
    lemma_withdrawn(s, account);
    if stakes.contains_key(account) {
        let tracker = after.trackers[approval.inner];
        let previous = before.tracker_or_new(approval.inner, stakes, mode);
        assert(!previous.witness.contains_key(account)) by {
            assert(!before.approves(approval.inner, account));
        }
        assert(tracker.witness == previous.witness.insert(account, (approval, utc)));
        assert(tracker.witness.dom().contains(account));
        assert(previous.well_formed());
        assert forall|inner: ApprovalInner, other: Seq<char>| #[trigger]
            after.approves(inner, other) implies {
            &&& after.last.contains_key(other)
            &&& after.last[other] == inner
            &&& after.trackers[inner].witness[other].0.inner == inner
        } by {
            if other == account {
                assert(!before.approves(inner, account));
            } else {
                assert(before.approves(inner, other));
            }
        }
    }
}

/// Processing an approval for a height keeps the approvals of that height for it.
pub proof fn law_processed_is_for_height(
    s: HeightState,
    approval: Approval,
    stakes: Map<Seq<char>, (Balance, Balance)>,
    mode: DoomslugThresholdMode,
    now: Instant,
    utc: Utc,
)
    requires
        s.consistent(),
        s.is_for(approval.target_height),
    ensures
        s.processed(approval, stakes, mode, now, utc).is_for(approval.target_height),
{
    let account = approval.account_id@;
    let before = s.withdrawn(account);
    let after = s.processed(approval, stakes, mode, now, utc);
    lemma_withdrawn(s, account);
    assert forall|inner: ApprovalInner, other: Seq<char>| #[trigger]
        after.approves(inner, other) implies after.trackers[inner].witness[other].0.target_height
        == approval.target_height by {
        if other == account {
            assert(!before.approves(inner, other));
        } else {
            assert(before.approves(inner, other));
            assert(s.approves(inner, other));
        }
    }
}

/// An approval of an account with a stake replaces the one that was kept, and one of an account
/// without a stake is dropped along with it. The approvals of all other accounts stay.
pub proof fn law_last_approval_is_kept(
    s: HeightState,
    approval: Approval,
    stakes: Map<Seq<char>, (Balance, Balance)>,
    mode: DoomslugThresholdMode,
    now: Instant,
    utc: Utc,
    other: Seq<char>,
)
    requires
        s.consistent(),
        other != approval.account_id@,
    ensures
        s.processed(approval, stakes, mode, now, utc).kept(approval.account_id@) == (
        if stakes.contains_key(approval.account_id@) {
            Some((approval, utc))
        } else {
            None
        }),
        s.processed(approval, stakes, mode, now, utc).kept(other) == s.kept(other),
{
    let account = approval.account_id@;
    let before = s.withdrawn(account);
    let after = s.processed(approval, stakes, mode, now, utc);
    lemma_withdrawn(s, account);
    assert(!before.approves(approval.inner, account));
    if before.last.contains_key(account) {
        assert(!before.approves(before.last[account], account));
    }
    if stakes.contains_key(account) {
        assert(after.approves(after.last[account], account));
    }
    if s.last.contains_key(other) {
        let inner = s.last[other];
        assert(before.approves(inner, other) == s.approves(inner, other));
        assert(after.approves(inner, other) == before.approves(inner, other));
    }
}

/// The block that an approval of an account with a stake is for has, after it came, the approvals that
/// the other accounts gave it and this one. If there are others, it keeps its stakes, its threshold and
/// the moment since which it is ready. Otherwise it is opened with those that the approval came with.
pub proof fn law_block_of_approval(
    s: HeightState,
    approval: Approval,
    stakes: Map<Seq<char>, (Balance, Balance)>,
    mode: DoomslugThresholdMode,
    now: Instant,
    utc: Utc,
    others: Map<Seq<char>, (Approval, Utc)>,
)
    requires
        s.consistent(),
        stakes.contains_key(approval.account_id@),
        others == (if s.trackers.contains_key(approval.inner) {
            s.trackers[approval.inner].witness.remove(approval.account_id@)
        } else {
            Map::empty()
        }),
    ensures
        ({
            let after = s.processed(approval, stakes, mode, now, utc);
            let old_block = s.trackers[approval.inner];
            let block = after.trackers[approval.inner];
            &&& after.trackers.contains_key(approval.inner)
            &&& block.witness == others.insert(approval.account_id@, (approval, utc))
            &&& others != Map::<Seq<char>, (Approval, Utc)>::empty() ==> {
                &&& block.stakes == old_block.stakes
                &&& block.mode == old_block.mode
                &&& old_block.ready_since is Some ==> block.ready_since == old_block.ready_since
            }
            &&& others == Map::<Seq<char>, (Approval, Utc)>::empty() ==> {
                &&& block.stakes == stakes
                &&& block.mode == mode
            }
            &&& others == Map::<Seq<char>, (Approval, Utc)>::empty() || old_block.ready_since is None
                ==> block.ready_since == (if block.passes_threshold() {
                Some(now)
            } else {
                None
            })
            &&& after.last == s.last.insert(approval.account_id@, approval.inner)
        }),
{
    let account = approval.account_id@;
    let before = s.withdrawn(account);
    lemma_withdrawn(s, account);
    assert(!before.approves(approval.inner, account));
    if s.trackers.contains_key(approval.inner) {
        let old_block = s.trackers[approval.inner];
        if old_block.witness.contains_key(account) {
            assert(s.approves(approval.inner, account));
        } else {
            assert(old_block.witness.remove(account) =~= old_block.witness);
        }
        if others =~= Map::empty() {
            assert(old_block.withdrawn(account).witness =~= Map::empty());
            assert(old_block.witness.contains_key(account)) by {
                if !old_block.witness.contains_key(account) {
                    assert(old_block.witness =~= Map::empty());
                }
            }
        } else {
            assert(!others.is_empty()) by {
                if others.dom() =~= Set::empty() {
                    assert(others =~= Map::empty());
                }
            }
        }
    }
    assert(s.processed(approval, stakes, mode, now, utc).trackers[approval.inner].witness
        =~= others.insert(account, (approval, utc)));
}

/// The answer to an approval of an account with a stake says whether the block that it is for is ready
/// after it came: in the state after it, the block has approvals of more than two thirds of the stake
/// that it is held to, in both epochs as far as there is any, or needs none. It is ready since the
/// moment that is then known, which is the one that was known before if others approve it too.
pub proof fn law_answer_to_approval(
    s: HeightState,
    approval: Approval,
    stakes: Map<Seq<char>, (Balance, Balance)>,
    mode: DoomslugThresholdMode,
    now: Instant,
    utc: Utc,
    other: Seq<char>,
)
    requires
        s.consistent(),
        stakes.contains_key(approval.account_id@),
        other != approval.account_id@,
    ensures
        ({
            let answer = s.process_result(approval, stakes, mode, now, utc);
            let old_block = s.trackers[approval.inner];
            let block = s.processed(approval, stakes, mode, now, utc).trackers[approval.inner];
            let enough = |epoch: Epoch|
                3 * stake_sum(block.stakes, block.witness.dom(), epoch) > 2 * stake_sum(
                    block.stakes,
                    block.stakes.dom(),
                    epoch,
                );
            let nobody = stake_sum(block.stakes, block.stakes.dom(), Epoch::Next) == 0;
            let ready = block.mode == DoomslugThresholdMode::NoApprovals || (enough(Epoch::This) && (
            enough(Epoch::Next) || nobody));
            &&& !ready ==> answer == DoomslugBlockProductionReadiness::NotReady
            &&& ready ==> block.ready_since is Some && answer
                == DoomslugBlockProductionReadiness::ReadySince(block.ready_since->0)
            &&& ready && s.approves(approval.inner, other) && old_block.ready_since is Some
                ==> answer == DoomslugBlockProductionReadiness::ReadySince(old_block.ready_since->0)
            &&& {
                ||| !s.trackers.contains_key(approval.inner)
                ||| old_block.ready_since is None
                ||| forall|a: Seq<char>|
                    a != approval.account_id@ ==> !#[trigger] s.approves(approval.inner, a)
            } ==> {
                &&& ready ==> answer == DoomslugBlockProductionReadiness::ReadySince(now)
                &&& !ready ==> block.ready_since is None
            }
        }),
{
    let others = if s.trackers.contains_key(approval.inner) {
        s.trackers[approval.inner].witness.remove(approval.account_id@)
    } else {
        Map::empty()
    };
    law_block_of_approval(s, approval, stakes, mode, now, utc, others);
    if s.approves(approval.inner, other) {
        assert(others.contains_key(other));
    }
    if others != Map::<Seq<char>, (Approval, Utc)>::empty() {
        let a = choose|a: Seq<char>| #[trigger] others.contains_key(a);
        assert(others.contains_key(a)) by {
            if forall|a: Seq<char>| !#[trigger] others.contains_key(a) {
                assert(others =~= Map::empty());
            }
        }
        assert(s.approves(approval.inner, a));
    }
}

/// The answer to an approval of an account without a stake is that the block is not ready, and what
/// that account said last stays noted.
pub proof fn law_answer_without_stake(
    s: HeightState,
    approval: Approval,
    stakes: Map<Seq<char>, (Balance, Balance)>,
    mode: DoomslugThresholdMode,
    now: Instant,
    utc: Utc,
)
    requires
        !stakes.contains_key(approval.account_id@),
    ensures
        s.process_result(approval, stakes, mode, now, utc)
            == DoomslugBlockProductionReadiness::NotReady,
        s.processed(approval, stakes, mode, now, utc).last == s.last,
{
}

/// All other blocks lose the approval of the account, if they had it, and nothing else. A block that
/// had no other approval is forgotten, and no block appears. Without a stake this holds of the block
/// that the approval is for too.
pub proof fn law_other_blocks_only_lose_the_approval(
    s: HeightState,
    approval: Approval,
    stakes: Map<Seq<char>, (Balance, Balance)>,
    mode: DoomslugThresholdMode,
    now: Instant,
    utc: Utc,
    inner: ApprovalInner,
)
    requires
        s.consistent(),
        inner != approval.inner || !stakes.contains_key(approval.account_id@),
    ensures
        ({
            let after = s.processed(approval, stakes, mode, now, utc);
            let old_block = s.trackers[inner];
            let rest = old_block.witness.remove(approval.account_id@);
            &&& after.trackers.contains_key(inner) <==> s.trackers.contains_key(inner) && rest
                != Map::<Seq<char>, (Approval, Utc)>::empty()
            &&& after.trackers.contains_key(inner) ==> {
                &&& after.trackers[inner].witness == rest
                &&& after.trackers[inner].stakes == old_block.stakes
                &&& after.trackers[inner].mode == old_block.mode
                &&& after.trackers[inner].ready_since == old_block.ready_since
            }
        }),
{
    let account = approval.account_id@;
    if s.trackers.contains_key(inner) {
        let old_block = s.trackers[inner];
        let rest = old_block.witness.remove(account);
        if old_block.witness.contains_key(account) {
            assert(s.approves(inner, account));
        } else {
            assert(rest =~= old_block.witness);
        }
        if rest.is_empty() {
            assert(rest =~= Map::empty());
        }
    }
}

/// As long as approvals come with the same stakes and the same threshold, all blocks at a height are
/// held to them.
pub proof fn law_stakes_stay_the_same(
    s: HeightState,
    approval: Approval,
    stakes: Map<Seq<char>, (Balance, Balance)>,
    mode: DoomslugThresholdMode,
    now: Instant,
    utc: Utc,
)
    requires
        s.held_to(stakes, mode),
    ensures
        HeightState::empty().held_to(stakes, mode),
        s.processed(approval, stakes, mode, now, utc).held_to(stakes, mode),
{
}

/// At most one block at a height can be produced where more than two thirds of the stake have to
/// approve it, as long as the stakes are the same.
pub proof fn law_one_block_per_height(s: HeightState, inner1: ApprovalInner, inner2: ApprovalInner)
    requires
        s.consistent(),
        s.trackers.contains_key(inner1),
        s.trackers.contains_key(inner2),
        s.trackers[inner1].stakes == s.trackers[inner2].stakes,
        s.trackers[inner1].mode == DoomslugThresholdMode::TwoThirds,
        s.trackers[inner2].mode == DoomslugThresholdMode::TwoThirds,
        s.trackers[inner1].passes_threshold(),
        s.trackers[inner2].passes_threshold(),
    ensures
        inner1 == inner2,
{
    if inner1 != inner2 {
        let t1 = s.trackers[inner1];
        let t2 = s.trackers[inner2];
        assert forall|a: Seq<char>| #[trigger] t1.witness.dom().contains(a) implies
            !t2.witness.dom().contains(a) by {
            assert(s.approves(inner1, a));
            if t2.witness.dom().contains(a) {
                assert(s.approves(inner2, a));
            }
        }
        law_quorums_overlap(t1, t2, Epoch::This);
        assert(t1.witness.dom().intersect(t2.witness.dom()) =~= Set::empty());
    }
}

/// Whether a list of trackers has one for `inner`.
spec fn has_tracker(
    list: Seq<(ApprovalInner, DoomslugApprovalsTracker)>,
    inner: ApprovalInner,
) -> bool {
    exists|i: int| 0 <= i < list.len() && (#[trigger] list[i]).0 == inner
}

/// Where a list of trackers has the one for `inner`.
spec fn tracker_index(
    list: Seq<(ApprovalInner, DoomslugApprovalsTracker)>,
    inner: ApprovalInner,
) -> int {
    choose|i: int| 0 <= i < list.len() && (#[trigger] list[i]).0 == inner
}

/// The trackers of a list, by what they track.
spec fn tracker_map(list: Seq<(ApprovalInner, DoomslugApprovalsTracker)>) -> Map<
    ApprovalInner,
    TrackerState,
> {
    Map::new(
        |inner: ApprovalInner| has_tracker(list, inner),
        |inner: ApprovalInner| list[tracker_index(list, inner)].1@,
    )
}

/// Whether no two trackers of a list track the same.
spec fn distinct_trackers(list: Seq<(ApprovalInner, DoomslugApprovalsTracker)>) -> bool {
    forall|i: int, j: int|
        0 <= i < j < list.len() ==> (#[trigger] list[i]).0 != (#[trigger] list[j]).0
}

/// Each tracker of a list is what the list maps its block to.
proof fn lemma_tracker_map_index(list: Seq<(ApprovalInner, DoomslugApprovalsTracker)>, i: int)
    requires
        distinct_trackers(list),
        0 <= i < list.len(),
    ensures
        tracker_map(list).contains_key(list[i].0),
        tracker_map(list)[list[i].0] == list[i].1@,
{
    let inner = list[i].0;
    assert(has_tracker(list, inner));
    let j = tracker_index(list, inner);
    assert(0 <= j < list.len() && list[j].0 == inner);
    assert(i == j);
}

/// A tracker at the end of a list maps its block and no other one.
proof fn lemma_tracker_map_push(
    list: Seq<(ApprovalInner, DoomslugApprovalsTracker)>,
    inner: ApprovalInner,
    tracker: DoomslugApprovalsTracker,
)
    requires
        distinct_trackers(list),
        !tracker_map(list).contains_key(inner),
    ensures
        distinct_trackers(list.push((inner, tracker))),
        tracker_map(list.push((inner, tracker))) == tracker_map(list).insert(inner, tracker@),
{
    let longer = list.push((inner, tracker));
    assert forall|i: int| 0 <= i < list.len() implies (#[trigger] list[i]).0 != inner by {
        lemma_tracker_map_index(list, i);
    }
    assert forall|i: int, j: int| 0 <= i < j < longer.len() implies (#[trigger] longer[i]).0 != (
    #[trigger] longer[j]).0 by {
        assert(longer[i] == list[i]);
        if j < list.len() {
            assert(longer[j] == list[j]);
        }
    }
    let expected = tracker_map(list).insert(inner, tracker@);
    let n = list.len() as int;
    assert(longer[n] == (inner, tracker));
    assert forall|k: ApprovalInner| #[trigger]
        tracker_map(longer).contains_key(k) <==> expected.contains_key(k) by {
        if has_tracker(longer, k) {
            let i = tracker_index(longer, k);
            if i < n {
                assert(list[i].0 == k);
            }
        }
        if has_tracker(list, k) {
            let i = tracker_index(list, k);
            assert(longer[i].0 == k);
        }
        if k == inner {
            assert(longer[n].0 == k);
        }
    }
    assert forall|k: ApprovalInner| tracker_map(longer).contains_key(k) implies #[trigger]
    tracker_map(longer)[k] == expected[k] by {
        let i = tracker_index(longer, k);
        assert(0 <= i < longer.len() && longer[i].0 == k);
        lemma_tracker_map_index(longer, i);
        if i < n {
            lemma_tracker_map_index(list, i);
            assert(longer[i].0 != longer[n].0);
        }
    }
    assert(tracker_map(longer) =~= expected);
}

/// A list without one of its trackers maps all other blocks as before.
proof fn lemma_tracker_map_remove(
    list: Seq<(ApprovalInner, DoomslugApprovalsTracker)>,
    i: int,
)
    requires
        distinct_trackers(list),
        0 <= i < list.len(),
    ensures
        distinct_trackers(list.remove(i)),
        tracker_map(list.remove(i)) == tracker_map(list).remove(list[i].0),
{
    let shorter = list.remove(i);
    let expected = tracker_map(list).remove(list[i].0);
    assert forall|j: int, k: int| 0 <= j < k < shorter.len() implies (#[trigger] shorter[j]).0 != (
    #[trigger] shorter[k]).0 by {
        let j0 = if j < i { j } else { j + 1 };
        let k0 = if k < i { k } else { k + 1 };
        assert(shorter[j] == list[j0] && shorter[k] == list[k0]);
    }
    assert forall|inner: ApprovalInner| #[trigger]
        tracker_map(shorter).contains_key(inner) <==> expected.contains_key(inner) by {
        if has_tracker(shorter, inner) {
            let j = tracker_index(shorter, inner);
            let j0 = if j < i { j } else { j + 1 };
            assert(shorter[j] == list[j0]);
            assert(list[j0].0 == inner);
            assert(list[i].0 != list[j0].0);
        }
        if has_tracker(list, inner) && inner != list[i].0 {
            let j0 = tracker_index(list, inner);
            let j = if j0 < i { j0 } else { j0 - 1 };
            assert(shorter[j] == list[j0]);
        }
    }
    assert forall|inner: ApprovalInner| tracker_map(shorter).contains_key(inner) implies #[trigger]
    tracker_map(shorter)[inner] == expected[inner] by {
        let j = tracker_index(shorter, inner);
        let j0 = if j < i { j } else { j + 1 };
        assert(shorter[j] == list[j0]);
        lemma_tracker_map_index(shorter, j);
        lemma_tracker_map_index(list, j0);
    }
    assert(tracker_map(shorter) =~= expected);
}

/// Approvals can arrive before the corresponding blocks, and we need a meaningful way to keep as
/// many approvals as possible that can be useful in the future, while not allowing an adversary
/// to spam us with invalid approvals.
/// To that extent, for each `account_id` and each `target_height` we keep exactly one approval,
/// whichever came last. We only maintain those for
///  a) `account_id`s that match the corresponding epoch (and for which we can validate a signature)
///  b) `target_height`s for which we produce blocks
///  c) `target_height`s within a meaningful horizon from the current tip.
/// This class is responsible for maintaining witnesses for the blocks, while also ensuring that
/// only one approval per (`account_id`) is kept, and only for `account_id`s that have a stake. We
/// instantiate one such class per height, thus ensuring that only one approval is kept per
/// (`target_height`, `account_id`). `Doomslug` ensures that only instances within the horizon are
/// kept (see `within_horizon`), and the user of the `Doomslug` is responsible for ensuring that only
/// approvals for proper account_ids and heights with valid signatures are provided.
pub struct DoomslugApprovalsTrackersAtHeight {
    approval_trackers: Vec<(ApprovalInner, DoomslugApprovalsTracker)>,
    last_approval_per_account: StringHashMap<ApprovalInner>,
}

impl View for DoomslugApprovalsTrackersAtHeight {
    type V = HeightState;

    closed spec fn view(&self) -> HeightState {
        HeightState {
            trackers: tracker_map(self.approval_trackers@),
            last: self.last_approval_per_account@,
        }
    }
}

impl DoomslugApprovalsTrackersAtHeight {
    /// No block is tracked twice.
    spec fn trackers_wf(&self) -> bool {
        &&& distinct_trackers(self.approval_trackers@)
        &&& forall|i: int|
            0 <= i < self.approval_trackers@.len() ==> (
            #[trigger] self.approval_trackers@[i]).1.wf()
    }

    /// No block is tracked twice, and no account has two approvals.
    pub closed spec fn wf(&self) -> bool {
        &&& self.trackers_wf()
        &&& self@.consistent()
    }

    /// The approvals that are kept are always consistent.
    pub proof fn law_state_is_consistent(&self)
        requires
            self.wf(),
        ensures
            self@.consistent(),
    {
    }

    /// A height that nobody has approved a block at.
    pub fn new() -> (t: DoomslugApprovalsTrackersAtHeight)
        ensures
            t.wf(),
            t@ == HeightState::empty(),
    {
        let t = DoomslugApprovalsTrackersAtHeight {
            approval_trackers: Vec::new(),
            last_approval_per_account: StringHashMap::new(),
        };
        assert(t@.trackers =~= Map::empty());
        t
    }

    /// Takes the tracker of a block out of the list.
    fn take_tracker(&mut self, inner: &ApprovalInner) -> (r: Option<DoomslugApprovalsTracker>)
        requires
            old(self).trackers_wf(),
        ensures
            final(self).trackers_wf(),
            final(self)@.last == old(self)@.last,
            final(self)@.trackers == old(self)@.trackers.remove(*inner),
            match r {
                Some(t) => t.wf() && old(self)@.trackers.contains_key(*inner) && t@
                    == old(self)@.trackers[*inner],
                None => !old(self)@.trackers.contains_key(*inner),
            },
    {
        let mut i: usize = 0;
        while i < self.approval_trackers.len()
            invariant
                self.trackers_wf(),
                *self == *old(self),
                i <= self.approval_trackers@.len(),
                forall|j: int| 0 <= j < i ==> (#[trigger] self.approval_trackers@[j]).0 != *inner,
            decreases self.approval_trackers@.len() - i,
        {
            if self.approval_trackers[i].0.same(inner) {
                let ghost list = self.approval_trackers@;
                proof {
                    lemma_tracker_map_index(list, i as int);
                    lemma_tracker_map_remove(list, i as int);
                }
                let (_, tracker) = self.approval_trackers.remove(i);
                assert forall|j: int| 0 <= j < self.approval_trackers@.len() implies (
                #[trigger] self.approval_trackers@[j]).1.wf() by {
                    let j0 = if j < i { j } else { j + 1 };
                    assert(self.approval_trackers@[j] == list[j0]);
                }
                return Some(tracker);
            }
            i += 1;
        }
        assert(!has_tracker(self.approval_trackers@, *inner));
        assert(self@.trackers.remove(*inner) =~= self@.trackers);
        None
    }

    /// Puts the tracker of a block into the list.
    fn put_tracker(&mut self, inner: ApprovalInner, tracker: DoomslugApprovalsTracker)
        requires
            old(self).trackers_wf(),
            tracker.wf(),
            !old(self)@.trackers.contains_key(inner),
        ensures
            final(self).trackers_wf(),
            final(self)@.last == old(self)@.last,
            final(self)@.trackers == old(self)@.trackers.insert(inner, tracker@),
    {
        let ghost list = self.approval_trackers@;
        proof {
            lemma_tracker_map_push(list, inner, tracker);
        }
        self.approval_trackers.push((inner, tracker));
        assert forall|j: int| 0 <= j < self.approval_trackers@.len() implies (
        #[trigger] self.approval_trackers@[j]).1.wf() by {
            if j < list.len() {
                assert(self.approval_trackers@[j] == list[j]);
            }
        }
    }

    /// Withdraws the approval of an account, and forgets the block if it was the last one.
    fn withdraw_approval(&mut self, account_id: &AccountId)
        requires
            old(self).trackers_wf(),
        ensures
            final(self).trackers_wf(),
            final(self)@ == old(self)@.withdrawn(account_id@),
    {
        let ghost before = self@;
        let last_parent = match self.last_approval_per_account.get(account_id.as_str()) {
            Some(last_parent) => *last_parent,
            None => {
                return ;
            },
        };
        if let Some(mut tracker) = self.take_tracker(&last_parent) {
            tracker.withdraw_approval(account_id);
            if !tracker.is_empty() {
                self.put_tracker(last_parent, tracker);
                assert(before.trackers.remove(last_parent).insert(last_parent, tracker@)
                    =~= before.trackers.insert(last_parent, tracker@));
            }
        } else {
            assert(before.trackers.remove(last_parent) =~= before.trackers);
        }
        assert(self@ =~= before.withdrawn(account_id@));
    }

    /// This method is a wrapper around `DoomslugApprovalsTracker::process_approval`, see comment
    /// above it for more details.
    /// This method has an extra logic that ensures that we only track one approval per `account_id`,
    /// if we already know some other approval for this account, we first withdraw it from the
    /// corresponding tracker, and associate the new approval with the account.
    ///
    /// # Arguments
    /// * `approval` - the approval to be processed
    /// * `stakes`   - all the stakes of all the block producers in the current epoch
    /// * `threshold_mode` - how many approvals are needed to produce a block. Is used to compute
    ///                the return value
    /// * `now`      - the current timestamp
    /// * `utc`      - the current time of day
    ///
    /// # Returns
    /// Same as `DoomslugApprovalsTracker::process_approval`
    pub fn process_approval(
        &mut self,
        approval: &Approval,
        stakes: &[(ApprovalStake, bool)],
        threshold_mode: DoomslugThresholdMode,
        now: Instant,
        utc: Utc,
    ) -> (r: DoomslugBlockProductionReadiness)
        requires
            old(self).wf(),
            each_staked_once(stakes@),
            old(self)@.opens_tracker(*approval, stake_map(stakes@)) ==> totals_fit(stakes@),
        ensures
            final(self).wf(),
            final(self)@ == old(self)@.processed(
                *approval,
                stake_map(stakes@),
                threshold_mode,
                now,
                utc,
            ),
            r == old(self)@.process_result(
                *approval,
                stake_map(stakes@),
                threshold_mode,
                now,
                utc,
            ),
    {
        proof {
            lemma_stake_map_domain(stakes@);
            law_processed_is_consistent(
                self@,
                *approval,
                stake_map(stakes@),
                threshold_mode,
                now,
                utc,
            );
        }
        self.withdraw_approval(&approval.account_id);
        let ghost before = self@;
        if !has_stake(stakes, &approval.account_id) {
            return DoomslugBlockProductionReadiness::NotReady;
        }
        self.last_approval_per_account.insert(approval.account_id.to_string(), approval.inner);
        let mut tracker = match self.take_tracker(&approval.inner) {
            Some(tracker) => tracker,
            None => DoomslugApprovalsTracker::new(stakes, threshold_mode),
        };
        let readiness = tracker.process_approval(approval, now, utc);
        self.put_tracker(approval.inner, tracker);
        assert(self@.trackers =~= before.trackers.insert(approval.inner, tracker@));
        assert(self@ =~= old(self)@.processed(
            *approval,
            stake_map(stakes@),
            threshold_mode,
            now,
            utc,
        ));
        readiness
    }
}

} // verus!
