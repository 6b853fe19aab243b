//! Approvals of one block, and whether they suffice to produce it.

use crate::clock::{Instant, Utc};
use crate::model::{AccountId, Approval, ApprovalStake, Balance};
use crate::stakes::{collect_stakes, each_staked_once, lemma_stake_map_domain};
use crate::stakes::{lemma_stake_sum_at_most_total, lemma_stake_sum_insert, lemma_stake_sum_remove};
use crate::stakes::{lemma_stake_sum_disjoint, lemma_stake_sum_monotone};
use crate::stakes::{stake_at, stake_map, stake_sum, sum_stakes, total_stake, totals_fit, Epoch};
use vstd::hash_map::StringHashMap;
use vstd::prelude::*;

verus! {

/// The threshold for doomslug to create a block.
/// `TwoThirds` means the block can only be produced if at least 2/3 of the stake is approving it,
///             and is what should be used in production (and what guarantees finality)
/// `NoApprovals` means the block production is not blocked on approvals. This is used
///             in many tests (e.g. `cross_shard_tx`) to create lots of forkfulness.
#[derive(PartialEq, Eq, Debug, Clone, Copy, Structural)]
pub enum DoomslugThresholdMode {
    NoApprovals,
    TwoThirds,
}

/// The result of processing an approval.
#[derive(PartialEq, Eq, Debug, Clone, Copy, Structural)]
pub enum DoomslugBlockProductionReadiness {
    NotReady,
    ReadySince(Instant),
}

/// What is known of the approvals of one block.
#[verifier::ext_equal]
pub ghost struct TrackerState {
    /// The approval that each account gave, and when it came.
    pub witness: Map<Seq<char>, (Approval, Utc)>,
    /// The stake of each account in this epoch and in the next.
    pub stakes: Map<Seq<char>, (Balance, Balance)>,
    /// When the approvals were first found to suffice.
    pub ready_since: Option<Instant>,
    pub mode: DoomslugThresholdMode,
}

impl TrackerState {
    /// A block that nobody has approved yet.
    pub open spec fn opened(
        stakes: Map<Seq<char>, (Balance, Balance)>,
        mode: DoomslugThresholdMode,
    ) -> TrackerState {
        TrackerState { witness: Map::empty(), stakes, ready_since: None, mode }
    }

    /// The stake that approves the block.
    pub open spec fn approved(self, epoch: Epoch) -> nat {
        stake_sum(self.stakes, self.witness.dom(), epoch)
    }

    /// The stake of all accounts.
    pub open spec fn total(self, epoch: Epoch) -> nat {
        total_stake(self.stakes, epoch)
    }

    /// Whether more than two thirds of the stake approve the block.
    pub open spec fn more_than_two_thirds(self, epoch: Epoch) -> bool {
        3 * self.approved(epoch) > 2 * self.total(epoch)
    }

    /// Whether the approvals suffice to produce the block.
    pub open spec fn passes_threshold(self) -> bool {
        ||| self.mode == DoomslugThresholdMode::NoApprovals
        ||| self.more_than_two_thirds(Epoch::This) && (self.more_than_two_thirds(Epoch::Next)
            || self.total(Epoch::Next) == 0)
    }

    /// The state after an approval came. The first one of an account is kept.
    pub open spec fn recorded(self, approval: Approval, utc: Utc) -> TrackerState {
        if self.witness.contains_key(approval.account_id@) {
            self
        } else {
            TrackerState {
                witness: self.witness.insert(approval.account_id@, (approval, utc)),
                ..self
            }
        }
    }

    /// The state after the approval of an account was withdrawn.
    pub open spec fn withdrawn(self, account: Seq<char>) -> TrackerState {
        TrackerState { witness: self.witness.remove(account), ..self }
    }

    /// The state after a look at the approvals at `now`, which is remembered if it is the first one
    /// to find that they suffice.
    pub open spec fn checked(self, now: Instant) -> TrackerState {
        if self.passes_threshold() && self.ready_since is None {
            TrackerState { ready_since: Some(now), ..self }
        } else {
            self
        }
    }

    /// Whether the block can be produced, and since when, once the approvals have been looked at.
    pub open spec fn readiness(self) -> DoomslugBlockProductionReadiness {
        if self.passes_threshold() {
            DoomslugBlockProductionReadiness::ReadySince(self.ready_since->0)
        } else {
            DoomslugBlockProductionReadiness::NotReady
        }
    }

    /// Finitely many accounts have a stake or have approved, and each approval is filed under the
    /// account that gave it.
    pub open spec fn well_formed(self) -> bool {
        &&& self.witness.dom().finite()
        &&& self.stakes.dom().finite()
        &&& forall|a: Seq<char>| #[trigger]
            self.witness.contains_key(a) ==> self.witness[a].0.account_id@ == a
    }
}

/// Without the need for approvals the block can always be produced. With it, more than two thirds of
/// the stake of this epoch approve it when it can, and of the next epoch too unless none is held
/// there.
pub proof fn law_readiness_needs_two_thirds(s: TrackerState, now: Instant)
    ensures
        s.mode == DoomslugThresholdMode::NoApprovals ==> s.checked(now).readiness() is ReadySince,
        s.mode == DoomslugThresholdMode::TwoThirds && s.checked(now).readiness() is ReadySince ==> {
            &&& 3 * s.approved(Epoch::This) > 2 * s.total(Epoch::This)
            &&& s.total(Epoch::Next) > 0 ==> 3 * s.approved(Epoch::Next) > 2 * s.total(Epoch::Next)
        },
{
}

/// A block is ready if and only if no approvals are needed, or its approvals come from more than two
/// thirds of the stake of this epoch, and of the next one unless nobody has a stake there. It is ready
/// since the moment that is known, or since now if none is.
pub proof fn law_ready_at_two_thirds(s: TrackerState, now: Instant)
    ensures
        ({
            let enough = |epoch: Epoch|
                3 * stake_sum(s.stakes, s.witness.dom(), epoch) > 2 * stake_sum(
                    s.stakes,
                    s.stakes.dom(),
                    epoch,
                );
            let nobody = stake_sum(s.stakes, s.stakes.dom(), Epoch::Next) == 0;
            let ready = s.mode == DoomslugThresholdMode::NoApprovals || (enough(Epoch::This) && (
            enough(Epoch::Next) || nobody));
            &&& ready ==> s.checked(now).readiness()
                == DoomslugBlockProductionReadiness::ReadySince(
                match s.ready_since {
                    Some(since) => since,
                    None => now,
                },
            )
            &&& !ready ==> s.checked(now).readiness() == DoomslugBlockProductionReadiness::NotReady
            &&& s.passes_threshold() == ready
        }),
{
}

/// A look at the approvals changes none of them, nor what they are held to. It only notes the moment
/// at which they first suffice.
pub proof fn law_look_only_notes_the_moment(s: TrackerState, now: Instant)
    ensures
        s.checked(now).witness == s.witness,
        s.checked(now).stakes == s.stakes,
        s.checked(now).mode == s.mode,
        s.checked(now).ready_since == (if s.ready_since is None && s.checked(now).readiness()
            is ReadySince {
            Some(now)
        } else {
            s.ready_since
        }),
{
}

/// An approval is kept with the time at which it came if its account has none yet, and a withdrawal
/// leaves none of its account. Neither touches the approvals of other accounts, or what the block is
/// held to.
pub proof fn law_approvals_of_accounts(
    s: TrackerState,
    approval: Approval,
    utc: Utc,
    account: Seq<char>,
    other: Seq<char>,
)
    requires
        approval.account_id@ == account,
        other != account,
    ensures
        ({
            let after = s.recorded(approval, utc);
            &&& after.witness.contains_key(account)
            &&& after.witness[account] == (if s.witness.contains_key(account) {
                s.witness[account]
            } else {
                (approval, utc)
            })
            &&& after.witness.contains_key(other) == s.witness.contains_key(other)
            &&& s.witness.contains_key(other) ==> after.witness[other] == s.witness[other]
            &&& after.stakes == s.stakes
            &&& after.mode == s.mode
            &&& after.ready_since == s.ready_since
        }),
        ({
            let after = s.withdrawn(account);
            &&& !after.witness.contains_key(account)
            &&& after.witness.contains_key(other) == s.witness.contains_key(other)
            &&& s.witness.contains_key(other) ==> after.witness[other] == s.witness[other]
            &&& after.stakes == s.stakes
            &&& after.mode == s.mode
            &&& after.ready_since == s.ready_since
        }),
{
}

/// A block that nobody has approved yet has the stakes and the threshold that it is opened with, and
/// is not known to be ready.
pub proof fn law_opened_block(
    stakes: Map<Seq<char>, (Balance, Balance)>,
    mode: DoomslugThresholdMode,
    account: Seq<char>,
)
    ensures
        !TrackerState::opened(stakes, mode).witness.contains_key(account),
        TrackerState::opened(stakes, mode).stakes == stakes,
        TrackerState::opened(stakes, mode).mode == mode,
        TrackerState::opened(stakes, mode).ready_since is None,
{
}

/// The moment since which a block could be produced never changes once it is known, whatever
/// approvals come or are withdrawn, and every later answer that it can be produced names it.
pub proof fn law_ready_since_is_kept(
    s: TrackerState,
    approval: Approval,
    utc: Utc,
    account: Seq<char>,
    now: Instant,
)
    requires
        s.ready_since is Some,
    ensures
        s.recorded(approval, utc).ready_since == s.ready_since,
        s.withdrawn(account).ready_since == s.ready_since,
        s.checked(now) == s,
        s.readiness() is ReadySince ==> s.readiness()
            == DoomslugBlockProductionReadiness::ReadySince(s.ready_since->0),
{
}

/// A look at the approvals that finds them to suffice for the first time names that moment.
pub proof fn law_first_ready_is_now(s: TrackerState, now: Instant)
    requires
        s.ready_since is None,
        s.passes_threshold(),
    ensures
        s.checked(now).readiness() == DoomslugBlockProductionReadiness::ReadySince(now),
{
}

/// A second approval of the same account changes nothing.
pub proof fn law_recorded_once(s: TrackerState, a1: Approval, utc1: Utc, a2: Approval, utc2: Utc)
    requires
        a1.account_id@ == a2.account_id@,
    ensures
        s.recorded(a1, utc1).recorded(a2, utc2) == s.recorded(a1, utc1),
{
}

/// The withdrawal of an approval undoes it.
pub proof fn law_withdrawal_undoes_approval(s: TrackerState, approval: Approval, utc: Utc)
    requires
        !s.witness.contains_key(approval.account_id@),
    ensures
        s.recorded(approval, utc).withdrawn(approval.account_id@) == s,
{
    assert(s.recorded(approval, utc).withdrawn(approval.account_id@) =~= s);
}

/// An approval adds the stake of its account to the approved stake, and its withdrawal takes it away.
pub proof fn law_approved_stake(s: TrackerState, approval: Approval, utc: Utc, epoch: Epoch)
    requires
        s.well_formed(),
        !s.witness.contains_key(approval.account_id@),
    ensures
        s.recorded(approval, utc).approved(epoch) == s.approved(epoch) + stake_at(
            s.stakes,
            approval.account_id@,
            epoch,
        ),
        s.recorded(approval, utc).approved(epoch) <= s.total(epoch),
{
    let accounts = s.witness.dom();
    let after = s.recorded(approval, utc);
    lemma_stake_sum_insert(s.stakes, accounts, approval.account_id@, epoch);
    assert(after.witness.dom() =~= accounts.insert(approval.account_id@));
    lemma_stake_sum_at_most_total(s.stakes, after.witness.dom(), epoch);
}

/// An approval never makes the approvals insufficient, and a withdrawal never makes them sufficient.
pub proof fn law_threshold_is_monotone(
    s: TrackerState,
    approval: Approval,
    utc: Utc,
    account: Seq<char>,
)
    requires
        s.well_formed(),
    ensures
        s.passes_threshold() ==> s.recorded(approval, utc).passes_threshold(),
        s.withdrawn(account).passes_threshold() ==> s.passes_threshold(),
{
    let more = s.recorded(approval, utc).witness.dom();
    let fewer = s.withdrawn(account).witness.dom();
    lemma_stake_sum_monotone(s.stakes, s.witness.dom(), more, Epoch::This);
    lemma_stake_sum_monotone(s.stakes, s.witness.dom(), more, Epoch::Next);
    lemma_stake_sum_monotone(s.stakes, fewer, s.witness.dom(), Epoch::This);
    lemma_stake_sum_monotone(s.stakes, fewer, s.witness.dom(), Epoch::Next);
}

/// Where two blocks have more than two thirds of the same stake each, the accounts that approve both
/// hold more than a third of it.
pub proof fn law_quorums_overlap(s1: TrackerState, s2: TrackerState, epoch: Epoch)
    requires
        s1.well_formed(),
        s2.well_formed(),
        s1.stakes == s2.stakes,
        s1.more_than_two_thirds(epoch),
        s2.more_than_two_thirds(epoch),
    ensures
        3 * stake_sum(s1.stakes, s1.witness.dom().intersect(s2.witness.dom()), epoch) > s1.total(
            epoch,
        ),
{
    let a1 = s1.witness.dom();
    let a2 = s2.witness.dom();
    let both = a1.intersect(a2);
    let rest = a2.difference(a1);
    lemma_stake_sum_disjoint(s1.stakes, both, rest, epoch);
    assert(both.union(rest) =~= a2);
    lemma_stake_sum_disjoint(s1.stakes, a1, rest, epoch);
    lemma_stake_sum_at_most_total(s1.stakes, a1.union(rest), epoch);
}

/// Whether `approved` is more than two thirds of `total`. The threshold is formed without doubling
/// the total, which might not fit.
fn exceeds_two_thirds(approved: Balance, total: Balance) -> (b: bool)
    ensures
        b == (3 * approved > 2 * total),
{
    let third = total / 3;
    let threshold = if total % 3 == 0 {
        total - third
    } else {
        total - third - 1
    };
    approved > threshold
}

/// Collects the approvals of one block and the stake behind them.
pub struct DoomslugApprovalsTracker {
    witness: StringHashMap<(Approval, Utc)>,
    account_id_to_stakes: StringHashMap<(Balance, Balance)>,
    total_stake_this_epoch: Balance,
    approved_stake_this_epoch: Balance,
    total_stake_next_epoch: Balance,
    approved_stake_next_epoch: Balance,
    time_passed_threshold: Option<Instant>,
    threshold_mode: DoomslugThresholdMode,
}

impl View for DoomslugApprovalsTracker {
    type V = TrackerState;

    closed spec fn view(&self) -> TrackerState {
        TrackerState {
            witness: self.witness@,
            stakes: self.account_id_to_stakes@,
            ready_since: self.time_passed_threshold,
            mode: self.threshold_mode,
        }
    }
}

impl DoomslugApprovalsTracker {
    /// The stakes that are kept are those of all accounts and of the ones that approved.
    pub closed spec fn wf(&self) -> bool {
        &&& self@.well_formed()
        &&& self.total_stake_this_epoch == self@.total(Epoch::This)
        &&& self.total_stake_next_epoch == self@.total(Epoch::Next)
        &&& self.approved_stake_this_epoch == self@.approved(Epoch::This)
        &&& self.approved_stake_next_epoch == self@.approved(Epoch::Next)
    }

    /// The approvals that are kept are always well-formed.
    pub proof fn law_state_is_well_formed(&self)
        requires
            self.wf(),
        ensures
            self@.well_formed(),
    {
    }

    /// A tracker for a block that nobody has approved yet, held to the stakes in a list.
    pub fn new(
        stakes: &[(ApprovalStake, bool)],
        threshold_mode: DoomslugThresholdMode,
    ) -> (t: DoomslugApprovalsTracker)
        requires
            each_staked_once(stakes@),
            totals_fit(stakes@),
        ensures
            t.wf(),
            t@ == TrackerState::opened(stake_map(stakes@), threshold_mode),
    {
        proof {
            lemma_stake_map_domain(stakes@);
        }
        let (total_stake_this_epoch, total_stake_next_epoch) = sum_stakes(stakes);
        DoomslugApprovalsTracker {
            witness: StringHashMap::new(),
            account_id_to_stakes: collect_stakes(stakes),
            total_stake_this_epoch,
            total_stake_next_epoch,
            approved_stake_this_epoch: 0,
            approved_stake_next_epoch: 0,
            time_passed_threshold: None,
            threshold_mode,
        }
    }

    /// The stake of an account in this epoch and in the next.
    fn stakes_of(&self, account_id: &AccountId) -> (stakes: (Balance, Balance))
        ensures
            stakes.0 == stake_at(self@.stakes, account_id@, Epoch::This),
            stakes.1 == stake_at(self@.stakes, account_id@, Epoch::Next),
    {
        match self.account_id_to_stakes.get(account_id.as_str()) {
            Some(stakes) => *stakes,
            None => (0, 0),
        }
    }

    /// Given a single approval (either an endorsement or a skip-message) updates the approved
    /// stake on the block that is being approved, and returns whether the block is now ready to be
    /// produced.
    ///
    /// # Arguments
    /// * `approval` - the approval to process
    /// * `now`      - the current timestamp
    /// * `utc`      - the current time of day
    ///
    /// # Returns
    /// Whether the block is ready to be produced
    pub fn process_approval(&mut self, approval: &Approval, now: Instant, utc: Utc) -> (r:
        DoomslugBlockProductionReadiness)
        requires
            old(self).wf(),
        ensures
            final(self).wf(),
            final(self)@ == old(self)@.recorded(*approval, utc).checked(now),
            r == final(self)@.readiness(),
    {
        let ghost before = self@;
        if !self.witness.contains_key(approval.account_id.as_str()) {
            let stakes = self.stakes_of(&approval.account_id);
            self.witness.insert(approval.account_id.to_string(), (approval.clone(), utc));
            proof {
                let account = approval.account_id@;
                let accounts = before.witness.dom();
                assert(self@.witness.dom() =~= accounts.insert(account));
                lemma_stake_sum_insert(before.stakes, accounts, account, Epoch::This);
                lemma_stake_sum_insert(before.stakes, accounts, account, Epoch::Next);
                let more = accounts.insert(account);
                lemma_stake_sum_at_most_total(before.stakes, more, Epoch::This);
                lemma_stake_sum_at_most_total(before.stakes, more, Epoch::Next);
            }
            self.approved_stake_this_epoch = self.approved_stake_this_epoch + stakes.0;
            self.approved_stake_next_epoch = self.approved_stake_next_epoch + stakes.1;
        }
        assert(self@ =~= before.recorded(*approval, utc));
        // If the approvals have crossed the threshold, the timer for block production starts here.
        self.get_block_production_readiness(now)
    }

    /// Withdraws an approval. This happens if a newer approval for the same `target_height` comes
    /// from the same account. Removes the approval from the `witness` and updates the approved
    /// stakes.
    pub fn withdraw_approval(&mut self, account_id: &AccountId)
        requires
            old(self).wf(),
        ensures
            final(self).wf(),
            final(self)@ == old(self)@.withdrawn(account_id@),
    {
        let ghost before = self@;
        if self.witness.contains_key(account_id.as_str()) {
            let stakes = self.stakes_of(account_id);
            self.witness.remove(account_id.as_str());
            proof {
                let accounts = before.witness.dom();
                assert(self@.witness.dom() =~= accounts.remove(account_id@));
                lemma_stake_sum_remove(before.stakes, accounts, account_id@, Epoch::This);
                lemma_stake_sum_remove(before.stakes, accounts, account_id@, Epoch::Next);
            }
            self.approved_stake_this_epoch = self.approved_stake_this_epoch - stakes.0;
            self.approved_stake_next_epoch = self.approved_stake_next_epoch - stakes.1;
        }
        assert(self@ =~= before.withdrawn(account_id@));
    }

    /// Whether no approvals are left.
    pub fn is_empty(&self) -> (b: bool)
        ensures
            b == self@.witness.is_empty(),
    {
        self.witness.is_empty()
    }

    /// Returns whether the block has enough approvals, and if yes, since what moment it does.
    ///
    /// # Arguments
    /// * `now` - the current timestamp
    ///
    /// # Returns
    /// `NotReady` if the block doesn't have enough approvals yet to cross the threshold
    /// `ReadySince` if the block has enough approvals to pass the threshold, and since when it
    ///     does
    pub fn get_block_production_readiness(&mut self, now: Instant) -> (r:
        DoomslugBlockProductionReadiness)
        requires
            old(self).wf(),
        ensures
            final(self).wf(),
            final(self)@ == old(self)@.checked(now),
            r == final(self)@.readiness(),
    {
        let ghost before = self@;
        if (exceeds_two_thirds(self.approved_stake_this_epoch, self.total_stake_this_epoch) && (
        exceeds_two_thirds(self.approved_stake_next_epoch, self.total_stake_next_epoch)
            || self.total_stake_next_epoch == 0)) || self.threshold_mode
            == DoomslugThresholdMode::NoApprovals {
            assert(before.passes_threshold());
            let since = match self.time_passed_threshold {
                Some(since) => since,
                None => now,
            };
            self.time_passed_threshold = Some(since);
            assert(self@ =~= before.checked(now));
            DoomslugBlockProductionReadiness::ReadySince(since)
        } else {
            DoomslugBlockProductionReadiness::NotReady
        }
    }
}

} // verus!
