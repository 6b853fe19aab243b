//! When to approve blocks, and when enough others have approved one.

use crate::clock::{Clock, Instant, Utc};
use crate::duration::{span_in_range, Duration};
use crate::hash::CryptoHash;
use crate::height::{DoomslugApprovalsTrackersAtHeight, HeightState};
use crate::laws::law_approval_keeps_consistent;
use crate::model::{Approval, ApprovalStake, Balance, BlockHeight, ValidatorSigner};
use crate::stakes::{each_staked_once, lemma_stake_map_domain, stake_map, totals_fit};
use crate::timer::{DoomslugTimer, TimerState};
use crate::tracker::{DoomslugBlockProductionReadiness, DoomslugThresholdMode};
use std::collections::HashMap;
use std::sync::Arc;
use vstd::prelude::*;

verus! {

/// Have that many iterations in the timer instead of `loop` to prevent potential bugs from blocking
/// the node
pub const MAX_TIMER_ITERS: usize = 20;

/// How many heights below the tip approvals are kept for.
pub const MAX_HEIGHTS_BEFORE_TO_STORE_APPROVALS: BlockHeight = 20;

/// How many heights above the tip approvals are kept for.
pub const MAX_HEIGHTS_AHEAD_TO_STORE_APPROVALS: BlockHeight = 10_000;

/// Whether a target height is within the horizon of the tip: approvals are only kept for such heights,
/// so that the number of heights with approvals stays bounded whatever is received.
pub open spec fn within_horizon(tip_height: BlockHeight, height: BlockHeight) -> bool {
    tip_height - MAX_HEIGHTS_BEFORE_TO_STORE_APPROVALS <= height <= tip_height
        + MAX_HEIGHTS_AHEAD_TO_STORE_APPROVALS
}

/// The heights within the horizon of the tip.
pub open spec fn horizon(tip_height: BlockHeight) -> Set<BlockHeight> {
    Set::new(|h: BlockHeight| within_horizon(tip_height, h))
}

/// The state of doomslug.
#[verifier::ext_equal]
pub ghost struct DoomslugState {
    /// The approvals of the blocks at each height.
    pub tracking: Map<BlockHeight, HeightState>,
    pub largest_target_height: BlockHeight,
    pub largest_final_height: BlockHeight,
    pub largest_threshold_height: BlockHeight,
    pub largest_approval_height: BlockHeight,
    pub tip_hash: CryptoHash,
    pub tip_height: BlockHeight,
    pub endorsement_pending: bool,
    pub timer: TimerState,
    pub mode: DoomslugThresholdMode,
}

/// The larger of two heights.
pub open spec fn max_height(a: BlockHeight, b: BlockHeight) -> BlockHeight {
    if a >= b {
        a
    } else {
        b
    }
}

impl DoomslugState {
    /// The state at the start: no tip, no approvals.
    pub open spec fn initial(
        largest_target_height: BlockHeight,
        timer: TimerState,
        mode: DoomslugThresholdMode,
        tip_hash: CryptoHash,
    ) -> DoomslugState {
        DoomslugState {
            tracking: Map::empty(),
            largest_target_height,
            largest_final_height: 0,
            largest_threshold_height: 0,
            largest_approval_height: 0,
            tip_hash,
            tip_height: 0,
            endorsement_pending: false,
            timer,
            mode,
        }
    }

    /// The state after the tip of the chain was updated at `now`. Approvals for heights outside its
    /// horizon are dropped.
    pub open spec fn with_tip(
        self,
        block_hash: CryptoHash,
        height: BlockHeight,
        last_final_height: BlockHeight,
        now: int,
    ) -> DoomslugState {
        DoomslugState {
            tracking: self.tracking.restrict(horizon(height)),
            tip_hash: block_hash,
            tip_height: height,
            largest_final_height: last_final_height,
            timer: TimerState { height: (height + 1) as u64, started: now, ..self.timer },
            endorsement_pending: true,
            ..self
        }
    }

    /// The number of heights since the last final block.
    pub open spec fn heights_since_final(self) -> BlockHeight {
        if self.timer.height >= self.largest_final_height {
            (self.timer.height - self.largest_final_height) as u64
        } else {
            0
        }
    }

    /// How long to wait before the current height is skipped.
    pub open spec fn skip_delay(self) -> int {
        self.timer.delay(self.heights_since_final())
    }

    /// Whether it is time to endorse the tip.
    pub open spec fn endorsement_due(self, now: int) -> bool {
        self.endorsement_pending && now >= self.timer.last_endorsement_sent
            + self.timer.endorsement_delay
    }

    /// Whether the tip is endorsed now: it is time to, and no approval has been issued for the next
    /// height or a later one.
    pub open spec fn endorses(self, now: int) -> bool {
        self.endorsement_due(now) && self.tip_height >= self.largest_target_height
    }

    /// The state after the tip was endorsed, if it is time to.
    pub open spec fn endorsed(self, now: int) -> DoomslugState {
        if self.endorsement_due(now) {
            DoomslugState {
                largest_target_height: if self.endorses(now) {
                    (self.tip_height + 1) as u64
                } else {
                    self.largest_target_height
                },
                timer: TimerState { last_endorsement_sent: now, ..self.timer },
                endorsement_pending: false,
                ..self
            }
        } else {
            self
        }
    }

    /// Whether it is time to skip the current height.
    pub open spec fn skip_due(self, now: int) -> bool {
        now >= self.timer.started + self.skip_delay()
    }

    /// The state after the current height was skipped. The wait for the next one begins when this
    /// one ended.
    pub open spec fn skipped(self) -> DoomslugState {
        DoomslugState {
            largest_target_height: max_height(
                (self.timer.height + 1) as u64,
                self.largest_target_height,
            ),
            timer: TimerState {
                started: self.timer.started + self.skip_delay(),
                height: (self.timer.height + 1) as u64,
                ..self.timer
            },
            ..self
        }
    }

    /// The state after all heights were skipped that it is time for, but at most `n`.
    pub open spec fn after_skips(self, now: int, n: nat) -> DoomslugState
        decreases n,
    {
        if n > 0 && self.skip_due(now) {
            self.skipped().after_skips(now, (n - 1) as nat)
        } else {
            self
        }
    }

    /// How many heights are skipped at `now`, at most `n`.
    pub open spec fn skip_count(self, now: int, n: nat) -> nat
        decreases n,
    {
        if n > 0 && self.skip_due(now) {
            1 + self.skipped().skip_count(now, (n - 1) as nat)
        } else {
            0
        }
    }

    /// The state after the timer was processed at `now`.
    pub open spec fn after_timer(self, now: int) -> DoomslugState {
        self.endorsed(now).after_skips(now, MAX_TIMER_ITERS as nat)
    }

    /// The heights for which approvals are issued when the timer is processed at `now`: the height
    /// after the tip if it is endorsed, then one for each height that is skipped.
    pub open spec fn timer_targets(self, now: int) -> Seq<BlockHeight> {
        let endorsed = if self.endorses(now) {
            seq![(self.tip_height + 1) as u64]
        } else {
            Seq::empty()
        };
        endorsed + Seq::new(
            self.endorsed(now).skip_count(now, MAX_TIMER_ITERS as nat),
            |i: int| (self.timer.height + 1 + i) as u64,
        )
    }

    /// Whether the skip delay of the current height is sound: it can be calculated, and is at least
    /// twice the endorsement delay.
    pub open spec fn skip_delay_sound(self) -> bool {
        &&& self.timer.delay_fits(self.heights_since_final())
        &&& span_in_range(2 * self.timer.endorsement_delay)
        &&& self.skip_delay() >= 2 * self.timer.endorsement_delay
    }

    /// Whether the delays of the current height are sound at `now`: the skip delay is, and no
    /// endorsement is still to be sent when the height is skipped.
    pub open spec fn delays_sound(self, now: int) -> bool {
        &&& self.skip_delay_sound()
        &&& span_in_range(self.timer.started + self.skip_delay())
        &&& self.skip_due(now) ==> !self.endorsement_pending && self.timer.height < u64::MAX
    }

    /// Whether the delays are sound at each height that is looked at, which are at most `n`.
    pub open spec fn skips_run(self, now: int, n: nat) -> bool
        decreases n,
    {
        n > 0 ==> {
            &&& self.delays_sound(now)
            &&& self.skip_due(now) ==> self.skipped().skips_run(now, (n - 1) as nat)
        }
    }

    /// Whether the timer can be processed at `now`.
    pub open spec fn timer_runs(self, now: int) -> bool {
        &&& self.endorsement_pending ==> span_in_range(
            self.timer.last_endorsement_sent + self.timer.endorsement_delay,
        )
        &&& self.endorses(now) ==> self.tip_height < u64::MAX
        &&& self.endorsed(now).skips_run(now, MAX_TIMER_ITERS as nat)
    }

    /// The approvals of the blocks at a height.
    pub open spec fn at_height(self, height: BlockHeight) -> HeightState {
        if self.tracking.contains_key(height) {
            self.tracking[height]
        } else {
            HeightState::empty()
        }
    }

    /// Whether the block that an approval is for can be produced after it came. Outside the horizon of
    /// the tip it cannot.
    pub open spec fn approval_result(
        self,
        approval: Approval,
        stakes: Map<Seq<char>, (Balance, Balance)>,
        now: Instant,
        utc: Utc,
    ) -> DoomslugBlockProductionReadiness {
        if within_horizon(self.tip_height, approval.target_height) {
            self.at_height(approval.target_height).process_result(
                approval,
                stakes,
                self.mode,
                now,
                utc,
            )
        } else {
            DoomslugBlockProductionReadiness::NotReady
        }
    }

    /// Whether an approval opens a block: it is within the horizon of the tip, comes from an account
    /// with a stake, and once the earlier approval of that account is withdrawn, the block is not
    /// known.
    pub open spec fn opens_tracker(
        self,
        approval: Approval,
        stakes: Map<Seq<char>, (Balance, Balance)>,
    ) -> bool {
        &&& within_horizon(self.tip_height, approval.target_height)
        &&& self.at_height(approval.target_height).opens_tracker(approval, stakes)
    }

    /// The state after an approval came. It is kept only within the horizon of the tip.
    pub open spec fn with_approval(
        self,
        approval: Approval,
        stakes: Map<Seq<char>, (Balance, Balance)>,
        now: Instant,
        utc: Utc,
    ) -> DoomslugState {
        let height = approval.target_height;
        DoomslugState {
            tracking: if within_horizon(self.tip_height, height) {
                self.tracking.insert(
                    height,
                    self.at_height(height).processed(approval, stakes, self.mode, now, utc),
                )
            } else {
                self.tracking
            },
            largest_approval_height: max_height(height, self.largest_approval_height),
            largest_threshold_height: if self.approval_result(approval, stakes, now, utc)
                == DoomslugBlockProductionReadiness::NotReady {
                self.largest_threshold_height
            } else {
                max_height(height, self.largest_threshold_height)
            },
            ..self
        }
    }
}

impl DoomslugState {
    /// The approvals at each height are consistent and are for that height, which is within the
    /// horizon of the tip. No height with approvals or enough of them exceeds the largest one that an
    /// approval was received for.
    pub open spec fn consistent(self) -> bool {
        &&& forall|h: BlockHeight| #[trigger]
            self.tracking.contains_key(h) ==> {
                &&& self.tracking[h].consistent()
                &&& self.tracking[h].is_for(h)
                &&& within_horizon(self.tip_height, h)
                &&& h <= self.largest_approval_height
            }
        &&& self.largest_threshold_height <= self.largest_approval_height
    }
}

/// Whether `approvals` are those of `signer` for the target heights on top of the given tip. Without
/// a signer there are none.
pub open spec fn approvals_for(
    approvals: Seq<Approval>,
    targets: Seq<BlockHeight>,
    tip_hash: CryptoHash,
    tip_height: BlockHeight,
    signer: Option<Arc<ValidatorSigner>>,
) -> bool {
    match signer {
        Some(signer) => {
            &&& approvals.len() == targets.len()
            &&& forall|i: int|
                0 <= i < targets.len() ==> (#[trigger] approvals[i]).is_approval_of(
                    tip_hash,
                    tip_height,
                    targets[i],
                    &*signer,
                )
        },
        None => approvals.len() == 0,
    }
}

/// Whether processing the timer at `now` leads from one state to another and issues the given
/// approvals. Where the timer cannot be processed, nothing changes and none are issued.
pub open spec fn timer_outcome(
    before: DoomslugState,
    now: Instant,
    signer: Option<Arc<ValidatorSigner>>,
    after: DoomslugState,
    approvals: Seq<Approval>,
) -> bool {
    if before.timer_runs(now@) {
        &&& after == before.after_timer(now@)
        &&& approvals_for(
            approvals,
            before.timer_targets(now@),
            before.tip_hash,
            before.tip_height,
            signer,
        )
    } else {
        &&& after == before
        &&& approvals.len() == 0
    }
}

/// Whether an approval that comes at `now` leads from one state to another and to the given answer.
pub open spec fn approval_outcome(
    before: DoomslugState,
    approval: Approval,
    stakes: Map<Seq<char>, (Balance, Balance)>,
    now: Instant,
    utc: Utc,
    after: DoomslugState,
    readiness: DoomslugBlockProductionReadiness,
) -> bool {
    &&& after == before.with_approval(approval, stakes, now, utc)
    &&& readiness == before.approval_result(approval, stakes, now, utc)
}

/// Whether a target height is within the horizon of the tip.
fn is_within_horizon(tip_height: BlockHeight, height: BlockHeight) -> (b: bool)
    ensures
        b == within_horizon(tip_height, height),
{
    if height >= tip_height {
        height - tip_height <= MAX_HEIGHTS_AHEAD_TO_STORE_APPROVALS
    } else {
        tip_height - height <= MAX_HEIGHTS_BEFORE_TO_STORE_APPROVALS
    }
}

/// Drops the approvals for heights outside the horizon of the tip.
fn prune_heights(
    tracking: &mut HashMap<BlockHeight, DoomslugApprovalsTrackersAtHeight>,
    tip_height: BlockHeight,
)
    ensures
        final(tracking)@ == old(tracking)@.restrict(horizon(tip_height)),
{
    broadcast use vstd::std_specs::hash::group_hash_axioms;

    let mut outside: Vec<BlockHeight> = Vec::new();
    let ghost before = tracking@;
    for height in it: tracking.keys()
        invariant
            it.seq().unref().to_set() == before.dom(),
            forall|i: int|
                0 <= i < it.index() && !within_horizon(tip_height, *#[trigger] it.seq()[i])
                    ==> outside@.contains(*it.seq()[i]),
            forall|i: int|
                0 <= i < outside@.len() ==> !within_horizon(tip_height, #[trigger] outside@[i]),
    {
        if !is_within_horizon(tip_height, *height) {
            let ghost shorter = outside@;
            outside.push(*height);
            assert(outside@.last() == *height);
            assert forall|h: BlockHeight| shorter.contains(h) implies outside@.contains(h) by {
                let i = choose|i: int| 0 <= i < shorter.len() && shorter[i] == h;
                assert(outside@[i] == h);
            }
        }
    }
    assert forall|h: BlockHeight|
        before.contains_key(h) && !within_horizon(tip_height, h) implies #[trigger] outside@.contains(
        h,
    ) by {
        assert(before.dom().contains(h));
    }
    let mut i: usize = 0;
    while i < outside.len()
        invariant
            i <= outside@.len(),
            tracking@ == before.remove_keys(outside@.take(i as int).to_set()),
        decreases outside@.len() - i,
    {
        tracking.remove(&outside[i]);
        proof {
            let done = outside@.take(i as int);
            assert(outside@.take(i + 1) =~= done.push(outside@[i as int]));
            assert(done.push(outside@[i as int]).to_set() =~= done.to_set().insert(
                outside@[i as int],
            )) by {
                broadcast use vstd::seq_lib::group_seq_properties;

            }
            assert(tracking@ =~= before.remove_keys(done.to_set().insert(outside@[i as int])));
        }
        i += 1;
    }
    assert(outside@.take(outside@.len() as int) =~= outside@);
    assert(tracking@ =~= before.restrict(horizon(tip_height)));
}

/// What Doomslug knows of the chain tip.
struct DoomslugTip {
    block_hash: CryptoHash,
    height: BlockHeight,
}

/// The part of the state that processing the timer changes.
#[derive(Clone, Copy)]
struct TimerCursor {
    largest_target_height: BlockHeight,
    endorsement_pending: bool,
    timer: DoomslugTimer,
}

/// Contains all the logic for Doomslug, but no integration with chain or storage.
pub struct Doomslug {
    clock: Clock,
    approval_tracking: HashMap<BlockHeight, DoomslugApprovalsTrackersAtHeight>,
    /// Largest target height for which we issued an approval
    largest_target_height: BlockHeight,
    /// Largest height for which we saw a block containing 1/2 endorsements in it
    largest_final_height: BlockHeight,
    /// Largest height for which we saw threshold approvals (and thus can potentially create a block)
    largest_threshold_height: BlockHeight,
    /// Largest target height of approvals that we've received
    largest_approval_height: BlockHeight,
    /// Information Doomslug tracks about the chain tip
    tip: DoomslugTip,
    /// Whether an endorsement (or in general an approval) was sent since updating the tip
    endorsement_pending: bool,
    /// Information to track the timer (see `start_timer` routine in the paper)
    timer: DoomslugTimer,
    /// How many approvals to have before producing a block. In production should be always
    /// `TwoThirds`, but for many tests we use `NoApprovals` to invoke more forkfulness
    threshold_mode: DoomslugThresholdMode,
}

impl View for Doomslug {
    type V = DoomslugState;

    closed spec fn view(&self) -> DoomslugState {
        DoomslugState {
            tracking: self.approval_tracking@.map_values(
                |t: DoomslugApprovalsTrackersAtHeight| t@,
            ),
            largest_target_height: self.largest_target_height,
            largest_final_height: self.largest_final_height,
            largest_threshold_height: self.largest_threshold_height,
            largest_approval_height: self.largest_approval_height,
            tip_hash: self.tip.block_hash,
            tip_height: self.tip.height,
            endorsement_pending: self.endorsement_pending,
            timer: self.timer@,
            mode: self.threshold_mode,
        }
    }
}

impl Doomslug {
    /// The approvals at each height are well-formed, and the state is consistent.
    pub closed spec fn wf(&self) -> bool {
        &&& self@.consistent()
        &&& forall|h: BlockHeight| #[trigger]
            self.approval_tracking@.contains_key(h) ==> self.approval_tracking@[h].wf()
    }

    /// The clock that is read.
    pub closed spec fn reads(&self) -> Clock {
        self.clock
    }

    /// The state is always consistent.
    pub proof fn law_state_is_consistent(&self)
        requires
            self.wf(),
        ensures
            self@.consistent(),
    {
    }

    /// The state at the start, with the given timer.
    pub fn with_timer(
        clock: Clock,
        largest_target_height: BlockHeight,
        timer: DoomslugTimer,
        threshold_mode: DoomslugThresholdMode,
    ) -> (ds: Doomslug)
        ensures
            ds.wf(),
            ds.reads() == clock,
            ds@ == DoomslugState::initial(
                largest_target_height,
                timer@,
                threshold_mode,
                ds@.tip_hash,
            ),
            ds@.tip_hash@ == Seq::new(32, |i: int| 0u8),
    {
        broadcast use vstd::std_specs::hash::group_hash_axioms;

        let ds = Doomslug {
            clock,
            approval_tracking: HashMap::new(),
            largest_target_height,
            largest_final_height: 0,
            largest_threshold_height: 0,
            largest_approval_height: 0,
            tip: DoomslugTip { block_hash: CryptoHash::default(), height: 0 },
            endorsement_pending: false,
            timer,
            threshold_mode,
        };
        assert(ds@.tracking =~= Map::empty());
        ds
    }

    /// The state at the start. The timer starts now.
    pub fn new(
        clock: Clock,
        largest_target_height: BlockHeight,
        endorsement_delay: Duration,
        min_delay: Duration,
        delay_step: Duration,
        max_delay: Duration,
        threshold_mode: DoomslugThresholdMode,
    ) -> (ds: Doomslug)
        ensures
            ds.wf(),
            ds.reads() == clock,
            ds@ == DoomslugState::initial(
                largest_target_height,
                TimerState {
                    started: ds@.timer.started,
                    last_endorsement_sent: ds@.timer.last_endorsement_sent,
                    height: 0,
                    endorsement_delay: endorsement_delay@,
                    min_delay: min_delay@,
                    delay_step: delay_step@,
                    max_delay: max_delay@,
                },
                threshold_mode,
                ds@.tip_hash,
            ),
            ds@.tip_hash@ == Seq::new(32, |i: int| 0u8),
            clock.can_show(ds@.timer.started),
            clock.can_show(ds@.timer.last_endorsement_sent),
    {
        let timer = DoomslugTimer {
            started: clock.now(),
            last_endorsement_sent: clock.now(),
            height: 0,
            endorsement_delay,
            min_delay,
            delay_step,
            max_delay,
        };
        Doomslug::with_timer(clock, largest_target_height, timer, threshold_mode)
    }

    /// The state with the part that processing the timer changes replaced.
    spec fn at_cursor(self, cursor: TimerCursor) -> DoomslugState {
        DoomslugState {
            largest_target_height: cursor.largest_target_height,
            endorsement_pending: cursor.endorsement_pending,
            timer: cursor.timer@,
            ..self@
        }
    }

    /// Sends the endorsement of the tip if it is time to: returns where the timer is then, and
    /// whether the tip is endorsed.
    fn plan_endorsement(&self, now: Instant) -> (r: Option<(TimerCursor, bool)>)
        ensures
            match r {
                Some((cursor, endorses)) => {
                    &&& self@.endorsement_pending ==> span_in_range(
                        self@.timer.last_endorsement_sent + self@.timer.endorsement_delay,
                    )
                    &&& self@.endorses(now@) ==> self@.tip_height < u64::MAX
                    &&& self.at_cursor(cursor) == self@.endorsed(now@)
                    &&& endorses == self@.endorses(now@)
                },
                None => {
                    ||| self@.endorsement_pending && !span_in_range(
                        self@.timer.last_endorsement_sent + self@.timer.endorsement_delay,
                    )
                    ||| self@.endorses(now@) && self@.tip_height == u64::MAX
                },
            },
    {
        let mut cursor = TimerCursor {
            largest_target_height: self.largest_target_height,
            endorsement_pending: self.endorsement_pending,
            timer: self.timer,
        };
        if !self.endorsement_pending {
            assert(self.at_cursor(cursor) =~= self@);
            return Some((cursor, false));
        }
        let due = match self.timer.last_endorsement_sent.checked_add(self.timer.endorsement_delay) {
            Some(due) => due,
            None => {
                return None;
            },
        };
        if !now.at_or_after(due) {
            assert(self.at_cursor(cursor) =~= self@);
            return Some((cursor, false));
        }
        let endorses = self.tip.height >= self.largest_target_height;
        if endorses {
            if self.tip.height == u64::MAX {
                return None;
            }
            cursor.largest_target_height = self.tip.height + 1;
        }
        cursor.timer.last_endorsement_sent = now;
        cursor.endorsement_pending = false;
        assert(self.at_cursor(cursor) =~= self@.endorsed(now@));
        Some((cursor, endorses))
    }

    /// The skip delay of the current height, or `None` if it is not sound.
    fn sound_skip_delay(&self, cursor: TimerCursor) -> (r: Option<Duration>)
        ensures
            match r {
                Some(delay) => self.at_cursor(cursor).skip_delay_sound() && delay@
                    == self.at_cursor(cursor).skip_delay(),
                None => !self.at_cursor(cursor).skip_delay_sound(),
            },
    {
        let since_final = cursor.timer.height.saturating_sub(self.largest_final_height);
        let skip_delay = match cursor.timer.checked_delay(since_final) {
            Some(skip_delay) => skip_delay,
            None => {
                return None;
            },
        };
        // The `endorsement_delay` is time to send approval to the block producer at `timer.height`,
        // while the `skip_delay` is the time before sending the approval to BP of `timer_height + 1`,
        // so it makes sense for them to be at least 2x apart
        let endorsement_delay = cursor.timer.endorsement_delay;
        match endorsement_delay.checked_add(endorsement_delay) {
            Some(twice) => {
                if !skip_delay.at_least(twice) {
                    return None;
                }
            },
            None => {
                return None;
            },
        }
        Some(skip_delay)
    }

    /// Looks at the current height once: returns `None` if its delays are not sound, and otherwise
    /// where the timer is after it, if it is skipped.
    fn plan_skip(&self, cursor: TimerCursor, now: Instant) -> (r: Option<Option<TimerCursor>>)
        ensures
            match r {
                Some(Some(next)) => {
                    &&& self.at_cursor(cursor).delays_sound(now@)
                    &&& self.at_cursor(cursor).skip_due(now@)
                    &&& self.at_cursor(next) == self.at_cursor(cursor).skipped()
                },
                Some(None) => {
                    &&& self.at_cursor(cursor).delays_sound(now@)
                    &&& !self.at_cursor(cursor).skip_due(now@)
                },
                None => !self.at_cursor(cursor).delays_sound(now@),
            },
    {
        let skip_delay = match self.sound_skip_delay(cursor) {
            Some(skip_delay) => skip_delay,
            None => {
                return None;
            },
        };
        let due = match cursor.timer.started.checked_add(skip_delay) {
            Some(due) => due,
            None => {
                return None;
            },
        };
        if !now.at_or_after(due) {
            return Some(None);
        }
        if cursor.endorsement_pending || cursor.timer.height == u64::MAX {
            return None;
        }
        let mut next = cursor;
        next.largest_target_height = if cursor.timer.height + 1 >= cursor.largest_target_height {
            cursor.timer.height + 1
        } else {
            cursor.largest_target_height
        };
        // Restart the timer
        next.timer.started = due;
        next.timer.height = cursor.timer.height + 1;
        assert(self.at_cursor(next) =~= self.at_cursor(cursor).skipped());
        Some(Some(next))
    }

    /// Where processing the timer at `now` leads and the heights for which it issues approvals, or
    /// `None` if it cannot be processed.
    fn plan_timer(&self, now: Instant) -> (r: Option<(TimerCursor, Vec<BlockHeight>)>)
        ensures
            match r {
                Some((cursor, targets)) => {
                    &&& self@.timer_runs(now@)
                    &&& self.at_cursor(cursor) == self@.after_timer(now@)
                    &&& targets@ == self@.timer_targets(now@)
                },
                None => !self@.timer_runs(now@),
            },
    {
        let (start, endorses) = match self.plan_endorsement(now) {
            Some(start) => start,
            None => {
                return None;
            },
        };
        let mut targets: Vec<BlockHeight> = Vec::new();
        if endorses {
            targets.push(self.tip.height + 1);
        }
        let ghost base = self.at_cursor(start);
        let ghost endorsed_targets = targets@;
        let mut cursor = start;
        let mut left: usize = MAX_TIMER_ITERS;
        assert(targets@ =~= endorsed_targets + Seq::new(
            0,
            |i: int| (self@.timer.height + 1 + i) as u64,
        ));
        while left > 0
            invariant
                base == self@.endorsed(now@),
                base.timer.height == self@.timer.height,
                left <= MAX_TIMER_ITERS,
                base.skips_run(now@, MAX_TIMER_ITERS as nat) == self.at_cursor(cursor).skips_run(
                    now@,
                    left as nat,
                ),
                base.after_skips(now@, MAX_TIMER_ITERS as nat) == self.at_cursor(
                    cursor,
                ).after_skips(now@, left as nat),
                base.skip_count(now@, MAX_TIMER_ITERS as nat) == (MAX_TIMER_ITERS - left)
                    + self.at_cursor(cursor).skip_count(now@, left as nat),
                cursor.timer.height == base.timer.height + (MAX_TIMER_ITERS - left),
                targets@ == endorsed_targets + Seq::new(
                    (MAX_TIMER_ITERS - left) as nat,
                    |i: int| (self@.timer.height + 1 + i) as u64,
                ),
                self@.endorsement_pending ==> span_in_range(
                    self@.timer.last_endorsement_sent + self@.timer.endorsement_delay,
                ),
                self@.endorses(now@) ==> self@.tip_height < u64::MAX,
                endorsed_targets == (if self@.endorses(now@) {
                    seq![(self@.tip_height + 1) as u64]
                } else {
                    Seq::empty()
                }),
            decreases left,
        {
            match self.plan_skip(cursor, now) {
                Some(Some(next)) => {
                    targets.push(cursor.timer.height + 1);
                    cursor = next;
                    left = left - 1;
                    assert(targets@ =~= endorsed_targets + Seq::new(
                        (MAX_TIMER_ITERS - left) as nat,
                        |i: int| (self@.timer.height + 1 + i) as u64,
                    ));
                },
                Some(None) => {
                    return Some((cursor, targets));
                },
                None => {
                    return None;
                },
            }
        }
        Some((cursor, targets))
    }

    /// Moves the timer and issues approvals for the given heights.
    fn run_timer(
        &mut self,
        cursor: TimerCursor,
        targets: &Vec<BlockHeight>,
        signer: &Option<Arc<ValidatorSigner>>,
    ) -> (approvals: Vec<Approval>)
        requires
            old(self).wf(),
        ensures
            final(self).wf(),
            final(self).reads() == old(self).reads(),
            final(self)@ == old(self).at_cursor(cursor),
            approvals_for(
                approvals@,
                targets@,
                old(self)@.tip_hash,
                old(self)@.tip_height,
                *signer,
            ),
    {
        self.largest_target_height = cursor.largest_target_height;
        self.endorsement_pending = cursor.endorsement_pending;
        self.timer = cursor.timer;
        let mut ret: Vec<Approval> = Vec::new();
        let mut i: usize = 0;
        while i < targets.len()
            invariant
                i <= targets@.len(),
                approvals_for(
                    ret@,
                    targets@.take(i as int),
                    self@.tip_hash,
                    self@.tip_height,
                    *signer,
                ),
            decreases targets@.len() - i,
        {
            if let Some(approval) = self.create_approval(targets[i], signer) {
                ret.push(approval);
            }
            i += 1;
        }
        assert(targets@.take(targets@.len() as int) =~= targets@);
        ret
    }

    /// Whether the skip delay of the current height is sound.
    pub fn is_skip_delay_sound(&self) -> (b: bool)
        ensures
            b == self@.skip_delay_sound(),
    {
        let cursor = TimerCursor {
            largest_target_height: self.largest_target_height,
            endorsement_pending: self.endorsement_pending,
            timer: self.timer,
        };
        assert(self.at_cursor(cursor) =~= self@);
        self.sound_skip_delay(cursor).is_some()
    }

    /// Whether the timer can be processed at `now`.
    pub fn timer_runs_at(&self, now: Instant) -> (b: bool)
        ensures
            b == self@.timer_runs(now@),
    {
        match self.plan_timer(now) {
            Some(_) => true,
            None => false,
        }
    }

    /// Processes the timer at `now`, see `process_timer`.
    pub fn process_timer_at(&mut self, now: Instant, signer: &Option<Arc<ValidatorSigner>>) -> (ret:
        Vec<Approval>)
        requires
            old(self).wf(),
            old(self)@.timer_runs(now@),
        ensures
            final(self).wf(),
            final(self).reads() == old(self).reads(),
            final(self)@ == old(self)@.after_timer(now@),
            approvals_for(
                ret@,
                old(self)@.timer_targets(now@),
                old(self)@.tip_hash,
                old(self)@.tip_height,
                *signer,
            ),
    {
        match self.plan_timer(now) {
            Some((cursor, targets)) => self.run_timer(cursor, &targets, signer),
            None => Vec::new(),
        }
    }

    /// Is expected to be called periodically and processed the timer (`start_timer` in the paper)
    /// If the clock is way ahead of last time the `process_timer` was called, will only process
    /// a bounded number of steps, to avoid an infinite loop in case of some bugs.
    /// Processes sending delayed approvals or skip messages
    /// A major difference with the paper is that we process endorsement from the `process_timer`,
    /// not at the time of receiving a block. It is done to stagger blocks if the network is way
    /// too fast (e.g. during tests, or if a large set of validators have connection significantly
    /// better between themselves than with the rest of the validators)
    ///
    /// Where the timer cannot be processed at the time that the clock shows (see `law_timer_runs`),
    /// nothing changes and no approvals are issued.
    ///
    /// # Returns
    /// A vector of approvals that need to be sent to other block producers as a result of processing
    /// the timers
    #[must_use]
    pub fn process_timer(&mut self, signer: &Option<Arc<ValidatorSigner>>) -> (ret: Vec<Approval>)
        requires
            old(self).wf(),
            old(self)@.skip_delay_sound(),
        ensures
            final(self).wf(),
            final(self).reads() == old(self).reads(),
            exists|now: Instant|
                old(self).reads().can_show(now@) && #[trigger] timer_outcome(
                    old(self)@,
                    now,
                    *signer,
                    final(self)@,
                    ret@,
                ),
    {
        let now = self.clock.now();
        let ret = match self.plan_timer(now) {
            Some((cursor, targets)) => self.run_timer(cursor, &targets, signer),
            None => Vec::new(),
        };
        assert(timer_outcome(old(self)@, now, *signer, self@, ret@));
        ret
    }

    /// Approves a block at `target_height` on top of the tip, if there is a signer.
    fn create_approval(
        &self,
        target_height: BlockHeight,
        signer: &Option<Arc<ValidatorSigner>>,
    ) -> (r: Option<Approval>)
        ensures
            match *signer {
                Some(signer) => r matches Some(approval) && approval.is_approval_of(
                    self@.tip_hash,
                    self@.tip_height,
                    target_height,
                    &*signer,
                ),
                None => r is None,
            },
    {
        match signer {
            Some(signer) => Some(
                Approval::new(self.tip.block_hash, self.tip.height, target_height, &**signer),
            ),
            None => None,
        }
    }

    /// Updates the current tip of the chain at `now`, see `set_tip`.
    pub fn set_tip_at(
        &mut self,
        block_hash: CryptoHash,
        height: BlockHeight,
        last_final_height: BlockHeight,
        now: Instant,
    )
        requires
            old(self).wf(),
            height > old(self)@.tip_height || old(self)@.tip_height == 0,
            height < u64::MAX,
        ensures
            final(self).wf(),
            final(self).reads() == old(self).reads(),
            final(self)@ == old(self)@.with_tip(block_hash, height, last_final_height, now@),
            final(self)@.tip_hash == block_hash,
            final(self)@.tip_height == height,
            final(self)@.largest_final_height == last_final_height,
            final(self)@.timer.height == height + 1,
            final(self)@.timer.started == now@,
            final(self)@.endorsement_pending,
    {
        prune_heights(&mut self.approval_tracking, height);
        self.tip = DoomslugTip { block_hash, height };
        self.largest_final_height = last_final_height;
        self.timer.height = height + 1;
        self.timer.started = now;
        self.endorsement_pending = true;
        assert(self@.tracking =~= old(self)@.tracking.restrict(horizon(height)));
    }

    /// Updates the current tip of the chain. Restarts the timer accordingly, and drops the approvals
    /// for heights outside the horizon of the new tip.
    ///
    /// # Arguments
    /// * `block_hash`     - the hash of the new tip
    /// * `height`         - the height of the tip
    /// * `last_final_height` - last height at which a block in this chain has doomslug finality
    pub fn set_tip(
        &mut self,
        block_hash: CryptoHash,
        height: BlockHeight,
        last_final_height: BlockHeight,
    )
        requires
            old(self).wf(),
            height > old(self)@.tip_height || old(self)@.tip_height == 0,
            height < u64::MAX,
        ensures
            final(self).wf(),
            final(self).reads() == old(self).reads(),
            old(self).reads().can_show(final(self)@.timer.started),
            final(self)@ == old(self)@.with_tip(
                block_hash,
                height,
                last_final_height,
                final(self)@.timer.started,
            ),
            final(self)@.tip_hash == block_hash,
            final(self)@.tip_height == height,
            final(self)@.largest_final_height == last_final_height,
            final(self)@.timer.height == height + 1,
            final(self)@.endorsement_pending,
    {
        let now = self.clock.now();
        self.set_tip_at(block_hash, height, last_final_height, now);
    }

    /// Records an approval message at `now`, see `on_approval_message_internal`.
    pub fn on_approval_message_at(
        &mut self,
        approval: &Approval,
        stakes: &[(ApprovalStake, bool)],
        now: Instant,
        utc: Utc,
    ) -> (ret: DoomslugBlockProductionReadiness)
        requires
            old(self).wf(),
            each_staked_once(stakes@),
            old(self)@.opens_tracker(*approval, stake_map(stakes@)) ==> totals_fit(stakes@),
        ensures
            final(self).wf(),
            final(self).reads() == old(self).reads(),
            final(self)@ == old(self)@.with_approval(*approval, stake_map(stakes@), now, utc),
            ret == old(self)@.approval_result(*approval, stake_map(stakes@), now, utc),
    {
        broadcast use vstd::std_specs::hash::group_hash_axioms;

        proof {
            lemma_stake_map_domain(stakes@);
            law_approval_keeps_consistent(self@, *approval, stake_map(stakes@), now, utc);
        }
        let height = approval.target_height;
        if height > self.largest_approval_height {
            self.largest_approval_height = height;
        }
        if !is_within_horizon(self.tip.height, height) {
            return DoomslugBlockProductionReadiness::NotReady;
        }
        let mut trackers = match self.approval_tracking.remove(&height) {
            Some(trackers) => trackers,
            None => DoomslugApprovalsTrackersAtHeight::new(),
        };
        assert(trackers@ == old(self)@.at_height(height));
        let ret = trackers.process_approval(approval, stakes, self.threshold_mode, now, utc);
        self.approval_tracking.insert(height, trackers);
        if ret != DoomslugBlockProductionReadiness::NotReady {
            if height > self.largest_threshold_height {
                self.largest_threshold_height = height;
            }
        }
        assert(self@.tracking =~= old(self)@.with_approval(
            *approval,
            stake_map(stakes@),
            now,
            utc,
        ).tracking);
        ret
    }

    /// Records an approval message, and return whether the block has passed the threshold / ready
    /// to be produced without waiting any further. See the comment for
    /// `DoomslugApprovalsTracker::process_approval` for details
    /// An approval for a height outside the horizon of the tip is not kept
    #[must_use]
    pub fn on_approval_message_internal(
        &mut self,
        approval: &Approval,
        stakes: &[(ApprovalStake, bool)],
    ) -> (ret: DoomslugBlockProductionReadiness)
        requires
            old(self).wf(),
            each_staked_once(stakes@),
            old(self)@.opens_tracker(*approval, stake_map(stakes@)) ==> totals_fit(stakes@),
        ensures
            final(self).wf(),
            final(self).reads() == old(self).reads(),
            exists|now: Instant, utc: Utc|
                old(self).reads().can_show(now@) && old(self).reads().can_show(
                    utc@ - old(self).reads().start_utc(),
                ) && #[trigger] approval_outcome(
                    old(self)@,
                    *approval,
                    stake_map(stakes@),
                    now,
                    utc,
                    final(self)@,
                    ret,
                ),
    {
        let utc = self.clock.now_utc();
        let now = self.clock.now();
        let ret = self.on_approval_message_at(approval, stakes, now, utc);
        assert(approval_outcome(
            old(self)@,
            *approval,
            stake_map(stakes@),
            now,
            utc,
            self@,
            ret,
        ));
        ret
    }
}

} // verus!
