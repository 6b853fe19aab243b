//! What holds of doomslug over several steps.

use crate::clock::{Instant, Utc};
use crate::doomslugs::{approval_outcome, horizon, timer_outcome, within_horizon};
use crate::doomslugs::{DoomslugState, MAX_TIMER_ITERS};
use crate::doomslugs::{
    MAX_HEIGHTS_AHEAD_TO_STORE_APPROVALS, MAX_HEIGHTS_BEFORE_TO_STORE_APPROVALS,
};
use crate::duration::span_in_range;
use crate::hash::CryptoHash;
use crate::height::{law_answer_to_approval, law_last_approval_is_kept};
use crate::height::law_processed_is_consistent;
use crate::height::{law_processed_is_for_height, HeightState};
use crate::keys::ed25519_signature;
use crate::model::{approval_inner, data_for_sig, Approval, ApprovalInner, Balance, BlockHeight};
use crate::model::ValidatorSigner;
use crate::stakes::{stake_sum, Epoch};
use crate::timer::{delay_steps, law_delay_bounds, law_delay_is_monotone, TimerState};
use crate::tracker::{DoomslugBlockProductionReadiness, DoomslugThresholdMode};
use std::sync::Arc;
use vstd::prelude::*;

verus! {

/// The state at the start is consistent.
pub proof fn law_initial_is_consistent(
    largest_target_height: BlockHeight,
    timer: TimerState,
    mode: DoomslugThresholdMode,
    tip_hash: CryptoHash,
)
    ensures
        DoomslugState::initial(largest_target_height, timer, mode, tip_hash).consistent(),
{
}

/// An approval keeps the state consistent.
pub proof fn law_approval_keeps_consistent(
    s: DoomslugState,
    approval: Approval,
    stakes: Map<Seq<char>, (Balance, Balance)>,
    now: Instant,
    utc: Utc,
)
    requires
        s.consistent(),
        stakes.dom().finite(),
    ensures
        s.with_approval(approval, stakes, now, utc).consistent(),
{
    let at = s.at_height(approval.target_height);
    assert(at.consistent());
    law_processed_is_consistent(at, approval, stakes, s.mode, now, utc);
    law_processed_is_for_height(at, approval, stakes, s.mode, now, utc);
}

/// An approval leaves everything at other heights as it is, and with it the tip and the timer.
pub proof fn law_approval_leaves_the_rest(
    s: DoomslugState,
    approval: Approval,
    stakes: Map<Seq<char>, (Balance, Balance)>,
    now: Instant,
    utc: Utc,
    height: BlockHeight,
)
    requires
        height != approval.target_height,
    ensures
        s.with_approval(approval, stakes, now, utc).at_height(height) == s.at_height(height),
        ({
            let after = s.with_approval(approval, stakes, now, utc);
            &&& after.timer == s.timer
            &&& after.tip_hash == s.tip_hash
            &&& after.tip_height == s.tip_height
            &&& after.endorsement_pending == s.endorsement_pending
            &&& after.largest_target_height == s.largest_target_height
            &&& after.largest_final_height == s.largest_final_height
            &&& after.mode == s.mode
        }),
{
}

/// An approval for a height outside the horizon of the tip is not kept, changes nothing that was
/// received, and makes no block ready.
pub proof fn law_outside_horizon_is_dropped(
    s: DoomslugState,
    approval: Approval,
    stakes: Map<Seq<char>, (Balance, Balance)>,
    now: Instant,
    utc: Utc,
)
    requires
        s.consistent(),
        !within_horizon(s.tip_height, approval.target_height),
    ensures
        s.with_approval(approval, stakes, now, utc).tracking == s.tracking,
        !s.with_approval(approval, stakes, now, utc).tracking.contains_key(approval.target_height),
        s.approval_result(approval, stakes, now, utc) == DoomslugBlockProductionReadiness::NotReady,
{
}

/// The heights from `low` to below `high` are as many as they are apart.
proof fn lemma_heights_between(low: int, high: int)
    requires
        0 <= low <= high <= u64::MAX + 1,
    ensures
        Set::new(|h: BlockHeight| low <= h < high).finite(),
        Set::new(|h: BlockHeight| low <= h < high).len() == high - low,
    decreases high - low,
{
    let heights = Set::new(|h: BlockHeight| low <= h < high);
    if low == high {
        assert(heights =~= Set::empty());
    } else {
        let fewer = Set::new(|h: BlockHeight| low <= h < high - 1);
        lemma_heights_between(low, high - 1);
        assert(heights =~= fewer.insert((high - 1) as u64));
    }
}

/// Whatever approvals are received, those that are kept are for a bounded number of heights, all of
/// them within the horizon of the tip.
pub proof fn law_tracked_heights_are_bounded(s: DoomslugState)
    requires
        s.consistent(),
    ensures
        s.tracking.dom().subset_of(horizon(s.tip_height)),
        s.tracking.dom().finite(),
        s.tracking.dom().len() <= MAX_HEIGHTS_BEFORE_TO_STORE_APPROVALS + 1
            + MAX_HEIGHTS_AHEAD_TO_STORE_APPROVALS,
{
    let low = if s.tip_height >= MAX_HEIGHTS_BEFORE_TO_STORE_APPROVALS {
        s.tip_height - MAX_HEIGHTS_BEFORE_TO_STORE_APPROVALS
    } else {
        0
    };
    let high = if s.tip_height + MAX_HEIGHTS_AHEAD_TO_STORE_APPROVALS <= u64::MAX {
        s.tip_height + MAX_HEIGHTS_AHEAD_TO_STORE_APPROVALS + 1
    } else {
        u64::MAX + 1
    };
    assert forall|h: BlockHeight| #[trigger] s.tracking.dom().contains(h) implies horizon(
        s.tip_height,
    ).contains(h) by {
        assert(s.tracking.contains_key(h));
    }
    lemma_heights_between(low, high);
    assert(horizon(s.tip_height) =~= Set::new(|h: BlockHeight| low <= h < high));
    vstd::set_lib::lemma_len_subset(s.tracking.dom(), horizon(s.tip_height));
}

/// For each account and each target height within the horizon of the tip the approval that came last
/// is kept, if the account has a stake. The approvals of all other accounts at that height stay.
pub proof fn law_last_approval_per_height_is_kept(
    s: DoomslugState,
    approval: Approval,
    stakes: Map<Seq<char>, (Balance, Balance)>,
    now: Instant,
    utc: Utc,
    other: Seq<char>,
)
    requires
        s.consistent(),
        other != approval.account_id@,
    ensures
        ({
            let before = s.at_height(approval.target_height);
            let after = s.with_approval(approval, stakes, now, utc).at_height(
                approval.target_height,
            );
            &&& after.kept(approval.account_id@) == (if within_horizon(
                s.tip_height,
                approval.target_height,
            ) && stakes.contains_key(approval.account_id@) {
                Some((approval, utc))
            } else {
                None
            })
            &&& after.kept(other) == before.kept(other)
        }),
{
    let at = s.at_height(approval.target_height);
    assert(at.consistent());
    law_last_approval_is_kept(at, approval, stakes, s.mode, now, utc, other);
}

/// The largest heights of approvals and of enough approvals never decrease, and are at least those of
/// the approval that came and of the block that it makes ready. They only change to its height.
pub proof fn law_approval_heights_grow(
    s: DoomslugState,
    approval: Approval,
    stakes: Map<Seq<char>, (Balance, Balance)>,
    now: Instant,
    utc: Utc,
)
    ensures
        ({
            let after = s.with_approval(approval, stakes, now, utc);
            &&& after.largest_approval_height >= s.largest_approval_height
            &&& after.largest_approval_height >= approval.target_height
            &&& after.largest_approval_height != s.largest_approval_height
                ==> after.largest_approval_height == approval.target_height
            &&& s.approval_result(approval, stakes, now, utc) is ReadySince
                ==> after.largest_threshold_height >= approval.target_height
            &&& after.largest_threshold_height >= s.largest_threshold_height
            &&& after.largest_threshold_height != s.largest_threshold_height ==> {
                &&& after.largest_threshold_height == approval.target_height
                &&& s.approval_result(approval, stakes, now, utc) is ReadySince
            }
        }),
{
}

/// Skips change nothing but the largest target height and, in the timer, the height and when the wait
/// for it began. There are at most `n` of them, and none is due after fewer.
proof fn lemma_after_skips_frame(s: DoomslugState, now: int, n: nat)
    ensures
        ({
            let after = s.after_skips(now, n);
            &&& after.tracking == s.tracking
            &&& after.largest_final_height == s.largest_final_height
            &&& after.largest_threshold_height == s.largest_threshold_height
            &&& after.largest_approval_height == s.largest_approval_height
            &&& after.tip_hash == s.tip_hash
            &&& after.tip_height == s.tip_height
            &&& after.endorsement_pending == s.endorsement_pending
            &&& after.mode == s.mode
            &&& after.timer.last_endorsement_sent == s.timer.last_endorsement_sent
            &&& after.timer.endorsement_delay == s.timer.endorsement_delay
            &&& after.timer.min_delay == s.timer.min_delay
            &&& after.timer.delay_step == s.timer.delay_step
            &&& after.timer.max_delay == s.timer.max_delay
            &&& s.skip_count(now, n) <= n
            &&& s.skip_count(now, n) < n ==> !after.skip_due(now)
        }),
    decreases n,
{
    if n > 0 && s.skip_due(now) {
        lemma_after_skips_frame(s.skipped(), now, (n - 1) as nat);
    }
}

/// Processing the timer and updating the tip keep the state consistent. The timer leaves all approvals
/// that were received as they are, and so does the tip for heights within its horizon, while it drops
/// those for all others.
pub proof fn law_timer_and_tip_keep_approvals(
    s: DoomslugState,
    now: int,
    block_hash: CryptoHash,
    height: BlockHeight,
    last_final_height: BlockHeight,
    target_height: BlockHeight,
)
    ensures
        s.consistent() ==> s.after_timer(now).consistent(),
        s.consistent() ==> s.with_tip(block_hash, height, last_final_height, now).consistent(),
        s.after_timer(now).tracking == s.tracking,
        s.with_tip(block_hash, height, last_final_height, now).at_height(target_height) == (
        if within_horizon(height, target_height) {
            s.at_height(target_height)
        } else {
            HeightState::empty()
        }),
        s.after_timer(now).tip_hash == s.tip_hash,
        s.after_timer(now).tip_height == s.tip_height,
{
    lemma_after_skips_frame(s.endorsed(now), now, MAX_TIMER_ITERS as nat);
}

/// Where the skips lead: the height moves on by one for each of them, and the largest target height
/// to the last one that was approved, unless it is larger already.
proof fn lemma_after_skips_heights(s: DoomslugState, now: int, n: nat)
    requires
        s.skips_run(now, n),
    ensures
        ({
            let after = s.after_skips(now, n);
            let count = s.skip_count(now, n);
            &&& after.timer.height == s.timer.height + count
            &&& count == 0 ==> after.largest_target_height == s.largest_target_height
            &&& count > 0 ==> after.largest_target_height == (if after.timer.height
                >= s.largest_target_height {
                after.timer.height
            } else {
                s.largest_target_height
            })
        }),
    decreases n,
{
    if n > 0 && s.skip_due(now) {
        lemma_after_skips_heights(s.skipped(), now, (n - 1) as nat);
    }
}

/// At most one approval is issued for each iteration, and one more for the endorsement.
pub proof fn law_approvals_are_bounded(s: DoomslugState, now: int)
    ensures
        s.timer_targets(now).len() <= MAX_TIMER_ITERS + 1,
        s.timer_targets(now).len() == s.endorsed(now).skip_count(now, MAX_TIMER_ITERS as nat) + (
        if s.endorses(now) {
            1int
        } else {
            0
        }),
{
    lemma_after_skips_frame(s.endorsed(now), now, MAX_TIMER_ITERS as nat);
}

/// The largest target height is the largest one for which an approval was issued: it never
/// decreases, none of the approvals is for a larger one, and it only changes to one of theirs.
pub proof fn law_largest_target_height(s: DoomslugState, now: int)
    requires
        s.timer_runs(now),
    ensures
        s.after_timer(now).largest_target_height >= s.largest_target_height,
        forall|i: int|
            0 <= i < s.timer_targets(now).len() ==> #[trigger] s.timer_targets(now)[i]
                <= s.after_timer(now).largest_target_height,
        s.after_timer(now).largest_target_height == s.largest_target_height || s.timer_targets(
            now,
        ).contains(s.after_timer(now).largest_target_height),
{
    let endorsed = s.endorsed(now);
    let count = endorsed.skip_count(now, MAX_TIMER_ITERS as nat);
    let targets = s.timer_targets(now);
    let after = s.after_timer(now);
    lemma_after_skips_heights(endorsed, now, MAX_TIMER_ITERS as nat);
    let first = if s.endorses(now) { 1int } else { 0 };
    assert(targets.len() == first + count);
    assert forall|i: int| 0 <= i < targets.len() implies #[trigger] targets[i]
        <= after.largest_target_height by {
        if i >= first {
            assert(targets[i] == s.timer.height + 1 + (i - first));
        }
    }
    if after.largest_target_height != s.largest_target_height {
        if after.largest_target_height == endorsed.largest_target_height {
            assert(targets[0] == after.largest_target_height);
        } else {
            assert(targets[first + count - 1] == after.largest_target_height);
        }
    }
}

/// The tip is only endorsed if no approval for the next height or a later one was issued, and it is
/// not endorsed again after that.
pub proof fn law_tip_is_endorsed_once(s: DoomslugState, now: int, later: int)
    requires
        s.timer_runs(now),
    ensures
        s.endorses(now) ==> {
            &&& s.timer_targets(now)[0] == s.tip_height + 1
            &&& s.timer_targets(now)[0] > s.largest_target_height
        },
        s.endorsement_due(now) ==> !s.after_timer(now).endorses(later),
        s.largest_target_height > s.tip_height ==> !s.endorses(now),
{
    lemma_after_skips_frame(s.endorsed(now), now, MAX_TIMER_ITERS as nat);
}

/// Skips are for consecutive heights, beginning after the one that is waited for. Once the timer
/// waits for a height above the tip, which it does from the first tip on, they are skips from the
/// height of the tip, while the endorsement is of its hash.
pub proof fn law_kinds_of_approvals(s: DoomslugState, now: int, i: int)
    requires
        s.timer_runs(now),
        s.timer.height > s.tip_height,
        0 <= i < s.timer_targets(now).len(),
    ensures
        ({
            let target = s.timer_targets(now)[i];
            let inner = approval_inner(s.tip_hash, s.tip_height, target);
            if s.endorses(now) && i == 0 {
                &&& target == s.tip_height + 1
                &&& inner == ApprovalInner::Endorsement(s.tip_hash)
            } else {
                &&& target == s.timer.height + 1 + i - (if s.endorses(now) {
                    1int
                } else {
                    0
                })
                &&& inner == ApprovalInner::Skip(s.tip_height)
            }
        }),
        s.after_timer(now).timer.height > s.after_timer(now).tip_height,
{
    lemma_after_skips_heights(s.endorsed(now), now, MAX_TIMER_ITERS as nat);
    lemma_after_skips_frame(s.endorsed(now), now, MAX_TIMER_ITERS as nat);
}

/// A new tip restarts the timer at the height after it, and its endorsement is pending.
pub proof fn law_tip_restarts_timer(
    s: DoomslugState,
    block_hash: CryptoHash,
    height: BlockHeight,
    last_final_height: BlockHeight,
    now: int,
)
    requires
        height < u64::MAX,
    ensures
        ({
            let after = s.with_tip(block_hash, height, last_final_height, now);
            &&& after.timer.height == after.tip_height + 1
            &&& after.timer.started == now
            &&& after.endorsement_pending
            &&& after.largest_target_height == s.largest_target_height
            &&& after.timer.last_endorsement_sent == s.timer.last_endorsement_sent
        }),
{
}

/// Before both the endorsement delay and the delay of the current height have passed, nothing
/// happens.
pub proof fn law_nothing_before_its_time(s: DoomslugState, now: int)
    requires
        !s.endorsement_due(now),
        !s.skip_due(now),
    ensures
        s.after_timer(now) == s,
        s.timer_targets(now) == Seq::<BlockHeight>::empty(),
{
    assert(s.timer_targets(now) =~= Seq::<BlockHeight>::empty());
}

/// Processing the timer again at the same time changes nothing and issues no approvals, unless the
/// first time it stopped at the bound on the number of iterations.
pub proof fn law_timer_is_idempotent(s: DoomslugState, now: int)
    requires
        s.endorsed(now).skip_count(now, MAX_TIMER_ITERS as nat) < MAX_TIMER_ITERS,
    ensures
        s.after_timer(now).after_timer(now) == s.after_timer(now),
        s.after_timer(now).timer_targets(now) == Seq::<BlockHeight>::empty(),
{
    let endorsed = s.endorsed(now);
    lemma_after_skips_frame(endorsed, now, MAX_TIMER_ITERS as nat);
    assert(!endorsed.endorsement_due(now));
    law_nothing_before_its_time(s.after_timer(now), now);
}

/// Whether the delays are in proportion: none is negative, and neither the shortest nor the longest
/// delay before a height is skipped is less than twice the endorsement delay. They are small enough
/// to be added up.
pub open spec fn delays_in_proportion(t: TimerState) -> bool {
    &&& 0 <= t.endorsement_delay
    &&& 0 <= t.delay_step
    &&& 2 * t.endorsement_delay <= t.min_delay
    &&& 2 * t.endorsement_delay <= t.max_delay
    &&& span_in_range(t.min_delay + t.delay_step * i32::MAX)
}

/// With delays in proportion, the skip delay of every height is sound, as long as the number of steps
/// can be represented as an `i32`.
pub proof fn law_delays_in_proportion_are_sound(s: DoomslugState)
    requires
        delays_in_proportion(s.timer),
        delay_steps(s.heights_since_final()) <= i32::MAX,
    ensures
        s.skip_delay_sound(),
{
    let t = s.timer;
    let n = s.heights_since_final();
    let k = delay_steps(n) as int;
    assert(0 <= t.delay_step * k <= t.delay_step * i32::MAX) by (nonlinear_arith)
        requires
            0 <= t.delay_step,
            0 <= k <= i32::MAX,
    ;
    law_delay_bounds(t, 0);
    law_delay_is_monotone(t, 0, n);
}

/// Whether the times in the timer are in order at `now`: no endorsement was sent later, and a pending
/// one dates from no earlier than the last one.
pub open spec fn timer_in_order(s: DoomslugState, now: int) -> bool {
    &&& s.timer.last_endorsement_sent <= now
    &&& s.endorsement_pending ==> s.timer.last_endorsement_sent <= s.timer.started
}

/// On a clock that never goes back, the times in the timer are always in order: they are at the start,
/// and stay so as time passes, with a new tip, an approval, and when the timer is processed.
pub proof fn law_timer_stays_in_order(
    s: DoomslugState,
    earlier: int,
    now: int,
    block_hash: CryptoHash,
    height: BlockHeight,
    last_final_height: BlockHeight,
    approval: Approval,
    stakes: Map<Seq<char>, (Balance, Balance)>,
    instant: Instant,
    utc: Utc,
)
    requires
        earlier <= now,
    ensures
        s.timer.last_endorsement_sent <= now && !s.endorsement_pending ==> timer_in_order(s, now),
        timer_in_order(s, earlier) ==> {
            &&& timer_in_order(s, now)
            &&& timer_in_order(s.with_tip(block_hash, height, last_final_height, now), now)
            &&& timer_in_order(s.with_approval(approval, stakes, instant, utc), now)
            &&& s.timer_runs(now) ==> timer_in_order(s.after_timer(now), now)
        },
{
    let endorsed = s.endorsed(now);
    lemma_after_skips_frame(endorsed, now, MAX_TIMER_ITERS as nat);
    if s.timer_runs(now) && endorsed.endorsement_pending {
        assert(endorsed.delays_sound(now));
        assert(!endorsed.skip_due(now));
    }
}

/// With a sound skip delay, no endorsement is pending any more when it is time to skip a height.
pub proof fn law_endorsement_comes_before_skip(s: DoomslugState, now: int)
    requires
        timer_in_order(s, now),
        s.skip_delay_sound(),
        s.skip_due(now),
    ensures
        !s.endorsed(now).endorsement_pending,
{
}

/// With a larger number of heights the delay still fits, as long as it does for an even larger one.
proof fn lemma_delay_fits_between(
    t: TimerState,
    n1: BlockHeight,
    n2: BlockHeight,
    n3: BlockHeight,
)
    requires
        t.delay_step >= 0,
        n1 <= n2 <= n3,
        delay_steps(n3) <= i32::MAX,
        t.delay_fits(n1),
        t.delay_fits(n3),
    ensures
        t.delay_fits(n2),
{
    let k1 = delay_steps(n1) as int;
    let k2 = delay_steps(n2) as int;
    let k3 = delay_steps(n3) as int;
    assert(0 <= t.delay_step * k1 <= t.delay_step * k2 <= t.delay_step * k3) by (nonlinear_arith)
        requires
            t.delay_step >= 0,
            0 <= k1 <= k2 <= k3,
    ;
}

/// Once the skip delay is sound and no endorsement is in the way, all skips run.
proof fn lemma_skips_run(s: DoomslugState, now: int, n: nat, most: BlockHeight)
    requires
        s.skip_delay_sound(),
        s.timer.delay_step >= 0,
        s.endorsement_pending ==> !s.skip_due(now),
        s.heights_since_final() + n <= most,
        delay_steps(most) <= i32::MAX,
        s.timer.delay_fits(most),
        s.timer.height + n <= u64::MAX,
        span_in_range(s.timer.started),
        span_in_range(s.timer.started + s.skip_delay()),
        span_in_range(now + s.timer.max_delay),
        s.skip_delay() < 0 ==> s.timer.started + n * s.skip_delay() >= i64::MIN * 1_000_000_000
            - 999_999_999,
    ensures
        s.skips_run(now, n),
    decreases n,
{
    if n > 0 && s.skip_due(now) {
        let next = s.skipped();
        let delay = s.skip_delay();
        let since = s.heights_since_final();
        let since_next = next.heights_since_final();
        lemma_delay_fits_between(s.timer, since, since_next, most);
        law_delay_is_monotone(s.timer, since, since_next);
        law_delay_bounds(s.timer, since_next);
        assert(next.skip_delay() == s.timer.delay(since_next));
        assert(n * delay == delay + (n - 1) * delay) by (nonlinear_arith);
        if next.skip_delay() < 0 {
            assert((n - 1) * delay <= (n - 1) * next.skip_delay() <= 0) by (nonlinear_arith)
                requires
                    n >= 1,
                    delay <= next.skip_delay() < 0,
            ;
            assert(n >= 2 ==> (n - 1) * next.skip_delay() <= next.skip_delay()) by (nonlinear_arith)
                requires
                    next.skip_delay() < 0,
            ;
        }
        if n >= 2 {
            lemma_skips_run(next, now, (n - 1) as nat, most);
        }
        assert(next.skips_run(now, (n - 1) as nat));
    }
}

/// On a clock that never goes back, and as long as heights and times stay in range, the timer can be
/// processed if and only if the skip delay of the current height is sound, whether or not anything is
/// due.
pub proof fn law_timer_runs(s: DoomslugState, now: int)
    requires
        timer_in_order(s, now),
        s.timer.delay_step >= 0,
        s.tip_height < u64::MAX,
        s.timer.height + MAX_TIMER_ITERS <= u64::MAX,
        s.heights_since_final() + MAX_TIMER_ITERS <= i32::MAX,
        s.timer.delay_fits((s.heights_since_final() + MAX_TIMER_ITERS) as u64),
        span_in_range(s.timer.last_endorsement_sent + s.timer.endorsement_delay),
        span_in_range(s.timer.started),
        span_in_range(s.timer.started + s.skip_delay()),
        span_in_range(s.timer.started + MAX_TIMER_ITERS * s.skip_delay()),
        span_in_range(now + s.timer.max_delay),
    ensures
        s.timer_runs(now) <==> s.skip_delay_sound(),
{
    let endorsed = s.endorsed(now);
    assert(endorsed.skip_delay_sound() == s.skip_delay_sound());
    if s.skip_delay_sound() {
        lemma_skips_run(
            endorsed,
            now,
            MAX_TIMER_ITERS as nat,
            (s.heights_since_final() + MAX_TIMER_ITERS) as u64,
        );
    } else {
        assert(!endorsed.delays_sound(now));
    }
}

/// At the start nothing is tracked, approved or pending, all heights are zero but the largest target
/// height, which is the given one, and so are the timer, the threshold and the hash of the tip.
pub proof fn law_state_at_the_start(
    largest_target_height: BlockHeight,
    timer: TimerState,
    mode: DoomslugThresholdMode,
    tip_hash: CryptoHash,
    height: BlockHeight,
)
    ensures
        ({
            let s = DoomslugState::initial(largest_target_height, timer, mode, tip_hash);
            &&& !s.tracking.contains_key(height)
            &&& s.largest_target_height == largest_target_height
            &&& s.largest_final_height == 0
            &&& s.largest_threshold_height == 0
            &&& s.largest_approval_height == 0
            &&& s.tip_hash == tip_hash
            &&& s.tip_height == 0
            &&& !s.endorsement_pending
            &&& s.timer == timer
            &&& s.mode == mode
        }),
{
}

/// The horizon of a tip are the heights from some below it to some above it.
pub proof fn law_horizon_is_around_the_tip(tip_height: BlockHeight, height: BlockHeight)
    ensures
        height <= tip_height ==> (within_horizon(tip_height, height) <==> tip_height - height
            <= MAX_HEIGHTS_BEFORE_TO_STORE_APPROVALS),
        height >= tip_height ==> (within_horizon(tip_height, height) <==> height - tip_height
            <= MAX_HEIGHTS_AHEAD_TO_STORE_APPROVALS),
        horizon(tip_height).contains(height) <==> within_horizon(tip_height, height),
{
}

/// After the tip was updated it is the block that was given, whatever the height is, with the last
/// final height that was given. The timer waits for the next height from now on, and an endorsement is
/// pending. The delays, the threshold, the largest heights and when an endorsement was last sent stay.
pub proof fn law_tip_is_the_given_block(
    s: DoomslugState,
    block_hash: CryptoHash,
    height: BlockHeight,
    last_final_height: BlockHeight,
    now: int,
)
    requires
        height < u64::MAX,
    ensures
        ({
            let after = s.with_tip(block_hash, height, last_final_height, now);
            &&& after.tip_hash == block_hash
            &&& after.tip_height == height
            &&& after.largest_final_height == last_final_height
            &&& after.timer.height == height + 1
            &&& after.timer.started == now
            &&& after.endorsement_pending
            &&& after.timer.last_endorsement_sent == s.timer.last_endorsement_sent
            &&& after.timer.endorsement_delay == s.timer.endorsement_delay
            &&& after.timer.min_delay == s.timer.min_delay
            &&& after.timer.delay_step == s.timer.delay_step
            &&& after.timer.max_delay == s.timer.max_delay
            &&& after.largest_target_height == s.largest_target_height
            &&& after.largest_threshold_height == s.largest_threshold_height
            &&& after.largest_approval_height == s.largest_approval_height
            &&& after.mode == s.mode
        }),
{
}

/// The tip is endorsed exactly if an endorsement is pending, the endorsement delay has passed since the
/// last one, and no approval for a height above the tip was issued. Then the first approval is for the
/// height after the tip, and endorses it.
pub proof fn law_tip_is_endorsed_when_due(s: DoomslugState, now: int)
    requires
        s.tip_height < u64::MAX,
        s.endorsement_pending,
        now >= s.timer.last_endorsement_sent + s.timer.endorsement_delay,
        s.tip_height >= s.largest_target_height,
    ensures
        s.timer_targets(now).len() > 0,
        s.timer_targets(now)[0] == s.tip_height + 1,
        approval_inner(s.tip_hash, s.tip_height, s.timer_targets(now)[0])
            == ApprovalInner::Endorsement(s.tip_hash),
{
}

/// A tip that no approval was issued above yet is the block that is endorsed next, once the endorsement
/// delay has passed.
pub proof fn law_new_tip_is_endorsed(
    s: DoomslugState,
    block_hash: CryptoHash,
    height: BlockHeight,
    last_final_height: BlockHeight,
    now: int,
    later: int,
)
    requires
        height < u64::MAX,
        height >= s.largest_target_height,
        later >= s.timer.last_endorsement_sent + s.timer.endorsement_delay,
    ensures
        ({
            let after = s.with_tip(block_hash, height, last_final_height, now);
            let targets = after.timer_targets(later);
            &&& targets.len() > 0
            &&& targets[0] == height + 1
            &&& approval_inner(after.tip_hash, after.tip_height, targets[0])
                == ApprovalInner::Endorsement(block_hash)
        }),
{
    law_tip_is_endorsed_when_due(s.with_tip(block_hash, height, last_final_height, now), later);
}

/// Where the skips lead when the waits for the heights begin at `starts`.
proof fn lemma_skips_are_spaced(s: DoomslugState, now: int, n: nat, starts: Seq<int>)
    requires
        starts.len() == n + 1,
        starts[0] == s.timer.started,
        s.timer.height + n <= u64::MAX,
        forall|j: int|
            0 < j <= n ==> #[trigger] starts[j] == starts[j - 1] + s.timer.delay(
                (if s.timer.height + j - 1 >= s.largest_final_height {
                    s.timer.height + j - 1 - s.largest_final_height
                } else {
                    0
                }) as u64,
            ),
    ensures
        ({
            let k = s.skip_count(now, n) as int;
            let after = s.after_skips(now, n);
            &&& 0 <= k <= n
            &&& forall|j: int| 0 < j <= k ==> #[trigger] starts[j] <= now
            &&& k < n ==> now < starts[k + 1]
            &&& after.timer.started == starts[k]
            &&& after.timer.height == s.timer.height + k
            &&& after.largest_target_height == (if k > 0 && s.timer.height + k
                > s.largest_target_height {
                (s.timer.height + k) as u64
            } else {
                s.largest_target_height
            })
        }),
    decreases n,
{
    if n > 0 {
        assert(starts[1] == starts[0] + s.skip_delay());
        if s.skip_due(now) {
            let next = s.skipped();
            let rest = starts.skip(1);
            assert forall|j: int| 0 < j <= n - 1 implies #[trigger] rest[j] == rest[j - 1]
                + next.timer.delay(
                (if next.timer.height + j - 1 >= next.largest_final_height {
                    next.timer.height + j - 1 - next.largest_final_height
                } else {
                    0
                }) as u64,
            ) by {
                assert(rest[j] == starts[j + 1]);
                assert(rest[j - 1] == starts[j]);
            }
            lemma_skips_are_spaced(next, now, (n - 1) as nat, rest);
            let k = s.skip_count(now, n) as int;
            assert(rest[k - 1] == starts[k]);
            assert forall|j: int| 0 < j <= k implies #[trigger] starts[j] <= now by {
                if j > 1 {
                    assert(rest[j - 1] == starts[j]);
                }
            }
            if k < n {
                assert(rest[k] == starts[k + 1]);
            }
        }
    }
}

/// Consecutive skips are spaced by their delays. Let the wait for the first height begin when the timer
/// says, and the wait for each further one after the delay of the height before it, which counts the
/// heights since the last final block. Then a height is skipped exactly if the wait for the one after
/// it begins no later than now and all heights before it are skipped, but no more heights than the
/// bound on the number of iterations. An approval is issued for the height after each of them, in order,
/// following the endorsement if there is one, and the timer is left where the last skip leads.
/// Nothing else changes.
pub proof fn law_skips_are_spaced(s: DoomslugState, now: int, starts: Seq<int>, endorsements: int)
    requires
        starts.len() == MAX_TIMER_ITERS + 1,
        starts[0] == s.timer.started,
        s.tip_height < u64::MAX,
        s.timer.height + MAX_TIMER_ITERS <= u64::MAX,
        forall|j: int|
            0 < j <= MAX_TIMER_ITERS ==> #[trigger] starts[j] == starts[j - 1] + s.timer.delay(
                (if s.timer.height + j - 1 >= s.largest_final_height {
                    s.timer.height + j - 1 - s.largest_final_height
                } else {
                    0
                }) as u64,
            ),
        endorsements == (if s.endorsement_pending && now >= s.timer.last_endorsement_sent
            + s.timer.endorsement_delay && s.tip_height >= s.largest_target_height {
            1int
        } else {
            0
        }),
    ensures
        ({
            let targets = s.timer_targets(now);
            let k = targets.len() - endorsements;
            let after = s.after_timer(now);
            &&& 0 <= k <= MAX_TIMER_ITERS
            &&& forall|j: int| 0 < j <= k ==> #[trigger] starts[j] <= now
            &&& k < MAX_TIMER_ITERS ==> now < starts[k + 1]
            &&& after.timer.started == starts[k]
            &&& after.timer.height == s.timer.height + k
            &&& endorsements == 1 ==> targets[0] == s.tip_height + 1
            &&& forall|i: int|
                endorsements <= i < targets.len() ==> #[trigger] targets[i] == s.timer.height + 1 + i
                    - endorsements
        }),
        ({
            let due = s.endorsement_pending && now >= s.timer.last_endorsement_sent
                + s.timer.endorsement_delay;
            let after = s.after_timer(now);
            &&& after.endorsement_pending == (s.endorsement_pending && !due)
            &&& after.timer.last_endorsement_sent == (if due {
                now
            } else {
                s.timer.last_endorsement_sent
            })
            &&& after.timer.endorsement_delay == s.timer.endorsement_delay
            &&& after.timer.min_delay == s.timer.min_delay
            &&& after.timer.delay_step == s.timer.delay_step
            &&& after.timer.max_delay == s.timer.max_delay
            &&& after.tracking == s.tracking
            &&& after.tip_hash == s.tip_hash
            &&& after.tip_height == s.tip_height
            &&& after.largest_final_height == s.largest_final_height
            &&& after.largest_threshold_height == s.largest_threshold_height
            &&& after.largest_approval_height == s.largest_approval_height
            &&& after.mode == s.mode
        }),
        ({
            let targets = s.timer_targets(now);
            let after = s.after_timer(now);
            &&& after.largest_target_height >= s.largest_target_height
            &&& forall|i: int|
                0 <= i < targets.len() ==> #[trigger] targets[i] <= after.largest_target_height
            &&& after.largest_target_height == s.largest_target_height || exists|i: int|
                0 <= i < targets.len() && #[trigger] targets[i] == after.largest_target_height
        }),
{
    let endorsed = s.endorsed(now);
    lemma_skips_are_spaced(endorsed, now, MAX_TIMER_ITERS as nat, starts);
    lemma_after_skips_frame(endorsed, now, MAX_TIMER_ITERS as nat);
    let targets = s.timer_targets(now);
    let after = s.after_timer(now);
    let k = endorsed.skip_count(now, MAX_TIMER_ITERS as nat) as int;
    assert(targets.len() == endorsements + k);
    assert forall|i: int| endorsements <= i < targets.len() implies #[trigger] targets[i]
        == s.timer.height + 1 + i - endorsements by {}
    if after.largest_target_height != s.largest_target_height {
        if after.largest_target_height == endorsed.largest_target_height {
            assert(targets[0] == after.largest_target_height);
        } else {
            assert(targets[endorsements + k - 1] == after.largest_target_height);
        }
    }
}

/// Once one height was skipped, the next one is not skipped before its own delay has passed too, also
/// where the delay is the longest there is: a call that skips `k` heights comes no earlier than `k` of
/// the shortest of their delays after the wait began.
pub proof fn law_skips_take_their_time(s: DoomslugState, now: int, shortest: int)
    requires
        s.tip_height < u64::MAX,
        s.timer.height + MAX_TIMER_ITERS <= u64::MAX,
        forall|n: BlockHeight| #[trigger] s.timer.delay(n) >= shortest,
    ensures
        ({
            let k = s.after_timer(now).timer.height - s.timer.height;
            &&& k > 0 ==> now >= s.timer.started + k * shortest
            &&& s.after_timer(now).timer.started >= s.timer.started + k * shortest
            &&& k > 0 ==> s.after_timer(now).timer.started <= now
        }),
{
    let endorsed = s.endorsed(now);
    assert forall|n: BlockHeight| #[trigger] endorsed.timer.delay(n) >= shortest by {
        assert(endorsed.timer.delay(n) == s.timer.delay(n));
    }
    lemma_skips_take_their_time(endorsed, now, MAX_TIMER_ITERS as nat, shortest);
}

/// What `law_skips_take_their_time` says, for the skips alone.
proof fn lemma_skips_take_their_time(s: DoomslugState, now: int, n: nat, shortest: int)
    requires
        s.timer.height + n <= u64::MAX,
        forall|m: BlockHeight| #[trigger] s.timer.delay(m) >= shortest,
    ensures
        ({
            let k = s.after_skips(now, n).timer.height - s.timer.height;
            &&& k >= 0
            &&& s.after_skips(now, n).timer.started >= s.timer.started + k * shortest
            &&& k > 0 ==> s.after_skips(now, n).timer.started <= now
            &&& k == 0 ==> s.after_skips(now, n).timer.started == s.timer.started
        }),
    decreases n,
{
    if n > 0 && s.skip_due(now) {
        let next = s.skipped();
        assert forall|m: BlockHeight| #[trigger] next.timer.delay(m) >= shortest by {
            assert(next.timer.delay(m) == s.timer.delay(m));
        }
        lemma_skips_take_their_time(next, now, (n - 1) as nat, shortest);
        let k = s.after_skips(now, n).timer.height - s.timer.height;
        assert(k * shortest == (k - 1) * shortest + shortest) by (nonlinear_arith);
        assert(s.skip_delay() >= shortest);
    } else {
        assert(0 * shortest == 0) by (nonlinear_arith);
    }
}

/// The skip delay is sound exactly if it can be calculated and is at least twice the endorsement delay,
/// where the heights since the last final block count.
pub proof fn law_sound_skip_delay(s: DoomslugState, n: BlockHeight)
    requires
        n == (if s.timer.height >= s.largest_final_height {
            s.timer.height - s.largest_final_height
        } else {
            0
        }),
    ensures
        s.skip_delay_sound() <==> {
            &&& s.timer.delay_fits(n)
            &&& span_in_range(2 * s.timer.endorsement_delay)
            &&& s.timer.delay(n) >= 2 * s.timer.endorsement_delay
        },
        s.skip_delay() == s.timer.delay(n),
{
}

/// States that agree on all that the timer looks at skip the same heights.
proof fn lemma_same_skips(s1: DoomslugState, s2: DoomslugState, now: int, n: nat)
    requires
        s1.timer == s2.timer,
        s1.largest_final_height == s2.largest_final_height,
        s1.largest_target_height == s2.largest_target_height,
        s1.endorsement_pending == s2.endorsement_pending,
    ensures
        s1.skip_count(now, n) == s2.skip_count(now, n),
        s1.skips_run(now, n) == s2.skips_run(now, n),
        s1.after_skips(now, n).timer == s2.after_skips(now, n).timer,
        s1.after_skips(now, n).largest_target_height == s2.after_skips(
            now,
            n,
        ).largest_target_height,
    decreases n,
{
    if n > 0 && s1.skip_due(now) {
        lemma_same_skips(s1.skipped(), s2.skipped(), now, (n - 1) as nat);
    }
}

/// What this validator issues does not depend on the approvals of others that it received: before and
/// after one, the timer can be processed at the same times, issues approvals for the same heights, and
/// leads to the same place. An approval that comes before the timer is processed is answered as one
/// that comes after it.
pub proof fn law_received_approvals_do_not_matter_to_the_timer(
    s: DoomslugState,
    approval: Approval,
    stakes: Map<Seq<char>, (Balance, Balance)>,
    instant: Instant,
    utc: Utc,
    now: int,
)
    ensures
        ({
            let received = s.with_approval(approval, stakes, instant, utc);
            &&& received.timer_runs(now) == s.timer_runs(now)
            &&& received.timer_targets(now) == s.timer_targets(now)
            &&& received.after_timer(now) == s.after_timer(now).with_approval(
                approval,
                stakes,
                instant,
                utc,
            )
            &&& s.after_timer(now).approval_result(approval, stakes, instant, utc)
                == s.approval_result(approval, stakes, instant, utc)
        }),
{
    let received = s.with_approval(approval, stakes, instant, utc);
    lemma_same_skips(s.endorsed(now), received.endorsed(now), now, MAX_TIMER_ITERS as nat);
    lemma_after_skips_frame(s.endorsed(now), now, MAX_TIMER_ITERS as nat);
    lemma_after_skips_frame(received.endorsed(now), now, MAX_TIMER_ITERS as nat);
    assert(received.timer_targets(now) =~= s.timer_targets(now));
    assert(received.after_timer(now) =~= s.after_timer(now).with_approval(
        approval,
        stakes,
        instant,
        utc,
    ));
}

/// Processing the timer issues one approval of the signer for each target height, in order, on top of
/// the tip: an endorsement of its hash for the next height and a skip from its height for any other.
/// Each is signed over what it says. Without a signer none is issued, and the state changes all the
/// same. Where the timer cannot be processed, nothing happens.
pub proof fn law_issued_approvals(
    before: DoomslugState,
    now: Instant,
    signer: Option<Arc<ValidatorSigner>>,
    after: DoomslugState,
    approvals: Seq<Approval>,
    i: int,
)
    requires
        timer_outcome(before, now, signer, after, approvals),
    ensures
        !before.timer_runs(now@) ==> after == before && approvals.len() == 0,
        before.timer_runs(now@) ==> after == before.after_timer(now@),
        signer is None ==> approvals.len() == 0,
        before.timer_runs(now@) && signer is Some ==> approvals.len() == before.timer_targets(
            now@,
        ).len(),
        before.timer_runs(now@) && signer is Some && 0 <= i < approvals.len() ==> {
            let target = before.timer_targets(now@)[i];
            &&& approvals[i].target_height == target
            &&& approvals[i].account_id@ == signer->0.account()
            &&& approvals[i].inner == (if target == before.tip_height + 1 {
                ApprovalInner::Endorsement(before.tip_hash)
            } else {
                ApprovalInner::Skip(before.tip_height)
            })
            &&& approvals[i].signature@ == ed25519_signature(
                signer->0.secret(),
                data_for_sig(approvals[i].inner, target),
            )
        },
{
}

/// Within the horizon of the tip, an approval is filed at its target height and answered by what is
/// known there, held to the threshold of this validator. What is known at other heights stays.
pub proof fn law_approval_is_filed_at_its_height(
    before: DoomslugState,
    approval: Approval,
    stakes: Map<Seq<char>, (Balance, Balance)>,
    now: Instant,
    utc: Utc,
    after: DoomslugState,
    answer: DoomslugBlockProductionReadiness,
    at: HeightState,
)
    requires
        approval_outcome(before, approval, stakes, now, utc, after, answer),
        within_horizon(before.tip_height, approval.target_height),
        at == (if before.tracking.contains_key(approval.target_height) {
            before.tracking[approval.target_height]
        } else {
            HeightState { trackers: Map::empty(), last: Map::empty() }
        }),
    ensures
        after.tracking == before.tracking.insert(
            approval.target_height,
            at.processed(approval, stakes, before.mode, now, utc),
        ),
        answer == at.process_result(approval, stakes, before.mode, now, utc),
{
}

/// A block that is known to be ready since some moment, and that another account approves too, is ready
/// since that same moment when a further approval comes, as long as its approvals suffice.
pub proof fn law_ready_block_stays_ready_since(
    s: DoomslugState,
    approval: Approval,
    stakes: Map<Seq<char>, (Balance, Balance)>,
    now: Instant,
    utc: Utc,
    since: Instant,
    other: Seq<char>,
)
    requires
        s.consistent(),
        stakes.contains_key(approval.account_id@),
        s.tracking.contains_key(approval.target_height),
        s.tracking[approval.target_height].trackers.contains_key(approval.inner),
        s.tracking[approval.target_height].trackers[approval.inner].ready_since == Some(since),
        s.tracking[approval.target_height].trackers[approval.inner].witness.contains_key(other),
        other != approval.account_id@,
    ensures
        s.approval_result(approval, stakes, now, utc)
            == DoomslugBlockProductionReadiness::ReadySince(since) || s.approval_result(
            approval,
            stakes,
            now,
            utc,
        ) == DoomslugBlockProductionReadiness::NotReady,
        ({
            let block = s.with_approval(approval, stakes, now, utc).at_height(
                approval.target_height,
            ).trackers[approval.inner];
            let enough = |epoch: Epoch|
                3 * stake_sum(block.stakes, block.witness.dom(), epoch) > 2 * stake_sum(
                    block.stakes,
                    block.stakes.dom(),
                    epoch,
                );
            let nobody = stake_sum(block.stakes, block.stakes.dom(), Epoch::Next) == 0;
            block.mode == DoomslugThresholdMode::NoApprovals || (enough(Epoch::This) && (enough(
                Epoch::Next,
            ) || nobody))
        }) <==> s.approval_result(approval, stakes, now, utc)
            == DoomslugBlockProductionReadiness::ReadySince(since),
{
    let at = s.tracking[approval.target_height];
    assert(at.approves(approval.inner, other));
    law_answer_to_approval(at, approval, stakes, s.mode, now, utc, other);
}

/// An approval that makes a block ready for the first time is answered with the moment at which it
/// came.
pub proof fn law_block_becomes_ready_now(
    s: DoomslugState,
    approval: Approval,
    stakes: Map<Seq<char>, (Balance, Balance)>,
    now: Instant,
    utc: Utc,
)
    requires
        s.consistent(),
        s.tracking.contains_key(approval.target_height) && s.tracking[approval.target_height]
            .trackers.contains_key(approval.inner)
            ==> s.tracking[approval.target_height].trackers[approval.inner].ready_since is None,
    ensures
        s.approval_result(approval, stakes, now, utc) is ReadySince ==> s.approval_result(
            approval,
            stakes,
            now,
            utc,
        ) == DoomslugBlockProductionReadiness::ReadySince(now),
{
    let at = s.at_height(approval.target_height);
    let other = approval.account_id@.push('a');
    assert(other.len() != approval.account_id@.len());
    if stakes.contains_key(approval.account_id@) {
        law_answer_to_approval(at, approval, stakes, s.mode, now, utc, other);
    }
}

/// The heights since the last final block, while the timer waits for the height `skipped` after the one
/// that it waits for now.
pub open spec fn heights_after(s: DoomslugState, skipped: int) -> BlockHeight {
    (if s.timer.height + skipped >= s.largest_final_height {
        s.timer.height + skipped - s.largest_final_height
    } else {
        0
    }) as u64
}

/// What `law_timer_runs_exactly` says, for the skips alone.
proof fn lemma_skips_run_exactly(s: DoomslugState, now: int, n: nat, starts: Seq<int>)
    requires
        starts.len() == n + 1,
        starts[0] == s.timer.started,
        s.timer.height + n <= u64::MAX,
        forall|j: int|
            0 < j <= n ==> #[trigger] starts[j] == starts[j - 1] + s.timer.delay(
                heights_after(s, j - 1),
            ),
    ensures
        s.skips_run(now, n) <==> {
            &&& s.skip_count(now, n) > 0 ==> !s.endorsement_pending
            &&& forall|j: int|
                0 < j <= s.skip_count(now, n) + 1 && j <= n ==> {
                    &&& span_in_range(#[trigger] starts[j])
                    &&& s.timer.delay_fits(heights_after(s, j - 1))
                    &&& span_in_range(2 * s.timer.endorsement_delay)
                    &&& s.timer.delay(heights_after(s, j - 1)) >= 2 * s.timer.endorsement_delay
                }
        },
    decreases n,
{
    if n > 0 {
        assert(starts[1] == starts[0] + s.skip_delay());
        assert(heights_after(s, 0) == s.heights_since_final());
        if s.skip_due(now) {
            let next = s.skipped();
            let rest = starts.skip(1);
            assert forall|j: int| 0 < j <= n - 1 implies #[trigger] rest[j] == rest[j - 1]
                + next.timer.delay(heights_after(next, j - 1)) by {
                assert(rest[j] == starts[j + 1]);
                assert(rest[j - 1] == starts[j]);
                assert(heights_after(next, j - 1) == heights_after(s, j));
            }
            lemma_skips_run_exactly(next, now, (n - 1) as nat, rest);
            let k = s.skip_count(now, n);
            assert forall|d: BlockHeight| #[trigger]
                next.timer.delay_fits(d) == s.timer.delay_fits(d) && next.timer.delay(d)
                    == s.timer.delay(d) by {}
            if s.skips_run(now, n) {
                assert forall|j: int| 0 < j <= k + 1 && j <= n implies {
                    &&& span_in_range(#[trigger] starts[j])
                    &&& s.timer.delay_fits(heights_after(s, j - 1))
                    &&& span_in_range(2 * s.timer.endorsement_delay)
                    &&& s.timer.delay(heights_after(s, j - 1)) >= 2 * s.timer.endorsement_delay
                } by {
                    if j > 1 {
                        assert(rest[j - 1] == starts[j]);
                        assert(heights_after(next, j - 2) == heights_after(s, j - 1));
                    }
                }
            }
            if (k > 0 ==> !s.endorsement_pending) && forall|j: int|
                0 < j <= k + 1 && j <= n ==> {
                    &&& span_in_range(#[trigger] starts[j])
                    &&& s.timer.delay_fits(heights_after(s, j - 1))
                    &&& span_in_range(2 * s.timer.endorsement_delay)
                    &&& s.timer.delay(heights_after(s, j - 1)) >= 2 * s.timer.endorsement_delay
                } {
                assert forall|j: int|
                    0 < j <= next.skip_count(now, (n - 1) as nat) + 1 && j <= n - 1 implies {
                    &&& span_in_range(#[trigger] rest[j])
                    &&& next.timer.delay_fits(heights_after(next, j - 1))
                    &&& span_in_range(2 * next.timer.endorsement_delay)
                    &&& next.timer.delay(heights_after(next, j - 1)) >= 2
                        * next.timer.endorsement_delay
                } by {
                    assert(rest[j] == starts[j + 1]);
                    assert(heights_after(next, j - 1) == heights_after(s, j));
                }
                assert(span_in_range(starts[1]));
            }
        } else {
            assert(s.skip_count(now, n) == 0);
        }
    }
}

/// When the timer can be processed, with the waits beginning at `starts` as in `law_skips_are_spaced`:
/// exactly if the moment at which the endorsement is due can be represented while one is pending, every
/// height that is looked at has a skip delay that can be calculated and is at least twice the
/// endorsement delay, the moment at which it is skipped can be represented, and no endorsement is still
/// pending when one is.
pub proof fn law_timer_runs_exactly(s: DoomslugState, now: int, starts: Seq<int>, skips: int)
    requires
        starts.len() == MAX_TIMER_ITERS + 1,
        starts[0] == s.timer.started,
        s.tip_height < u64::MAX,
        s.timer.height + MAX_TIMER_ITERS <= u64::MAX,
        forall|j: int|
            0 < j <= MAX_TIMER_ITERS ==> #[trigger] starts[j] == starts[j - 1] + s.timer.delay(
                heights_after(s, j - 1),
            ),
        skips == s.after_timer(now).timer.height - s.timer.height,
    ensures
        s.timer_runs(now) <==> {
            &&& s.endorsement_pending ==> span_in_range(
                s.timer.last_endorsement_sent + s.timer.endorsement_delay,
            )
            &&& s.endorsement_pending && skips > 0 ==> now >= s.timer.last_endorsement_sent
                + s.timer.endorsement_delay
            &&& forall|j: int|
                0 < j <= skips + 1 && j <= MAX_TIMER_ITERS ==> {
                    &&& span_in_range(#[trigger] starts[j])
                    &&& s.timer.delay_fits(heights_after(s, j - 1))
                    &&& span_in_range(2 * s.timer.endorsement_delay)
                    &&& s.timer.delay(heights_after(s, j - 1)) >= 2 * s.timer.endorsement_delay
                }
        },
{
    let endorsed = s.endorsed(now);
    assert forall|j: int| 0 < j <= MAX_TIMER_ITERS implies #[trigger] starts[j] == starts[j - 1]
        + endorsed.timer.delay(heights_after(endorsed, j - 1)) by {
        assert(heights_after(endorsed, j - 1) == heights_after(s, j - 1));
    }
    lemma_skips_are_spaced(endorsed, now, MAX_TIMER_ITERS as nat, starts);
    lemma_skips_run_exactly(endorsed, now, MAX_TIMER_ITERS as nat, starts);
    assert(skips == endorsed.skip_count(now, MAX_TIMER_ITERS as nat));
    assert forall|d: BlockHeight| #[trigger]
        endorsed.timer.delay_fits(d) == s.timer.delay_fits(d) && endorsed.timer.delay(d)
            == s.timer.delay(d) by {}
    assert forall|j: int| #[trigger] heights_after(endorsed, j) == heights_after(s, j) by {}
}

} // verus!
