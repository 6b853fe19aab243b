use doomslug::clock::{Instant, Utc};
use doomslug::duration::Duration;
use doomslug::hash::hash;
use doomslug::keys::SecretKey;
use doomslug::model::{create_test_signer, AccountId, Approval, ApprovalStake};
use doomslug::stakes::{collect_stakes, has_stake, sum_stakes};
use doomslug::tracker::DoomslugApprovalsTracker;
use doomslug::tracker::{DoomslugBlockProductionReadiness, DoomslugThresholdMode};

fn stake(name: &str, this_epoch: u128, next_epoch: u128) -> (ApprovalStake, bool) {
    let stake = ApprovalStake {
        account_id: AccountId::new(name),
        public_key: SecretKey::from_seed(name).public_key(),
        stake_this_epoch: this_epoch,
        stake_next_epoch: next_epoch,
    };
    (stake, false)
}

fn tracker(
    stakes: &[(ApprovalStake, bool)],
    mode: DoomslugThresholdMode,
) -> DoomslugApprovalsTracker {
    DoomslugApprovalsTracker::new(stakes, mode)
}

fn approval(name: &str) -> Approval {
    Approval::new(hash(&[1]), 1, 2, &create_test_signer(name))
}

fn at(milliseconds: i64) -> Instant {
    Instant::start().checked_add(Duration::milliseconds(milliseconds)).unwrap()
}

/// Processes the approval of an account at the given time.
fn process(t: &mut DoomslugApprovalsTracker, name: &str, milliseconds: i64) -> Option<Instant> {
    match t.process_approval(&approval(name), at(milliseconds), Utc::unix_epoch()) {
        DoomslugBlockProductionReadiness::NotReady => None,
        DoomslugBlockProductionReadiness::ReadySince(since) => Some(since),
    }
}

#[test]
fn stakes_are_collected_by_account() {
    let mut slashed = stake("c", 50, 60);
    slashed.1 = true;
    let stakes = vec![stake("a", 2, 3), stake("b", 5, 0), slashed];
    let map = collect_stakes(&stakes);
    assert_eq!(map.get("a"), Some(&(2, 3)));
    assert_eq!(map.get("b"), Some(&(5, 0)));
    assert_eq!(map.get("c"), None);
    assert_eq!(map.len(), 2);
    assert!(has_stake(&stakes, &AccountId::new("a")));
    assert!(has_stake(&stakes, &AccountId::new("b")));
    assert!(!has_stake(&stakes, &AccountId::new("c")));
    assert!(!has_stake(&stakes, &AccountId::new("d")));
    assert_eq!(collect_stakes(&[]).len(), 0);
}

#[test]
fn last_stake_of_an_account_counts() {
    let stakes = vec![stake("a", 2, 3), stake("a", 7, 8)];
    let map = collect_stakes(&stakes);
    assert_eq!(map.get("a"), Some(&(7, 8)));
    assert_eq!(map.len(), 1);
}

#[test]
fn stakes_are_summed_per_epoch() {
    assert_eq!(sum_stakes(&[]), (0, 0));
    let stakes = vec![stake("a", 2, 30), stake("b", 5, 0), stake("c", 0, 4)];
    assert_eq!(sum_stakes(&stakes), (7, 34));
}

#[test]
fn exactly_two_thirds_do_not_suffice() {
    let stakes = vec![stake("a", 1, 0), stake("b", 1, 0), stake("c", 1, 0)];
    let mut t = tracker(&stakes, DoomslugThresholdMode::TwoThirds);
    assert_eq!(process(&mut t, "a", 0), None);
    assert_eq!(process(&mut t, "b", 1), None);
    assert_eq!(process(&mut t, "c", 2), Some(at(2)));
}

#[test]
fn more_than_two_thirds_suffice() {
    // The total is 7, so that 5 are needed.
    let stakes = vec![stake("a", 4, 0), stake("b", 1, 0), stake("c", 2, 0)];
    let mut t = tracker(&stakes, DoomslugThresholdMode::TwoThirds);
    assert_eq!(process(&mut t, "a", 0), None);
    assert_eq!(process(&mut t, "b", 5), Some(at(5)));
    // The total is 8, so that 6 are needed.
    let stakes = vec![stake("a", 5, 0), stake("b", 1, 0), stake("c", 2, 0)];
    let mut t = tracker(&stakes, DoomslugThresholdMode::TwoThirds);
    assert_eq!(process(&mut t, "a", 0), None);
    assert_eq!(process(&mut t, "b", 5), Some(at(5)));
}

#[test]
fn next_epoch_counts_unless_it_has_no_stake() {
    let stakes = vec![stake("a", 9, 1), stake("b", 1, 9)];
    let mut t = tracker(&stakes, DoomslugThresholdMode::TwoThirds);
    assert_eq!(process(&mut t, "a", 0), None);
    assert_eq!(process(&mut t, "b", 1), Some(at(1)));
    let mut t = tracker(&stakes, DoomslugThresholdMode::TwoThirds);
    assert_eq!(process(&mut t, "b", 0), None);
    let stakes = vec![stake("a", 9, 0), stake("b", 1, 0)];
    let mut t = tracker(&stakes, DoomslugThresholdMode::TwoThirds);
    assert_eq!(process(&mut t, "a", 3), Some(at(3)));
}

#[test]
fn no_stake_at_all_never_suffices() {
    let stakes = vec![stake("a", 0, 0)];
    let mut t = tracker(&stakes, DoomslugThresholdMode::TwoThirds);
    assert_eq!(process(&mut t, "a", 0), None);
}

#[test]
fn largest_possible_stakes_are_handled() {
    let third: u128 = u128::MAX / 3;
    let stakes = vec![stake("a", third, 0), stake("b", third, 0), stake("c", third, 0)];
    assert_eq!(sum_stakes(&stakes), (u128::MAX, 0));
    let mut t = tracker(&stakes, DoomslugThresholdMode::TwoThirds);
    assert_eq!(process(&mut t, "a", 0), None);
    assert_eq!(process(&mut t, "b", 1), None);
    assert_eq!(process(&mut t, "c", 2), Some(at(2)));
    let stakes = vec![stake("a", 2 * third + 1, 0), stake("b", third - 1, 0)];
    let mut t = tracker(&stakes, DoomslugThresholdMode::TwoThirds);
    assert_eq!(process(&mut t, "a", 4), Some(at(4)));
}

#[test]
fn without_threshold_the_block_is_ready_at_once() {
    let stakes = vec![stake("a", 1, 1), stake("b", 100, 100)];
    let mut t = tracker(&stakes, DoomslugThresholdMode::NoApprovals);
    assert_eq!(process(&mut t, "a", 7), Some(at(7)));
    assert_eq!(process(&mut t, "b", 9), Some(at(7)));
    let mut t = tracker(&stakes, DoomslugThresholdMode::NoApprovals);
    assert_eq!(
        t.get_block_production_readiness(at(3)),
        DoomslugBlockProductionReadiness::ReadySince(at(3)),
    );
}

#[test]
fn same_account_counts_once() {
    let stakes = vec![stake("a", 2, 0), stake("b", 2, 0)];
    let mut t = tracker(&stakes, DoomslugThresholdMode::TwoThirds);
    assert_eq!(process(&mut t, "a", 0), None);
    assert_eq!(process(&mut t, "a", 1), None);
    assert_eq!(process(&mut t, "b", 2), Some(at(2)));
}

#[test]
fn account_without_stake_adds_nothing() {
    let stakes = vec![stake("a", 1, 0)];
    let mut t = tracker(&stakes, DoomslugThresholdMode::TwoThirds);
    assert_eq!(process(&mut t, "stranger", 0), None);
    assert!(!t.is_empty());
    t.withdraw_approval(&AccountId::new("stranger"));
    assert!(t.is_empty());
    assert_eq!(process(&mut t, "a", 1), Some(at(1)));
}

#[test]
fn withdrawal_undoes_an_approval() {
    let stakes = vec![stake("a", 2, 0), stake("b", 1, 0)];
    let mut t = tracker(&stakes, DoomslugThresholdMode::TwoThirds);
    assert!(t.is_empty());
    assert_eq!(process(&mut t, "a", 0), None);
    t.withdraw_approval(&AccountId::new("a"));
    assert!(t.is_empty());
    t.withdraw_approval(&AccountId::new("a"));
    assert!(t.is_empty());
    assert_eq!(process(&mut t, "b", 1), None);
    assert!(!t.is_empty());
    assert_eq!(process(&mut t, "a", 2), Some(at(2)));
}

#[test]
fn moment_of_readiness_is_kept() {
    let stakes = vec![stake("a", 2, 0), stake("b", 1, 0)];
    let mut t = tracker(&stakes, DoomslugThresholdMode::TwoThirds);
    process(&mut t, "a", 0);
    assert_eq!(process(&mut t, "b", 10), Some(at(10)));
    assert_eq!(
        t.get_block_production_readiness(at(20)),
        DoomslugBlockProductionReadiness::ReadySince(at(10)),
    );
    t.withdraw_approval(&AccountId::new("b"));
    assert_eq!(
        t.get_block_production_readiness(at(30)),
        DoomslugBlockProductionReadiness::NotReady,
    );
    assert_eq!(process(&mut t, "b", 40), Some(at(10)));
}

#[test]
fn two_quorums_share_more_than_a_third() {
    let names: Vec<&str> = vec!["a", "b", "c", "d"];
    let weights: Vec<u128> = vec![1, 2, 3, 4];
    let stakes: Vec<(ApprovalStake, bool)> =
        (0..4).map(|i: usize| stake(names[i], weights[i], 0)).collect();
    let ready = |set: usize| -> bool {
        let mut t = tracker(&stakes, DoomslugThresholdMode::TwoThirds);
        for i in 0..4usize {
            if set & (1 << i) != 0 {
                process(&mut t, names[i], 0);
            }
        }
        t.get_block_production_readiness(at(0)) != DoomslugBlockProductionReadiness::NotReady
    };
    let weight = |set: usize| -> u128 {
        (0..4).filter(|i: &usize| set & (1 << *i) != 0).map(|i: usize| weights[i]).sum()
    };
    for a in 0..16usize {
        assert_eq!(ready(a), 3 * weight(a) > 20);
        for b in 0..16usize {
            if ready(a) && ready(b) {
                assert!(3 * weight(a & b) > 10);
            }
        }
    }
}
