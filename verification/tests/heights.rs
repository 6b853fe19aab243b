use doomslug::clock::{Instant, Utc};
use doomslug::duration::Duration;
use doomslug::hash::hash;
use doomslug::height::DoomslugApprovalsTrackersAtHeight;
use doomslug::keys::SecretKey;
use doomslug::model::{create_test_signer, AccountId, Approval, ApprovalStake};
use doomslug::tracker::{DoomslugBlockProductionReadiness, DoomslugThresholdMode};

fn stakes(entries: &[(&str, u128)]) -> Vec<(ApprovalStake, bool)> {
    entries
        .iter()
        .map(|(name, amount)| ApprovalStake {
            account_id: AccountId::new(name),
            public_key: SecretKey::from_seed(name).public_key(),
            stake_this_epoch: *amount,
            stake_next_epoch: 0,
        })
        .map(|stake| (stake, false))
        .collect()
}

fn at(milliseconds: i64) -> Instant {
    Instant::start().checked_add(Duration::milliseconds(milliseconds)).unwrap()
}

/// Processes the approval of a block at height 4 on top of the given one.
fn process(
    trackers: &mut DoomslugApprovalsTrackersAtHeight,
    name: &str,
    parent_height: u64,
    stakes: &[(ApprovalStake, bool)],
    milliseconds: i64,
) -> Option<Instant> {
    let approval = Approval::new(hash(&[1]), parent_height, 4, &create_test_signer(name));
    let mode = DoomslugThresholdMode::TwoThirds;
    match trackers.process_approval(&approval, stakes, mode, at(milliseconds), Utc::unix_epoch()) {
        DoomslugBlockProductionReadiness::NotReady => None,
        DoomslugBlockProductionReadiness::ReadySince(since) => Some(since),
    }
}

#[test]
fn newer_approval_replaces_the_older_one() {
    let stakes = stakes(&[("a", 1), ("b", 1), ("c", 1)]);
    let mut trackers = DoomslugApprovalsTrackersAtHeight::new();
    assert_eq!(process(&mut trackers, "a", 1, &stakes, 0), None);
    assert_eq!(process(&mut trackers, "b", 1, &stakes, 1), None);
    // "a" moves to another block, which leaves the first one short of it.
    assert_eq!(process(&mut trackers, "a", 2, &stakes, 2), None);
    assert_eq!(process(&mut trackers, "c", 1, &stakes, 3), None);
    // "a" moves back.
    assert_eq!(process(&mut trackers, "a", 1, &stakes, 4), Some(at(4)));
}

#[test]
fn block_without_approvals_is_forgotten() {
    let two = stakes(&[("a", 2), ("b", 1)]);
    let one = stakes(&[("a", 2)]);
    let mut trackers = DoomslugApprovalsTrackersAtHeight::new();
    assert_eq!(process(&mut trackers, "a", 1, &two, 0), None);
    assert_eq!(process(&mut trackers, "a", 2, &two, 1), None);
    // The first block is opened anew, with the stakes that come now.
    assert_eq!(process(&mut trackers, "a", 1, &one, 2), Some(at(2)));
}

#[test]
fn repeated_approval_of_one_account_opens_the_block_anew() {
    let one = stakes(&[("a", 1)]);
    let mut trackers = DoomslugApprovalsTrackersAtHeight::new();
    assert_eq!(process(&mut trackers, "a", 1, &one, 0), Some(at(0)));
    assert_eq!(process(&mut trackers, "a", 1, &one, 9), Some(at(9)));
}

#[test]
fn repeated_approval_among_others_keeps_the_moment() {
    let stakes = stakes(&[("a", 1), ("b", 1)]);
    let mut trackers = DoomslugApprovalsTrackersAtHeight::new();
    assert_eq!(process(&mut trackers, "a", 1, &stakes, 0), None);
    assert_eq!(process(&mut trackers, "b", 1, &stakes, 5), Some(at(5)));
    assert_eq!(process(&mut trackers, "b", 1, &stakes, 9), Some(at(5)));
}

#[test]
fn account_without_stake_is_not_ready() {
    let all = stakes(&[("a", 1), ("b", 1)]);
    let without_b = stakes(&[("a", 1)]);
    let mut trackers = DoomslugApprovalsTrackersAtHeight::new();
    assert_eq!(process(&mut trackers, "stranger", 1, &all, 0), None);
    assert_eq!(process(&mut trackers, "a", 1, &all, 1), None);
    assert_eq!(process(&mut trackers, "b", 1, &all, 2), Some(at(2)));
    // "b" has no stake any more: its approval is withdrawn and the new one is dropped.
    assert_eq!(process(&mut trackers, "b", 1, &without_b, 3), None);
    assert_eq!(process(&mut trackers, "a", 1, &all, 4), None);
}

#[test]
fn stakes_of_the_first_approval_decide() {
    let first = stakes(&[("a", 1), ("b", 9)]);
    let second = stakes(&[("a", 9), ("b", 1), ("c", 1)]);
    let mut trackers = DoomslugApprovalsTrackersAtHeight::new();
    assert_eq!(process(&mut trackers, "a", 1, &first, 0), None);
    assert_eq!(process(&mut trackers, "c", 1, &second, 1), None);
    assert_eq!(process(&mut trackers, "b", 1, &second, 2), Some(at(2)));
}

#[test]
fn at_most_one_block_is_ready() {
    let stakes = stakes(&[("a", 1), ("b", 1), ("c", 1), ("d", 1)]);
    let mut trackers = DoomslugApprovalsTrackersAtHeight::new();
    for name in ["a", "b"] {
        assert_eq!(process(&mut trackers, name, 1, &stakes, 0), None);
    }
    assert_eq!(process(&mut trackers, "c", 1, &stakes, 1), Some(at(1)));
    for name in ["a", "b"] {
        assert_eq!(process(&mut trackers, name, 2, &stakes, 2), None);
    }
    // Three of four are needed for the second block, which leaves at most one for the first.
    assert_eq!(process(&mut trackers, "d", 2, &stakes, 3), Some(at(3)));
    assert_eq!(process(&mut trackers, "c", 1, &stakes, 4), None);
}
