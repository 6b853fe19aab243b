use doomslug::clock::{FakeClock, Utc};
use doomslug::doomslugs::Doomslug;
use doomslug::duration::Duration;
use doomslug::hash::hash;
use doomslug::keys::SecretKey;
use doomslug::model::{create_test_signer, Approval, ApprovalInner, ApprovalStake};
use doomslug::tracker::{DoomslugBlockProductionReadiness, DoomslugThresholdMode};
use std::sync::Arc;

#[test]
fn test_endorsements_and_skips_basic() {
    let clock = FakeClock::new(Utc::unix_epoch());
    let signer = Some(Arc::new(create_test_signer("test")));
    let mut ds = Doomslug::new(
        clock.clock(),
        0,
        Duration::milliseconds(400),
        Duration::milliseconds(1000),
        Duration::milliseconds(100),
        Duration::milliseconds(3000),
        DoomslugThresholdMode::NoApprovals,
    );

    // Set a new tip, must produce an endorsement
    ds.set_tip(hash(&[1]), 1, 1);
    clock.advance(Duration::milliseconds(399));
    assert_eq!(ds.process_timer(&signer).len(), 0);
    clock.advance(Duration::milliseconds(1));
    let approval = ds.process_timer(&signer).into_iter().nth(0).unwrap();
    assert_eq!(approval.inner, ApprovalInner::Endorsement(hash(&[1])));
    assert_eq!(approval.target_height, 2);

    // Same tip => no approval
    assert_eq!(ds.process_timer(&signer), vec![]);

    // The block was `ds_final` and therefore started the timer. Try checking before one second expires
    clock.advance(Duration::milliseconds(599));
    assert_eq!(ds.process_timer(&signer), vec![]);

    // But one second should trigger the skip
    clock.advance(Duration::milliseconds(1));
    match ds.process_timer(&signer) {
        approvals if approvals.is_empty() => assert!(false),
        approvals => {
            assert_eq!(approvals[0].inner, ApprovalInner::Skip(1));
            assert_eq!(approvals[0].target_height, 3);
        }
    }

    // Not processing a block at height 2 should not produce an appoval
    ds.set_tip(hash(&[2]), 2, 0);
    clock.advance(Duration::milliseconds(400));
    assert_eq!(ds.process_timer(&signer), vec![]);

    // Go forward more so we have 1 second
    clock.advance(Duration::milliseconds(600));

    // But at height 3 should (also neither block has finality set, keep last final at 0 for now)
    ds.set_tip(hash(&[3]), 3, 0);
    clock.advance(Duration::milliseconds(400));
    let approval = ds.process_timer(&signer).into_iter().nth(0).unwrap();
    assert_eq!(approval.inner, ApprovalInner::Endorsement(hash(&[3])));
    assert_eq!(approval.target_height, 4);

    // Go forward more so we have another second
    clock.advance(Duration::milliseconds(600));

    clock.advance(Duration::milliseconds(199));
    assert_eq!(ds.process_timer(&signer), vec![]);

    clock.advance(Duration::milliseconds(1));
    match ds.process_timer(&signer) {
        approvals if approvals.is_empty() => assert!(false),
        approvals if approvals.len() == 1 => {
            assert_eq!(approvals[0].inner, ApprovalInner::Skip(3));
            assert_eq!(approvals[0].target_height, 5);
        }
        _ => assert!(false),
    }

    // Go forward more so we have another second
    clock.advance(Duration::milliseconds(800));

    // Now skip 5 (the extra delay is 200+300 = 500)
    clock.advance(Duration::milliseconds(499));
    assert_eq!(ds.process_timer(&signer), vec![]);

    clock.advance(Duration::milliseconds(1));
    match ds.process_timer(&signer) {
        approvals if approvals.is_empty() => assert!(false),
        approvals => {
            assert_eq!(approvals[0].inner, ApprovalInner::Skip(3));
            assert_eq!(approvals[0].target_height, 6);
        }
    }

    // Go forward more so we have another second
    clock.advance(Duration::milliseconds(500));

    // Skip 6 (the extra delay is 0+200+300+400 = 900)
    clock.advance(Duration::milliseconds(899));
    assert_eq!(ds.process_timer(&signer), vec![]);

    clock.advance(Duration::milliseconds(1));
    match ds.process_timer(&signer) {
        approvals if approvals.is_empty() => assert!(false),
        approvals => {
            assert_eq!(approvals[0].inner, ApprovalInner::Skip(3));
            assert_eq!(approvals[0].target_height, 7);
        }
    }

    // Go forward more so we have another second
    clock.advance(Duration::milliseconds(100));

    // Accept block at 5 with finality on the prev block, expect it to not produce an approval
    ds.set_tip(hash(&[5]), 5, 4);
    clock.advance(Duration::milliseconds(400));
    assert_eq!(ds.process_timer(&signer), vec![]);

    // Skip a whole bunch of heights by moving 100 seconds ahead
    clock.advance(Duration::seconds(100));
    assert!(ds.process_timer(&signer).len() > 10);

    // Add some random small number of milliseconds to test that when the next block is added, the
    // timer is reset
    clock.advance(Duration::milliseconds(17));

    // No approval, since we skipped 6
    ds.set_tip(hash(&[6]), 6, 4);
    clock.advance(Duration::milliseconds(400));
    assert_eq!(ds.process_timer(&signer), vec![]);

    // The block height was less than the timer height, and thus the timer was reset.
    // The wait time for height 7 with last ds final block at 5 is 1100
    clock.advance(Duration::milliseconds(699));
    assert_eq!(ds.process_timer(&signer), vec![]);

    clock.advance(Duration::milliseconds(1));
    match ds.process_timer(&signer) {
        approvals if approvals.is_empty() => assert!(false),
        approvals => {
            assert_eq!(approvals[0].inner, ApprovalInner::Skip(6));
            assert_eq!(approvals[0].target_height, 8);
        }
    }
}

#[test]
fn test_doomslug_approvals() {
    let accounts: Vec<(&str, u128, u128)> =
        vec![("test1", 2, 0), ("test2", 1, 0), ("test3", 3, 0), ("test4", 1, 0)];
    let stakes = accounts
        .iter()
        .map(|(account_id, stake_this_epoch, stake_next_epoch)| ApprovalStake {
            account_id: account_id.parse().unwrap(),
            stake_this_epoch: *stake_this_epoch,
            stake_next_epoch: *stake_next_epoch,
            public_key: SecretKey::from_seed(account_id).public_key(),
        })
        .map(|stake| (stake, false))
        .collect::<Vec<_>>();
    let signers = accounts
        .iter()
        .map(|(account_id, _, _)| create_test_signer(account_id))
        .collect::<Vec<_>>();

    let clock = FakeClock::new(Utc::unix_epoch());
    let mut ds = Doomslug::new(
        clock.clock(),
        0,
        Duration::milliseconds(400),
        Duration::milliseconds(1000),
        Duration::milliseconds(100),
        Duration::milliseconds(3000),
        DoomslugThresholdMode::TwoThirds,
    );

    // In the comments below the format is
    // account, height -> approved stake
    // The total stake is 7, so the threshold is 5

    // "test1", 2 -> 2
    assert_eq!(
        ds.on_approval_message_internal(
            &Approval::new(hash(&[1]), 1, 2, &signers[0]),
            &stakes,
        ),
        DoomslugBlockProductionReadiness::NotReady,
    );

    // "test3", 4 -> 3
    assert_eq!(
        ds.on_approval_message_internal(
            &Approval::new(hash(&[1]), 1, 4, &signers[2]),
            &stakes,
        ),
        DoomslugBlockProductionReadiness::NotReady,
    );

    // "test4", 4 -> 4
    assert_eq!(
        ds.on_approval_message_internal(
            &Approval::new(hash(&[1]), 1, 4, &signers[3]),
            &stakes,
        ),
        DoomslugBlockProductionReadiness::NotReady,
    );

    clock.advance(Duration::milliseconds(100));

    // "test1", 4 -> same account, still 5
    assert_eq!(
        ds.on_approval_message_internal(
            &Approval::new(hash(&[1]), 1, 4, &signers[3]),
            &stakes,
        ),
        DoomslugBlockProductionReadiness::NotReady,
    );

    // "test2", 4 -> 5
    assert_eq!(
        ds.on_approval_message_internal(
            &Approval::new(hash(&[1]), 1, 4, &signers[1]),
            &stakes,
        ),
        DoomslugBlockProductionReadiness::ReadySince(clock.now()),
    );

    // "test1", 4 -> 7
    assert_eq!(
        ds.on_approval_message_internal(
            &Approval::new(hash(&[1]), 1, 4, &signers[0]),
            &stakes,
        ),
        DoomslugBlockProductionReadiness::ReadySince(clock.now()),
    );

    // "test4", 2 -> 3
    assert_eq!(
        ds.on_approval_message_internal(
            &Approval::new(hash(&[1]), 1, 2, &signers[3]),
            &stakes,
        ),
        DoomslugBlockProductionReadiness::NotReady,
    );

    clock.advance(Duration::milliseconds(200));

    // "test3", 2 -> 6
    assert_eq!(
        ds.on_approval_message_internal(
            &Approval::new(hash(&[1]), 1, 2, &signers[2]),
            &stakes,
        ),
        DoomslugBlockProductionReadiness::ReadySince(clock.now()),
    );

    // A different parent hash
    assert_eq!(
        ds.on_approval_message_internal(
            &Approval::new(hash(&[2]), 2, 4, &signers[1]),
            &stakes,
        ),
        DoomslugBlockProductionReadiness::NotReady,
    );
}
