use doomslug::hash::{hash, CryptoHash};
use doomslug::keys::{PublicKey, Signature};
use doomslug::model::{create_test_signer, AccountId, Approval, ApprovalInner};
use doomslug::model::{Signer, ValidatorSigner};

#[test]
fn account_ids_keep_their_name() {
    let parsed: AccountId = "alice.near".parse().unwrap();
    assert_eq!(parsed, AccountId::new("alice.near"));
    assert_eq!(parsed.as_str(), "alice.near");
    assert_eq!(parsed.to_string(), "alice.near");
    assert_eq!(parsed.clone(), parsed);
    assert!(parsed.same(&AccountId::new("alice.near")));
    assert!(!parsed.same(&AccountId::new("alice.nea")));
    let empty: AccountId = "".parse().unwrap();
    assert_eq!(empty.as_str(), "");
}

#[test]
fn signer_shows_account_and_public_key_only() {
    let signer = Signer::from_seed(AccountId::new("alice"), "test");
    assert_eq!(signer.account_id, AccountId::new("alice"));
    assert_eq!(signer.public_key, signer.secret_key.public_key());
    assert_eq!(
        signer.to_debug_string(),
        "InMemorySigner(account_id: alice, public_key: DcA2MzgpJbrUATQLLceocVckhhAqrkingax4oJ9kZ847)",
    );
    assert!(signer.clone() == signer);
}

#[test]
fn validator_signer_signs_with_the_seeded_key() {
    let signer = ValidatorSigner::from_seed(AccountId::new("alice"), "test");
    assert_eq!(signer.validator_id(), &AccountId::new("alice"));
    let key = Signer::from_seed(AccountId::new("bob"), "test").secret_key;
    assert_eq!(signer.sign_bytes(b"message"), key.sign(b"message"));
    assert!(create_test_signer("test") == ValidatorSigner::from_seed(AccountId::new("test"), "test"));
    assert!(signer.clone() == signer);
    assert!(create_test_signer("test") != signer);
}

#[test]
fn next_height_endorses_and_other_heights_skip() {
    let parent = hash(&[1]);
    assert_eq!(ApprovalInner::new(&parent, 1, 2), ApprovalInner::Endorsement(parent));
    assert_eq!(ApprovalInner::new(&parent, 1, 3), ApprovalInner::Skip(1));
    assert_eq!(ApprovalInner::new(&parent, 1, 1), ApprovalInner::Skip(1));
    assert_eq!(ApprovalInner::new(&parent, 0, 1), ApprovalInner::Endorsement(parent));
    assert_eq!(ApprovalInner::new(&parent, u64::MAX, 0), ApprovalInner::Skip(u64::MAX));
    assert!(ApprovalInner::Skip(1).same(&ApprovalInner::Skip(1)));
    assert!(!ApprovalInner::Skip(1).same(&ApprovalInner::Skip(2)));
    assert!(!ApprovalInner::Skip(1).same(&ApprovalInner::Endorsement(parent)));
    assert!(ApprovalInner::Endorsement(parent).same(&ApprovalInner::Endorsement(parent)));
    assert!(!ApprovalInner::Endorsement(parent).same(&ApprovalInner::Endorsement(hash(&[2]))));
}

#[test]
fn signed_bytes_are_tag_then_parent_then_target() {
    let skip = Approval::get_data_for_sig(&ApprovalInner::Skip(258), 3);
    assert_eq!(skip, vec![1, 2, 1, 0, 0, 0, 0, 0, 0, 3, 0, 0, 0, 0, 0, 0, 0]);
    let endorsement = Approval::get_data_for_sig(&ApprovalInner::Endorsement(CryptoHash([9; 32])), 256);
    let mut expected: Vec<u8> = vec![0];
    expected.extend_from_slice(&[9; 32]);
    expected.extend_from_slice(&[0, 1, 0, 0, 0, 0, 0, 0]);
    assert_eq!(endorsement, expected);
}

#[test]
fn different_approvals_sign_different_bytes() {
    let parent = hash(&[1]);
    let approvals: Vec<(ApprovalInner, u64)> = vec![
        (ApprovalInner::Skip(1), 3),
        (ApprovalInner::Skip(3), 1),
        (ApprovalInner::Skip(1), 4),
        (ApprovalInner::Endorsement(parent), 3),
        (ApprovalInner::Endorsement(hash(&[2])), 3),
        (ApprovalInner::Endorsement(parent), 4),
    ];
    for (i, a) in approvals.iter().enumerate() {
        for (j, b) in approvals.iter().enumerate() {
            let same = Approval::get_data_for_sig(&a.0, a.1) == Approval::get_data_for_sig(&b.0, b.1);
            assert_eq!(same, i == j);
        }
    }
}

#[test]
fn approval_carries_a_signature_that_verifies() {
    let signer = create_test_signer("test");
    let approval = Approval::new(hash(&[1]), 1, 3, &signer);
    assert_eq!(approval.inner, ApprovalInner::Skip(1));
    assert_eq!(approval.target_height, 3);
    assert_eq!(approval.account_id, AccountId::new("test"));
    assert_eq!(approval.clone(), approval);
    let data = Approval::get_data_for_sig(&approval.inner, approval.target_height);
    let PublicKey::ED25519(key) = Signer::from_seed(AccountId::new("test"), "test").public_key;
    let verifying = ed25519_dalek::VerifyingKey::from_bytes(&key.0).unwrap();
    let Signature::ED25519(bytes) = approval.signature;
    let signature = ed25519_dalek::Signature::from_bytes(&bytes);
    assert!(verifying.verify_strict(&data, &signature).is_ok());
    let other = Approval::get_data_for_sig(&approval.inner, 4);
    assert!(verifying.verify_strict(&other, &signature).is_err());
}
