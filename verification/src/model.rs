//! Accounts, signers and the approvals that they sign.

use crate::hash::CryptoHash;
use crate::keys::{base58_text, ed25519_signature, padded_seed, seeded_keypair};
use crate::keys::{PublicKey, SecretKey, Signature};
use std::str::FromStr;
use std::sync::Arc;
use vstd::bytes::{spec_u64_from_le_bytes, spec_u64_to_le_bytes, u64_to_le_bytes};
use vstd::prelude::*;
use vstd::string::StringExecFns;
use vstd::utf8::encode_utf8;

verus! {

/// Height of the block.
pub type BlockHeight = u64;

/// A number of heights.
pub type BlockHeightDelta = u64;

/// Balance is type for storing amounts of tokens.
pub type Balance = u128;

/// The name of an account. Its view is the characters of the name.
#[derive(Debug, PartialEq, Eq, PartialOrd, Ord, Hash)]
pub struct AccountId(pub(crate) String);

impl View for AccountId {
    type V = Seq<char>;

    closed spec fn view(&self) -> Seq<char> {
        self.0@
    }
}

impl Clone for AccountId {
    fn clone(&self) -> (id: AccountId)
        ensures
            id == *self,
    {
        AccountId(self.0.clone())
    }
}

impl AccountId {
    /// The account of the given name.
    pub fn new(name: &str) -> (id: AccountId)
        ensures
            id@ == name@,
    {
        AccountId(name.to_owned())
    }

    /// The name of the account.
    pub fn as_str(&self) -> (name: &str)
        ensures
            name@ == self@,
    {
        self.0.as_str()
    }

    /// The name of the account.
    pub fn to_string(&self) -> (name: String)
        ensures
            name@ == self@,
    {
        self.0.clone()
    }

    /// Whether two accounts have the same name.
    pub fn same(&self, other: &AccountId) -> (b: bool)
        ensures
            b == (self@ == other@),
    {
        self.0 == other.0
    }
}

impl FromStr for AccountId {
    type Err = ();

    fn from_str(account_id: &str) -> (r: Result<AccountId, ()>)
        ensures
            r matches Ok(id) && id@ == account_id@,
    {
        Ok(AccountId::new(account_id))
    }
}

/// Signer that keeps secret key in memory.
#[derive(PartialEq, Eq)]
pub struct Signer {
    pub account_id: AccountId,
    pub public_key: PublicKey,
    pub secret_key: SecretKey,
}

impl Clone for Signer {
    fn clone(&self) -> (signer: Signer)
        ensures
            signer == *self,
    {
        Signer {
            account_id: self.account_id.clone(),
            public_key: self.public_key,
            secret_key: self.secret_key,
        }
    }
}

impl Signer {
    /// The signer of an account with the key pair that a seed stands for.
    pub fn from_seed(account_id: AccountId, seed: &str) -> (signer: Signer)
        ensures
            signer.account_id == account_id,
            signer.secret_key@ == seeded_keypair(seed@),
            signer.public_key@ == seeded_keypair(seed@).subrange(32, 64),
    {
        let secret_key = SecretKey::from_seed(seed);
        Signer { account_id, public_key: secret_key.public_key(), secret_key }
    }

    /// The account and the public key, without the secret key.
    pub fn to_debug_string(&self) -> (text: String)
        ensures
            text@ == "InMemorySigner(account_id: "@ + self.account_id@ + ", public_key: "@
                + base58_text(self.public_key@) + ")"@,
    {
        let mut text = "InMemorySigner(account_id: ".to_owned();
        text.append(self.account_id.as_str());
        text.append(", public_key: ");
        text.append(self.public_key.to_string().as_str());
        text.append(")");
        text
    }
}

/// Signer that keeps secret key in memory and signs locally.
#[derive(PartialEq)]
pub struct ValidatorSigner {
    account_id: AccountId,
    signer: Arc<Signer>,
}

impl Clone for ValidatorSigner {
    fn clone(&self) -> (signer: ValidatorSigner)
        ensures
            signer == *self,
    {
        ValidatorSigner { account_id: self.account_id.clone(), signer: self.signer.clone() }
    }
}

impl ValidatorSigner {
    /// The name of the account that signs.
    pub closed spec fn account(&self) -> Seq<char> {
        self.account_id@
    }

    /// The secret key that signs.
    pub closed spec fn secret(&self) -> Seq<u8> {
        self.signer.secret_key.secret()
    }

    /// The signer that keeps the keys.
    pub closed spec fn inner(&self) -> Signer {
        *self.signer
    }

    /// The signer of an account with the key pair that a seed stands for.
    pub fn from_seed(account_id: AccountId, seed: &str) -> (signer: ValidatorSigner)
        ensures
            signer.account() == account_id@,
            signer.secret() == padded_seed(encode_utf8(seed@)),
            signer.inner().account_id == account_id,
            signer.inner().secret_key@ == seeded_keypair(seed@),
            signer.inner().public_key@ == seeded_keypair(seed@).subrange(32, 64),
    {
        let signer = Arc::new(Signer::from_seed(account_id.clone(), seed));
        proof {
            crate::keys::law_seeded_key_halves(signer.secret_key, seed@);
        }
        ValidatorSigner { account_id, signer }
    }

    /// The account that signs.
    pub fn validator_id(&self) -> (id: &AccountId)
        ensures
            id@ == self.account(),
    {
        &self.account_id
    }

    /// Signs bytes.
    pub fn sign_bytes(&self, bytes: &[u8]) -> (signature: Signature)
        ensures
            signature@ == ed25519_signature(self.secret(), bytes@),
    {
        self.signer.secret_key.sign(bytes)
    }
}

/// The signer of the account with the given name, whose seed is that name.
pub fn create_test_signer(account_name: &str) -> (signer: ValidatorSigner)
    ensures
        signer.account() == account_name@,
        signer.secret() == padded_seed(encode_utf8(account_name@)),
        signer.inner().account_id@ == account_name@,
        signer.inner().secret_key@ == seeded_keypair(account_name@),
        signer.inner().public_key@ == seeded_keypair(account_name@).subrange(32, 64),
{
    ValidatorSigner::from_seed(AccountId::new(account_name), account_name)
}

/// The part of the block approval that is different for endorsements and skips
#[derive(Debug, Clone, Copy, PartialEq, Eq, Hash)]
pub enum ApprovalInner {
    Endorsement(CryptoHash),
    Skip(BlockHeight),
}

/// What an approval of a block at `target_height` says of the block that it is built on: the next
/// height endorses that block, any other one skips the heights between them.
pub open spec fn approval_inner(
    parent_hash: CryptoHash,
    parent_height: BlockHeight,
    target_height: BlockHeight,
) -> ApprovalInner {
    if target_height == parent_height + 1 {
        ApprovalInner::Endorsement(parent_hash)
    } else {
        ApprovalInner::Skip(parent_height)
    }
}

impl ApprovalInner {
    /// An endorsement of the parent for the height that follows it, a skip for any other height.
    pub fn new(
        parent_hash: &CryptoHash,
        parent_height: BlockHeight,
        target_height: BlockHeight,
    ) -> (inner: ApprovalInner)
        ensures
            inner == approval_inner(*parent_hash, parent_height, target_height),
    {
        if target_height > 0 && target_height - 1 == parent_height {
            ApprovalInner::Endorsement(*parent_hash)
        } else {
            ApprovalInner::Skip(parent_height)
        }
    }

    /// Whether both endorse the same block, or both skip from the same height.
    pub fn same(&self, other: &ApprovalInner) -> (b: bool)
        ensures
            b == (*self == *other),
    {
        match (self, other) {
            (ApprovalInner::Endorsement(a), ApprovalInner::Endorsement(b)) => a.same(b),
            (ApprovalInner::Skip(a), ApprovalInner::Skip(b)) => *a == *b,
            _ => false,
        }
    }
}

/// The bytes that an approval signs: a tag and the hash or height, then the target height. Heights
/// are little-endian.
pub open spec fn data_for_sig(inner: ApprovalInner, target_height: BlockHeight) -> Seq<u8> {
    match inner {
        ApprovalInner::Endorsement(hash) => seq![0u8] + hash@ + spec_u64_to_le_bytes(target_height),
        ApprovalInner::Skip(height) => seq![1u8] + spec_u64_to_le_bytes(height)
            + spec_u64_to_le_bytes(target_height),
    }
}

/// Block approval by other block producers with a signature
#[derive(Debug, PartialEq, Eq)]
pub struct Approval {
    pub inner: ApprovalInner,
    pub target_height: BlockHeight,
    pub signature: Signature,
    pub account_id: AccountId,
}

impl Clone for Approval {
    fn clone(&self) -> (a: Approval)
        ensures
            a == *self,
    {
        Approval {
            inner: self.inner,
            target_height: self.target_height,
            signature: self.signature,
            account_id: self.account_id.clone(),
        }
    }
}

impl Approval {
    /// Whether this is the approval that `signer` gives to a block at `target_height` on top of the
    /// given parent.
    pub open spec fn is_approval_of(
        &self,
        parent_hash: CryptoHash,
        parent_height: BlockHeight,
        target_height: BlockHeight,
        signer: &ValidatorSigner,
    ) -> bool {
        let inner = approval_inner(parent_hash, parent_height, target_height);
        &&& self.inner == inner
        &&& self.target_height == target_height
        &&& self.account_id@ == signer.account()
        &&& self.signature@ == ed25519_signature(
            signer.secret(),
            data_for_sig(inner, target_height),
        )
    }

    /// The bytes that an approval signs.
    pub fn get_data_for_sig(inner: &ApprovalInner, target_height: BlockHeight) -> (data: Vec<u8>)
        ensures
            data@ == data_for_sig(*inner, target_height),
    {
        let mut data: Vec<u8> = Vec::new();
        match inner {
            ApprovalInner::Endorsement(hash) => {
                data.push(0);
                data.extend_from_slice(hash.as_bytes());
            },
            ApprovalInner::Skip(height) => {
                data.push(1);
                data.extend_from_slice(u64_to_le_bytes(*height).as_slice());
            },
        }
        data.extend_from_slice(u64_to_le_bytes(target_height).as_slice());
        assert(data@ =~= data_for_sig(*inner, target_height));
        data
    }

    /// Approves a block at `target_height` on top of the given parent.
    pub fn new(
        parent_hash: CryptoHash,
        parent_height: BlockHeight,
        target_height: BlockHeight,
        signer: &ValidatorSigner,
    ) -> (a: Approval)
        ensures
            a.is_approval_of(parent_hash, parent_height, target_height, signer),
    {
        let inner = ApprovalInner::new(&parent_hash, parent_height, target_height);
        let data = Approval::get_data_for_sig(&inner, target_height);
        let signature = signer.sign_bytes(data.as_slice());
        Approval { inner, target_height, signature, account_id: signer.validator_id().clone() }
    }
}

/// Stores validator and its stake for two consecutive epochs.
/// It is necessary because the blocks on the epoch boundary need to contain approvals from both
/// epochs.
#[derive(Debug, PartialEq, Eq)]
pub struct ApprovalStake {
    /// Account that stakes money.
    pub account_id: AccountId,
    /// Public key of the proposed validator.
    pub public_key: PublicKey,
    /// Stake / weight of the validator.
    pub stake_this_epoch: Balance,
    pub stake_next_epoch: Balance,
}

impl Clone for ApprovalStake {
    fn clone(&self) -> (stake: ApprovalStake)
        ensures
            stake == *self,
    {
        ApprovalStake {
            account_id: self.account_id.clone(),
            public_key: self.public_key,
            stake_this_epoch: self.stake_this_epoch,
            stake_next_epoch: self.stake_next_epoch,
        }
    }
}

/// Approvals that differ in what they approve sign different bytes.
pub proof fn law_data_for_sig_is_injective(
    inner1: ApprovalInner,
    target1: BlockHeight,
    inner2: ApprovalInner,
    target2: BlockHeight,
)
    requires
        data_for_sig(inner1, target1) == data_for_sig(inner2, target2),
    ensures
        inner1 == inner2,
        target1 == target2,
{
    broadcast use vstd::array::group_array_axioms;

    vstd::bytes::lemma_auto_spec_u64_to_from_le_bytes();
    let d1 = data_for_sig(inner1, target1);
    let d2 = data_for_sig(inner2, target2);
    let t1 = spec_u64_to_le_bytes(target1);
    let t2 = spec_u64_to_le_bytes(target2);
    assert(d1[0] == d2[0]);
    assert(d1.subrange(d1.len() - 8, d1.len() as int) =~= t1);
    assert(d2.subrange(d2.len() - 8, d2.len() as int) =~= t2);
    assert(spec_u64_from_le_bytes(t1) == target1);
    match (inner1, inner2) {
        (ApprovalInner::Endorsement(h1), ApprovalInner::Endorsement(h2)) => {
            assert(d1.subrange(1, 33) =~= h1@);
            assert(d2.subrange(1, 33) =~= h2@);
            assert forall|i: int| 0 <= i < 32 implies h1.0[i] == h2.0[i] by {
                assert(h1@[i] == h2@[i]);
            }
            assert(h1.0 =~= h2.0);
        },
        (ApprovalInner::Skip(h1), ApprovalInner::Skip(h2)) => {
            assert(d1.subrange(1, 9) =~= spec_u64_to_le_bytes(h1));
            assert(d2.subrange(1, 9) =~= spec_u64_to_le_bytes(h2));
            assert(spec_u64_from_le_bytes(spec_u64_to_le_bytes(h1)) == h1);
        },
        _ => {},
    }
}

/// An approval is an endorsement if and only if its block comes directly after the parent. Then it
/// names the hash of the parent, and otherwise the height of it.
pub proof fn law_kind_of_approval(
    parent_hash: CryptoHash,
    parent_height: BlockHeight,
    target_height: BlockHeight,
)
    ensures
        target_height == parent_height + 1 <==> approval_inner(
            parent_hash,
            parent_height,
            target_height,
        ) == ApprovalInner::Endorsement(parent_hash),
        target_height != parent_height + 1 <==> approval_inner(
            parent_hash,
            parent_height,
            target_height,
        ) == ApprovalInner::Skip(parent_height),
{
}

/// What an approval signs can be read back: a tag of one byte, then the hash or the height of the
/// parent, then the target height, and nothing else.
pub proof fn law_layout_of_signed_bytes(inner: ApprovalInner, target_height: BlockHeight)
    ensures
        ({
            let data = data_for_sig(inner, target_height);
            match inner {
                ApprovalInner::Endorsement(hash) => {
                    &&& data.len() == 41
                    &&& data[0] == 0
                    &&& data.subrange(1, 33) == hash@
                    &&& spec_u64_from_le_bytes(data.subrange(33, 41)) == target_height
                },
                ApprovalInner::Skip(height) => {
                    &&& data.len() == 17
                    &&& data[0] == 1
                    &&& spec_u64_from_le_bytes(data.subrange(1, 9)) == height
                    &&& spec_u64_from_le_bytes(data.subrange(9, 17)) == target_height
                },
            }
        }),
{
    vstd::bytes::lemma_auto_spec_u64_to_from_le_bytes();
    let data = data_for_sig(inner, target_height);
    let target = spec_u64_to_le_bytes(target_height);
    assert(data.subrange(data.len() - 8, data.len() as int) =~= target);
    assert(spec_u64_from_le_bytes(target) == target_height);
    match inner {
        ApprovalInner::Endorsement(hash) => {
            assert(data.subrange(1, 33) =~= hash@);
        },
        ApprovalInner::Skip(height) => {
            assert(data.subrange(1, 9) =~= spec_u64_to_le_bytes(height));
            assert(spec_u64_from_le_bytes(spec_u64_to_le_bytes(height)) == height);
        },
    }
}

/// An approval is for the height that was asked for, comes from the account of the signer, and its
/// signature is that of the signer over what the approval itself says.
pub proof fn law_approval_is_signed(
    approval: Approval,
    parent_hash: CryptoHash,
    parent_height: BlockHeight,
    target_height: BlockHeight,
    signer: &ValidatorSigner,
)
    requires
        approval.is_approval_of(parent_hash, parent_height, target_height, signer),
    ensures
        approval.target_height == target_height,
        approval.inner == (if target_height == parent_height + 1 {
            ApprovalInner::Endorsement(parent_hash)
        } else {
            ApprovalInner::Skip(parent_height)
        }),
        approval.account_id@ == signer.account(),
        approval.signature@ == ed25519_signature(
            signer.secret(),
            data_for_sig(approval.inner, approval.target_height),
        ),
{
}

} // verus!
