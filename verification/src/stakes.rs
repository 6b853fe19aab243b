//! Stakes of accounts in two consecutive epochs, and what sets of accounts hold together.

use crate::model::{AccountId, ApprovalStake, Balance};
use vstd::hash_map::StringHashMap;
use vstd::prelude::*;

verus! {

/// One of the two epochs that a stake is held in.
pub enum Epoch {
    This,
    Next,
}

/// The stake that an entry of a stake list gives in an epoch.
pub open spec fn entry_stake(stake: (Balance, Balance), epoch: Epoch) -> nat {
    match epoch {
        Epoch::This => stake.0 as nat,
        Epoch::Next => stake.1 as nat,
    }
}

/// The stake of an account in an epoch. An account without an entry holds none.
pub open spec fn stake_at(
    stakes: Map<Seq<char>, (Balance, Balance)>,
    account: Seq<char>,
    epoch: Epoch,
) -> nat {
    if stakes.contains_key(account) {
        entry_stake(stakes[account], epoch)
    } else {
        0
    }
}

/// The stake of a finite set of accounts in an epoch.
pub open spec fn stake_sum(
    stakes: Map<Seq<char>, (Balance, Balance)>,
    accounts: Set<Seq<char>>,
    epoch: Epoch,
) -> nat
    decreases accounts.len(),
{
    if accounts.finite() && accounts.len() > 0 {
        let account = accounts.choose();
        stake_at(stakes, account, epoch) + stake_sum(stakes, accounts.remove(account), epoch)
    } else {
        0
    }
}

/// The stake of all accounts together in an epoch.
pub open spec fn total_stake(stakes: Map<Seq<char>, (Balance, Balance)>, epoch: Epoch) -> nat {
    stake_sum(stakes, stakes.dom(), epoch)
}

/// The stakes of the accounts in a list that are not marked as slashed. Where an account occurs more
/// than once, its last entry counts.
pub open spec fn stake_map(entries: Seq<(ApprovalStake, bool)>) -> Map<
    Seq<char>,
    (Balance, Balance),
>
    decreases entries.len(),
{
    if entries.len() == 0 {
        Map::empty()
    } else {
        let (stake, slashed) = entries.last();
        let before = stake_map(entries.drop_last());
        if slashed {
            before
        } else {
            before.insert(
                stake.account_id@,
                (stake.stake_this_epoch, stake.stake_next_epoch),
            )
        }
    }
}

/// Whether no entry of a list is marked as slashed and no account occurs more than once.
pub open spec fn each_staked_once(entries: Seq<(ApprovalStake, bool)>) -> bool {
    &&& forall|i: int| 0 <= i < entries.len() ==> !(#[trigger] entries[i]).1
    &&& forall|i: int, j: int|
        0 <= i < j < entries.len() ==> (#[trigger] entries[i]).0.account_id@ != (
        #[trigger] entries[j]).0.account_id@
}

/// Whether the stake of all accounts of a list can be represented in both epochs.
pub open spec fn totals_fit(entries: Seq<(ApprovalStake, bool)>) -> bool {
    &&& total_stake(stake_map(entries), Epoch::This) <= Balance::MAX
    &&& total_stake(stake_map(entries), Epoch::Next) <= Balance::MAX
}

/// Taking one account out of a set takes its stake out of the sum.
pub proof fn lemma_stake_sum_remove(
    stakes: Map<Seq<char>, (Balance, Balance)>,
    accounts: Set<Seq<char>>,
    account: Seq<char>,
    epoch: Epoch,
)
    requires
        accounts.finite(),
        accounts.contains(account),
    ensures
        stake_sum(stakes, accounts, epoch) == stake_at(stakes, account, epoch) + stake_sum(
            stakes,
            accounts.remove(account),
            epoch,
        ),
    decreases accounts.len(),
{
    let chosen = accounts.choose();
    if chosen != account {
        lemma_stake_sum_remove(stakes, accounts.remove(chosen), account, epoch);
        lemma_stake_sum_remove(stakes, accounts.remove(account), chosen, epoch);
        assert(accounts.remove(chosen).remove(account) =~= accounts.remove(account).remove(chosen));
    }
}

/// Adding an account to a set adds its stake to the sum.
pub proof fn lemma_stake_sum_insert(
    stakes: Map<Seq<char>, (Balance, Balance)>,
    accounts: Set<Seq<char>>,
    account: Seq<char>,
    epoch: Epoch,
)
    requires
        accounts.finite(),
        !accounts.contains(account),
    ensures
        stake_sum(stakes, accounts.insert(account), epoch) == stake_at(stakes, account, epoch)
            + stake_sum(stakes, accounts, epoch),
{
    lemma_stake_sum_remove(stakes, accounts.insert(account), account, epoch);
    assert(accounts.insert(account).remove(account) =~= accounts);
}

/// A set holds no more than another one that has all of its accounts with a stake.
pub proof fn lemma_stake_sum_monotone(
    stakes: Map<Seq<char>, (Balance, Balance)>,
    fewer: Set<Seq<char>>,
    more: Set<Seq<char>>,
    epoch: Epoch,
)
    requires
        fewer.finite(),
        more.finite(),
        forall|a: Seq<char>| #[trigger]
            fewer.contains(a) ==> more.contains(a) || stake_at(stakes, a, epoch) == 0,
    ensures
        stake_sum(stakes, fewer, epoch) <= stake_sum(stakes, more, epoch),
    decreases fewer.len(),
{
    if fewer.len() > 0 {
        let account = fewer.choose();
        if more.contains(account) {
            lemma_stake_sum_remove(stakes, more, account, epoch);
            lemma_stake_sum_monotone(stakes, fewer.remove(account), more.remove(account), epoch);
        } else {
            lemma_stake_sum_monotone(stakes, fewer.remove(account), more, epoch);
        }
    }
}

/// No set of accounts holds more than all of them together.
pub proof fn lemma_stake_sum_at_most_total(
    stakes: Map<Seq<char>, (Balance, Balance)>,
    accounts: Set<Seq<char>>,
    epoch: Epoch,
)
    requires
        accounts.finite(),
        stakes.dom().finite(),
    ensures
        stake_sum(stakes, accounts, epoch) <= total_stake(stakes, epoch),
{
    lemma_stake_sum_monotone(stakes, accounts, stakes.dom(), epoch);
}

/// Two sets without a common account hold together what each of them holds.
pub proof fn lemma_stake_sum_disjoint(
    stakes: Map<Seq<char>, (Balance, Balance)>,
    accounts1: Set<Seq<char>>,
    accounts2: Set<Seq<char>>,
    epoch: Epoch,
)
    requires
        accounts1.finite(),
        accounts2.finite(),
        accounts1.disjoint(accounts2),
    ensures
        stake_sum(stakes, accounts1.union(accounts2), epoch) == stake_sum(stakes, accounts1, epoch)
            + stake_sum(stakes, accounts2, epoch),
    decreases accounts1.len(),
{
    if accounts1.len() == 0 {
        assert(accounts1.union(accounts2) =~= accounts2);
    } else {
        let account = accounts1.choose();
        let fewer = accounts1.remove(account);
        lemma_stake_sum_disjoint(stakes, fewer, accounts2, epoch);
        lemma_stake_sum_insert(stakes, fewer.union(accounts2), account, epoch);
        assert(accounts1.union(accounts2) =~= fewer.union(accounts2).insert(account));
    }
}

/// The sum depends only on the stakes of the accounts in the set.
proof fn lemma_stake_sum_congruent(
    stakes1: Map<Seq<char>, (Balance, Balance)>,
    stakes2: Map<Seq<char>, (Balance, Balance)>,
    accounts: Set<Seq<char>>,
    epoch: Epoch,
)
    requires
        forall|a: Seq<char>| #[trigger]
            accounts.contains(a) ==> stake_at(stakes1, a, epoch) == stake_at(stakes2, a, epoch),
    ensures
        stake_sum(stakes1, accounts, epoch) == stake_sum(stakes2, accounts, epoch),
    decreases accounts.len(),
{
    if accounts.finite() && accounts.len() > 0 {
        let account = accounts.choose();
        lemma_stake_sum_congruent(stakes1, stakes2, accounts.remove(account), epoch);
    }
}

/// A further account adds its stake to the total.
pub proof fn lemma_total_stake_insert(
    stakes: Map<Seq<char>, (Balance, Balance)>,
    account: Seq<char>,
    stake: (Balance, Balance),
    epoch: Epoch,
)
    requires
        stakes.dom().finite(),
        !stakes.contains_key(account),
    ensures
        total_stake(stakes.insert(account, stake), epoch) == entry_stake(stake, epoch)
            + total_stake(stakes, epoch),
{
    let after = stakes.insert(account, stake);
    lemma_stake_sum_insert(after, stakes.dom(), account, epoch);
    assert(after.dom() =~= stakes.dom().insert(account));
    assert forall|a: Seq<char>| #[trigger] stakes.dom().contains(a) implies stake_at(
        stakes,
        a,
        epoch,
    ) == stake_at(after, a, epoch) by {
        assert(a != account);
    }
    lemma_stake_sum_congruent(stakes, after, stakes.dom(), epoch);
}

/// A list of stakes maps finitely many accounts: those of the entries that are not slashed.
pub proof fn lemma_stake_map_domain(entries: Seq<(ApprovalStake, bool)>)
    ensures
        stake_map(entries).dom().finite(),
        stake_map(entries).len() <= entries.len(),
        forall|a: Seq<char>| #[trigger]
            stake_map(entries).contains_key(a) <==> exists|i: int|
                0 <= i < entries.len() && !(#[trigger] entries[i]).1 && entries[i].0.account_id@
                    == a,
    decreases entries.len(),
{
    if entries.len() > 0 {
        let before = entries.drop_last();
        lemma_stake_map_domain(before);
        assert forall|a: Seq<char>| #[trigger]
            stake_map(entries).contains_key(a) <==> exists|i: int|
                0 <= i < entries.len() && !(#[trigger] entries[i]).1 && entries[i].0.account_id@
                    == a by {
            if stake_map(before).contains_key(a) {
                let i = choose|i: int|
                    0 <= i < before.len() && !(#[trigger] before[i]).1 && before[i].0.account_id@
                        == a;
                assert(entries[i] == before[i]);
            }
            if exists|i: int|
                0 <= i < entries.len() && !(#[trigger] entries[i]).1 && entries[i].0.account_id@
                    == a {
                let i = choose|i: int|
                    0 <= i < entries.len() && !(#[trigger] entries[i]).1
                        && entries[i].0.account_id@ == a;
                if i < entries.len() - 1 {
                    assert(before[i] == entries[i]);
                } else {
                    assert(entries.last() == entries[i]);
                }
            }
            if stake_map(entries).contains_key(a) && !stake_map(before).contains_key(a) {
                assert(entries[entries.len() - 1] == entries.last());
            }
        }
    }
}

/// A list stakes each account once if and only if it maps as many accounts as it has entries.
pub proof fn law_each_staked_once_counts(entries: Seq<(ApprovalStake, bool)>)
    ensures
        each_staked_once(entries) <==> stake_map(entries).len() == entries.len(),
    decreases entries.len(),
{
    lemma_stake_map_domain(entries);
    if entries.len() > 0 {
        let before = entries.drop_last();
        let last = entries.last();
        assert(entries[entries.len() - 1] == last);
        law_each_staked_once_counts(before);
        lemma_stake_map_domain(before);
        if each_staked_once(entries) {
            assert forall|i: int| 0 <= i < before.len() implies !(#[trigger] before[i]).1 by {
                assert(entries[i] == before[i]);
            }
            assert forall|i: int, j: int| 0 <= i < j < before.len() implies (
            #[trigger] before[i]).0.account_id@ != (#[trigger] before[j]).0.account_id@ by {
                assert(entries[i] == before[i]);
                assert(entries[j] == before[j]);
            }
            if stake_map(before).contains_key(last.0.account_id@) {
                let i = choose|i: int|
                    0 <= i < before.len() && !(#[trigger] before[i]).1 && before[i].0.account_id@
                        == last.0.account_id@;
                assert(entries[i] == before[i]);
            }
        }
        if stake_map(entries).len() == entries.len() {
            assert(!last.1);
            assert(!stake_map(before).contains_key(last.0.account_id@));
            assert(each_staked_once(before));
            assert forall|i: int| 0 <= i < entries.len() implies !(#[trigger] entries[i]).1 by {
                if i < before.len() {
                    assert(entries[i] == before[i]);
                }
            }
            assert forall|i: int, j: int| 0 <= i < j < entries.len() implies (
            #[trigger] entries[i]).0.account_id@ != (#[trigger] entries[j]).0.account_id@ by {
                assert(entries[i] == before[i]);
                if j < before.len() {
                    assert(entries[j] == before[j]);
                } else {
                    assert(!before[i].1);
                }
            }
        }
    }
}

/// Whether a list has a stake of an account that is not marked as slashed.
pub fn has_stake(entries: &[(ApprovalStake, bool)], account_id: &AccountId) -> (b: bool)
    ensures
        b == stake_map(entries@).contains_key(account_id@),
{
    proof {
        lemma_stake_map_domain(entries@);
    }
    let mut i: usize = 0;
    while i < entries.len()
        invariant
            i <= entries@.len(),
            forall|j: int|
                0 <= j < i ==> (#[trigger] entries@[j]).1 || entries@[j].0.account_id@
                    != account_id@,
            forall|a: Seq<char>| #[trigger]
                stake_map(entries@).contains_key(a) <==> exists|j: int|
                    0 <= j < entries@.len() && !(#[trigger] entries@[j]).1
                        && entries@[j].0.account_id@ == a,
        decreases entries@.len() - i,
    {
        let entry = &entries[i];
        if !entry.1 && entry.0.account_id.same(account_id) {
            assert(!entries@[i as int].1 && entries@[i as int].0.account_id@ == account_id@);
            return true;
        }
        i += 1;
    }
    false
}

/// The stakes of the accounts in a list that are not marked as slashed.
pub fn collect_stakes(entries: &[(ApprovalStake, bool)]) -> (stakes: StringHashMap<
    (Balance, Balance),
>)
    ensures
        stakes@ == stake_map(entries@),
{
    let mut stakes: StringHashMap<(Balance, Balance)> = StringHashMap::new();
    let mut i: usize = 0;
    assert(entries@.take(0) =~= Seq::empty());
    while i < entries.len()
        invariant
            i <= entries@.len(),
            stakes@ == stake_map(entries@.take(i as int)),
        decreases entries@.len() - i,
    {
        let entry = &entries[i];
        assert(entries@.take(i + 1).drop_last() =~= entries@.take(i as int));
        if !entry.1 {
            stakes.insert(
                entry.0.account_id.to_string(),
                (entry.0.stake_this_epoch, entry.0.stake_next_epoch),
            );
        }
        i += 1;
    }
    assert(entries@.take(entries@.len() as int) =~= entries@);
    stakes
}

/// The stake of all accounts of a list, in this epoch and in the next.
pub fn sum_stakes(entries: &[(ApprovalStake, bool)]) -> (totals: (Balance, Balance))
    requires
        each_staked_once(entries@),
        totals_fit(entries@),
    ensures
        totals.0 == total_stake(stake_map(entries@), Epoch::This),
        totals.1 == total_stake(stake_map(entries@), Epoch::Next),
{
    let mut this: Balance = 0;
    let mut next: Balance = 0;
    let mut i: usize = 0;
    assert(entries@.take(0) =~= Seq::empty());
    while i < entries.len()
        invariant
            i <= entries@.len(),
            each_staked_once(entries@),
            totals_fit(entries@),
            this == total_stake(stake_map(entries@.take(i as int)), Epoch::This),
            next == total_stake(stake_map(entries@.take(i as int)), Epoch::Next),
        decreases entries@.len() - i,
    {
        let entry = &entries[i];
        proof {
            lemma_sum_step(entries@, i as int, Epoch::This);
            lemma_sum_step(entries@, i as int, Epoch::Next);
        }
        this = this + entry.0.stake_this_epoch;
        next = next + entry.0.stake_next_epoch;
        i += 1;
    }
    assert(entries@.take(entries@.len() as int) =~= entries@);
    (this, next)
}

/// What the next entry adds to the total of those before it, and that all of them hold no more than
/// the whole list.
proof fn lemma_sum_step(entries: Seq<(ApprovalStake, bool)>, i: int, epoch: Epoch)
    requires
        each_staked_once(entries),
        0 <= i < entries.len(),
    ensures
        total_stake(stake_map(entries.take(i + 1)), epoch) == total_stake(
            stake_map(entries.take(i)),
            epoch,
        ) + entry_stake((entries[i].0.stake_this_epoch, entries[i].0.stake_next_epoch), epoch),
        total_stake(stake_map(entries.take(i + 1)), epoch) <= total_stake(
            stake_map(entries),
            epoch,
        ),
    decreases entries.len() - i,
{
    let before = entries.take(i);
    let upto = entries.take(i + 1);
    assert(upto.drop_last() =~= before);
    assert(upto.last() == entries[i]);
    lemma_stake_map_domain(before);
    let account = entries[i].0.account_id@;
    if stake_map(before).contains_key(account) {
        let j = choose|j: int|
            0 <= j < before.len() && !(#[trigger] before[j]).1 && before[j].0.account_id@
                == account;
        assert(entries[j] == before[j]);
    }
    lemma_total_stake_insert(
        stake_map(before),
        account,
        (entries[i].0.stake_this_epoch, entries[i].0.stake_next_epoch),
        epoch,
    );
    if i + 1 < entries.len() {
        lemma_sum_step(entries, i + 1, epoch);
    } else {
        assert(upto =~= entries);
    }
}

/// The stake of a set of accounts starts at nothing, and each account that joins adds its own stake of
/// that epoch, which is nothing if it has no entry.
pub proof fn law_stake_sum_adds_up(
    stakes: Map<Seq<char>, (Balance, Balance)>,
    accounts: Set<Seq<char>>,
    account: Seq<char>,
)
    requires
        accounts.finite(),
        !accounts.contains(account),
    ensures
        stake_sum(stakes, Set::empty(), Epoch::This) == 0,
        stake_sum(stakes, Set::empty(), Epoch::Next) == 0,
        stake_sum(stakes, accounts.insert(account), Epoch::This) - stake_sum(
            stakes,
            accounts,
            Epoch::This,
        ) == (if stakes.contains_key(account) {
            stakes[account].0 as int
        } else {
            0
        }),
        stake_sum(stakes, accounts.insert(account), Epoch::Next) - stake_sum(
            stakes,
            accounts,
            Epoch::Next,
        ) == (if stakes.contains_key(account) {
            stakes[account].1 as int
        } else {
            0
        }),
{
    lemma_stake_sum_insert(stakes, accounts, account, Epoch::This);
    lemma_stake_sum_insert(stakes, accounts, account, Epoch::Next);
}

/// The total is the stake of exactly the accounts that have an entry.
pub proof fn law_total_is_stake_of_all(stakes: Map<Seq<char>, (Balance, Balance)>, epoch: Epoch)
    ensures
        total_stake(stakes, epoch) == stake_sum(stakes, stakes.dom(), epoch),
{
}

/// Where each account is staked once, a list gives each of its accounts the stakes of its entry, and
/// no stake to any other account.
pub proof fn law_stakes_are_those_of_the_list(
    entries: Seq<(ApprovalStake, bool)>,
    i: int,
    account: Seq<char>,
)
    requires
        each_staked_once(entries),
        0 <= i < entries.len(),
    ensures
        stake_map(entries).contains_key(entries[i].0.account_id@),
        stake_map(entries)[entries[i].0.account_id@] == (
            entries[i].0.stake_this_epoch,
            entries[i].0.stake_next_epoch,
        ),
        (forall|j: int| 0 <= j < entries.len() ==> (#[trigger] entries[j]).0.account_id@ != account)
            ==> !stake_map(entries).contains_key(account),
    decreases entries.len(),
{
    lemma_stake_map_domain(entries);
    assert(!entries[i].1);
    assert(!entries.last().1) by {
        assert(entries[entries.len() - 1] == entries.last());
    }
    if i < entries.len() - 1 {
        let before = entries.drop_last();
        assert forall|j: int| 0 <= j < before.len() implies !(#[trigger] before[j]).1 by {
            assert(entries[j] == before[j]);
        }
        assert forall|j: int, k: int| 0 <= j < k < before.len() implies (
        #[trigger] before[j]).0.account_id@ != (#[trigger] before[k]).0.account_id@ by {
            assert(entries[j] == before[j] && entries[k] == before[k]);
        }
        law_stakes_are_those_of_the_list(before, i, account);
        assert(entries[i].0.account_id@ != entries[entries.len() - 1].0.account_id@);
    }
}

/// An entry that is marked as slashed gives no stake, and one that is not gives its own, whatever the
/// entries before it say.
pub proof fn law_last_entry_decides(entries: Seq<(ApprovalStake, bool)>, entry: (ApprovalStake, bool))
    ensures
        entry.1 ==> stake_map(entries.push(entry)) == stake_map(entries),
        !entry.1 ==> stake_map(entries.push(entry)) == stake_map(entries).insert(
            entry.0.account_id@,
            (entry.0.stake_this_epoch, entry.0.stake_next_epoch),
        ),
        stake_map(Seq::empty()) == Map::<Seq<char>, (Balance, Balance)>::empty(),
{
    assert(entries.push(entry).drop_last() =~= entries);
}

} // verus!
