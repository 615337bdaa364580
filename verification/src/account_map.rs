//! A map from accounts to amounts, kept as a list in which no account
//! occurs twice.

use vstd::prelude::*;
use crate::account::{AccountId, Balance};

verus! {

/// One binding of the map.
#[derive(Clone, Copy, Debug)]
pub struct Entry {
    pub account: AccountId,
    pub amount: Balance,
}

/// The accounts of a list of bindings, in order.
pub open spec fn accounts_of(entries: Seq<Entry>) -> Seq<AccountId> {
    Seq::new(entries.len(), |i: int| entries[i].account)
}

/// The map that a list of bindings without repeated accounts stands for.
pub open spec fn map_of(entries: Seq<Entry>) -> Map<AccountId, Balance> {
    Map::new(
        |a: AccountId| accounts_of(entries).contains(a),
        |a: AccountId| entries[accounts_of(entries).index_of(a)].amount,
    )
}

/// The map that a list of bindings builds when each is bound in turn: of two
/// bindings of one account, the later one stays.
pub open spec fn bound_in_turn(entries: Seq<Entry>) -> Map<AccountId, Balance>
    decreases entries.len(),
{
    if entries.len() == 0 {
        Map::empty()
    } else {
        bound_in_turn(entries.drop_last()).insert(entries.last().account, entries.last().amount)
    }
}

/// In a list without repeated accounts, the binding at position `i` is the
/// one that the map has for its account.
pub proof fn lemma_binding_at(entries: Seq<Entry>, i: int)
    requires
        accounts_of(entries).no_duplicates(),
        0 <= i < entries.len(),
    ensures
        map_of(entries).dom().contains(entries[i].account),
        map_of(entries)[entries[i].account] == entries[i].amount,
        accounts_of(entries).index_of(entries[i].account) == i,
{
    let keys = accounts_of(entries);
    assert(keys[i] == entries[i].account);
    assert(keys.contains(entries[i].account));
    let j = keys.index_of(entries[i].account);
    assert(0 <= j < keys.len() && keys[j] == entries[i].account);
}

/// A list without repeated accounts builds, bound in turn, the map that it
/// stands for: what `entries` lists, `from_entries` restores.
pub proof fn lemma_listed_bindings_restore(entries: Seq<Entry>)
    requires
        accounts_of(entries).no_duplicates(),
    ensures
        bound_in_turn(entries) == map_of(entries),
    decreases entries.len(),
{
    if entries.len() == 0 {
        assert(map_of(entries) =~= Map::<AccountId, Balance>::empty());
    } else {
        let before = entries.drop_last();
        let last = entries.last();
        assert(accounts_of(before) =~= accounts_of(entries).drop_last());
        lemma_listed_bindings_restore(before);
        lemma_binding_at(entries, entries.len() - 1);
        assert forall|a: AccountId| accounts_of(before).contains(a) implies (accounts_of(
            entries,
        ).contains(a) && map_of(entries)[a] == map_of(before)[a] && a != last.account) by {
            let j = accounts_of(before).index_of(a);
            lemma_binding_at(before, j);
            lemma_binding_at(entries, j);
        }
        assert forall|a: AccountId| accounts_of(entries).contains(a) implies (a == last.account
            || accounts_of(before).contains(a)) by {
            let j = accounts_of(entries).index_of(a);
            if j < before.len() {
                assert(accounts_of(before)[j] == a);
            }
        }
        assert(map_of(entries) =~= map_of(before).insert(last.account, last.amount));
    }
}

/// A map from accounts to amounts.
#[derive(Debug)]
pub struct AccountMap {
    entries: Vec<Entry>,
}

impl View for AccountMap {
    type V = Map<AccountId, Balance>;

    closed spec fn view(&self) -> Map<AccountId, Balance> {
        map_of(self.entries@)
    }
}

impl AccountMap {
    #[verifier::type_invariant]
    spec fn inv(self) -> bool {
        accounts_of(self.entries@).no_duplicates()
    }

    /// The empty map.
    pub fn new() -> (m: AccountMap)
        ensures
            m@ == Map::<AccountId, Balance>::empty(),
    {
        let m = AccountMap { entries: Vec::new() };
        assert(m@ =~= Map::<AccountId, Balance>::empty());
        m
    }

    /// The bindings, each account once.
    pub fn entries(&self) -> (entries: Vec<Entry>)
        ensures
            accounts_of(entries@).no_duplicates(),
            map_of(entries@) == self@,
    {
        proof {
            use_type_invariant(self);
        }
        let entries = self.entries.clone();
        assert(entries@ =~= self.entries@);
        entries
    }

    /// The map that binds each of `entries` in turn.
    pub fn from_entries(entries: &Vec<Entry>) -> (m: AccountMap)
        ensures
            m@ == bound_in_turn(entries@),
    {
        let mut m = AccountMap::new();
        let mut i: usize = 0;
        while i < entries.len()
            invariant
                i <= entries.len(),
                m@ == bound_in_turn(entries@.take(i as int)),
            decreases entries.len() - i,
        {
            assert(entries@.take(i + 1).drop_last() =~= entries@.take(i as int));
            m.insert(entries[i].account, entries[i].amount);
            i += 1;
        }
        assert(entries@.take(i as int) =~= entries@);
        m
    }

    /// A map with the same bindings.
    pub fn duplicate(&self) -> (m: AccountMap)
        ensures
            m@ == self@,
    {
        proof {
            use_type_invariant(self);
        }
        let entries = self.entries.clone();
        assert(entries@ =~= self.entries@);
        AccountMap { entries }
    }

    fn take_entries(&mut self) -> (entries: Vec<Entry>)
        ensures
            entries@ == old(self).entries@,
            final(self).entries@ == Seq::<Entry>::empty(),
    {
        let mut taken = AccountMap { entries: Vec::new() };
        std::mem::swap(self, &mut taken);
        taken.entries
    }

    fn position(&self, account: &AccountId) -> (r: Option<usize>)
        ensures
            match r {
                Some(i) => i < self.entries@.len() && self.entries@[i as int].account == *account,
                None => !accounts_of(self.entries@).contains(*account),
            },
    {
        let mut i: usize = 0;
        while i < self.entries.len()
            invariant
                i <= self.entries.len(),
                forall|j: int| 0 <= j < i ==> self.entries@[j].account != *account,
            decreases self.entries.len() - i,
        {
            if self.entries[i].account == *account {
                return Some(i);
            }
            i += 1;
        }
        assert forall|j: int| 0 <= j < accounts_of(self.entries@).len() implies accounts_of(
            self.entries@,
        )[j] != *account by {
            assert(self.entries@[j].account != *account);
        }
        None
    }

    /// Whether `account` is bound.
    pub fn contains(&self, account: &AccountId) -> (r: bool)
        ensures
            r == self@.dom().contains(*account),
    {
        match self.position(account) {
            Some(i) => {
                assert(accounts_of(self.entries@)[i as int] == *account);
                true
            },
            None => false,
        }
    }

    /// The amount bound to `account`, if any.
    pub fn get(&self, account: &AccountId) -> (r: Option<Balance>)
        ensures
            match r {
                Some(amount) => self@.dom().contains(*account) && self@[*account] == amount,
                None => !self@.dom().contains(*account),
            },
    {
        proof {
            use_type_invariant(self);
        }
        match self.position(account) {
            Some(i) => {
                proof {
                    lemma_binding_at(self.entries@, i as int);
                }
                Some(self.entries[i].amount)
            },
            None => None,
        }
    }

    /// Binds `account` to `amount`, in place of what it was bound to.
    pub fn insert(&mut self, account: AccountId, amount: Balance)
        ensures
            final(self)@ == old(self)@.insert(account, amount),
    {
        proof {
            use_type_invariant(&*self);
        }
        let ghost before = self.entries@;
        match self.position(&account) {
            Some(i) => {
                proof {
                    let after = before.update(i as int, Entry { account, amount });
                    assert(accounts_of(after) =~= accounts_of(before));
                    assert(map_of(after) =~= map_of(before).insert(account, amount)) by {
                        lemma_binding_at(before, i as int);
                        assert forall|a: AccountId| accounts_of(after).contains(a) implies map_of(
                            after,
                        )[a] == map_of(before).insert(account, amount)[a] by {
                            let j = accounts_of(after).index_of(a);
                            lemma_binding_at(before, j);
                            lemma_binding_at(after, j);
                        }
                    }
                }
                let mut entries = self.take_entries();
                entries.set(i, Entry { account, amount });
                self.entries = entries;
            },
            None => {
                proof {
                    let after = before.push(Entry { account, amount });
                    assert(accounts_of(after) =~= accounts_of(before).push(account));
                    assert(accounts_of(after).no_duplicates());
                    assert(map_of(after) =~= map_of(before).insert(account, amount)) by {
                        lemma_binding_at(after, before.len() as int);
                        assert forall|a: AccountId| accounts_of(before).contains(a) implies (
                        accounts_of(after).contains(a) && map_of(after)[a] == map_of(before)[a]) by {
                            let j = accounts_of(before).index_of(a);
                            lemma_binding_at(before, j);
                            lemma_binding_at(after, j);
                        }
                        assert forall|a: AccountId| accounts_of(after).contains(a) implies (a
                            == account || accounts_of(before).contains(a)) by {
                            let j = accounts_of(after).index_of(a);
                            if j < before.len() {
                                assert(accounts_of(before)[j] == a);
                            }
                        }
                    }
                }
                let mut entries = self.take_entries();
                entries.push(Entry { account, amount });
                self.entries = entries;
            },
        }
    }

    /// Removes the binding of `account`, if it has one.
    pub fn remove(&mut self, account: &AccountId)
        ensures
            final(self)@ == old(self)@.remove(*account),
    {
        proof {
            use_type_invariant(&*self);
        }
        let ghost before = self.entries@;
        match self.position(account) {
            Some(i) => {
                proof {
                    let after = before.remove(i as int);
                    assert(accounts_of(after) =~= accounts_of(before).remove(i as int));
                    assert(accounts_of(after).no_duplicates()) by {
                        assert forall|x: int, y: int|
                            0 <= x < after.len() && 0 <= y < after.len() && x != y implies accounts_of(
                            after,
                        )[x] != accounts_of(after)[y] by {
                            let x0 = if x < i { x } else { x + 1 };
                            let y0 = if y < i { y } else { y + 1 };
                            assert(accounts_of(before)[x0] != accounts_of(before)[y0]);
                        }
                    }
                    assert(map_of(after) =~= map_of(before).remove(*account)) by {
                        lemma_binding_at(before, i as int);
                        assert forall|a: AccountId| accounts_of(after).contains(a) implies (a
                            != *account && accounts_of(before).contains(a) && map_of(after)[a]
                            == map_of(before)[a]) by {
                            let j = accounts_of(after).index_of(a);
                            let j0 = if j < i { j } else { j + 1 };
                            lemma_binding_at(after, j);
                            lemma_binding_at(before, j0);
                            assert(accounts_of(before)[j0] != accounts_of(before)[i as int]);
                        }
                        assert forall|a: AccountId|
                            a != *account && accounts_of(before).contains(a) implies accounts_of(
                            after,
                        ).contains(a) by {
                            let j0 = accounts_of(before).index_of(a);
                            let j = if j0 < i { j0 } else { j0 - 1 };
                            assert(accounts_of(after)[j] == a);
                        }
                    }
                }
                let mut entries = self.take_entries();
                entries.remove(i);
                self.entries = entries;
            },
            None => {
                assert(map_of(before) =~= map_of(before).remove(*account));
            },
        }
    }
}

} // verus!
