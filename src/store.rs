use vstd::prelude::*;

use crate::account::AccountId;

verus! {

/// A unique-keyed, insertion-only mapping from accounts to records.
///
/// Entries live in a vector; a ghost map mirrors them so that contracts can
/// speak of the store as a `Map` from account to the record's view.
pub struct AccountStore<R: View> {
    entries: Vec<(AccountId, R)>,
    contents: Ghost<Map<AccountId, R::V>>,
}

impl<R: View> View for AccountStore<R> {
    type V = Map<AccountId, R::V>;

    closed spec fn view(&self) -> Map<AccountId, R::V> {
        self.contents@
    }
}

impl<R: View> AccountStore<R> {
    /// The entries are keyed by distinct accounts and agree with the ghost map.
    pub closed spec fn wf(&self) -> bool {
        &&& forall|i: int, j: int|
            0 <= i < j < self.entries@.len() ==> self.entries@[i].0 != self.entries@[j].0
        &&& forall|i: int|
            0 <= i < self.entries@.len() ==> {
                &&& #[trigger] self.contents@.contains_key(self.entries@[i].0)
                &&& self.contents@[self.entries@[i].0] == self.entries@[i].1@
            }
        &&& forall|k: AccountId|
            #[trigger] self.contents@.contains_key(k) ==> exists|i: int|
                0 <= i < self.entries@.len() && self.entries@[i].0 == k
    }

    /// An empty store.
    pub fn new() -> (r: Self)
        ensures
            r.wf(),
            r@ == Map::<AccountId, R::V>::empty(),
    {
        AccountStore { entries: Vec::new(), contents: Ghost(Map::empty()) }
    }

    /// Position of `key` among the entries, if it has one.
    fn position(&self, key: &AccountId) -> (r: Option<usize>)
        requires
            self.wf(),
        ensures
            match r {
                Some(i) => i < self.entries@.len() && self.entries@[i as int].0 == *key,
                None => !self@.contains_key(*key),
            },
    {
        let mut i: usize = 0;
        while i < self.entries.len()
            invariant
                self.wf(),
                0 <= i <= self.entries@.len(),
                forall|j: int| 0 <= j < i ==> self.entries@[j].0 != *key,
            decreases self.entries@.len() - i,
        {
            if self.entries[i].0.same_as(key) {
                return Some(i);
            }
            i = i + 1;
        }
        None
    }

    /// Whether `key` has a record.
    pub fn contains(&self, key: &AccountId) -> (r: bool)
        requires
            self.wf(),
        ensures
            r == self@.contains_key(*key),
    {
        match self.position(key) {
            Some(_) => true,
            None => false,
        }
    }

    /// The record held for `key`, if any.
    pub fn get(&self, key: &AccountId) -> (r: Option<&R>)
        requires
            self.wf(),
        ensures
            match r {
                Some(v) => self@.contains_key(*key) && v@ == self@[*key],
                None => !self@.contains_key(*key),
            },
    {
        match self.position(key) {
            Some(i) => {
                assert(self.contents@.contains_key(self.entries@[i as int].0));
                Some(&self.entries[i].1)
            },
            None => None,
        }
    }

    /// Adds a record for an account that has none yet.
    pub fn insert(&mut self, key: AccountId, value: R)
        requires
            old(self).wf(),
            !old(self)@.contains_key(key),
        ensures
            final(self).wf(),
            final(self)@ == old(self)@.insert(key, value@),
    {
        let ghost v = value@;
        self.entries.push((key, value));
        self.contents = Ghost(self.contents@.insert(key, v));
        proof {
            let n = self.entries@.len() - 1;
            assert forall|k: AccountId| #[trigger] self.contents@.contains_key(k) implies exists|i: int|
                0 <= i < self.entries@.len() && self.entries@[i].0 == k by {
                if k == key {
                    assert(self.entries@[n].0 == k);
                } else {
                    assert(old(self).contents@.contains_key(k));
                    let i = choose|i: int| 0 <= i < old(self).entries@.len() && old(self).entries@[i].0 == k;
                    assert(self.entries@[i] == old(self).entries@[i]);
                }
            }
            assert forall|i: int, j: int|
                0 <= i < j < self.entries@.len() implies self.entries@[i].0 != self.entries@[j].0 by {
                if j == n {
                    assert(old(self).contents@.contains_key(old(self).entries@[i].0));
                }
            }
        }
    }
}

/// The accounts in the order in which they first obtained a record.
pub struct SubmissionLog {
    accounts: Vec<AccountId>,
}

impl View for SubmissionLog {
    type V = Seq<AccountId>;

    closed spec fn view(&self) -> Seq<AccountId> {
        self.accounts@
    }
}

impl SubmissionLog {
    /// An empty log.
    pub fn new() -> (r: Self)
        ensures
            r@ == Seq::<AccountId>::empty(),
    {
        SubmissionLog { accounts: Vec::new() }
    }

    /// Appends an account at the end.
    pub fn append(&mut self, account: AccountId)
        ensures
            final(self)@ == old(self)@.push(account),
    {
        self.accounts.push(account);
    }

    /// Number of entries.
    pub fn len(&self) -> (r: usize)
        ensures
            r == self@.len(),
    {
        self.accounts.len()
    }

    /// The entry at position `i`.
    pub fn at(&self, i: usize) -> (r: AccountId)
        requires
            i < self@.len(),
        ensures
            r == self@[i as int],
    {
        self.accounts[i]
    }
}

} // verus!
