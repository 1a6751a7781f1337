use vstd::prelude::*;

use crate::account::AccountId;
use crate::store::{AccountStore, SubmissionLog};

verus! {

/// Shortest accepted Discord identifier, in bytes.
pub const MIN_DISCORD_ID_LEN: usize = 18;

/// Longest accepted Discord identifier, in bytes.
pub const MAX_DISCORD_ID_LEN: usize = 19;

/// Failures of a submission.
#[derive(Debug, Clone, Copy, PartialEq, Eq, Structural)]
pub enum TransactionError {
    /// The registry has already admitted its one submission.
    SubmissionLimitReached,
    /// The Discord identifier is not 18 or 19 bytes long.
    InvalidDiscordIDLength,
}

/// What one account submitted.
pub struct RegistrationRecord {
    pub discord_id: Vec<u8>,
    pub discord_username: Vec<u8>,
}

impl View for RegistrationRecord {
    type V = (Seq<u8>, Seq<u8>);

    open spec fn view(&self) -> (Seq<u8>, Seq<u8>) {
        (self.discord_id@, self.discord_username@)
    }
}

/// Abstract state of the registration registry.
pub struct RegistrationState {
    /// Configuration string attached to every listed row.
    pub author_wallet: Seq<char>,
    /// Identifier and user name submitted by each account.
    pub records: Map<AccountId, (Seq<u8>, Seq<u8>)>,
    /// Accounts in the order of their submissions.
    pub submitted: Seq<AccountId>,
    /// Number of accepted submissions.
    pub submission_count: nat,
    /// Every accepted identifier, in order.
    pub all_discord_ids: Seq<Seq<u8>>,
}

/// The author wallet a registry is built with.
pub open spec fn default_author_wallet() -> Seq<char> {
    "YOUR_RONIN_WALLET"@
}

/// The state of a freshly built registry.
pub open spec fn initial_registration() -> RegistrationState {
    RegistrationState {
        author_wallet: default_author_wallet(),
        records: Map::empty(),
        submitted: Seq::empty(),
        submission_count: 0,
        all_discord_ids: Seq::empty(),
    }
}

/// Whether a Discord identifier of `len` bytes is accepted.
pub open spec fn valid_discord_id_length(len: nat) -> bool {
    MIN_DISCORD_ID_LEN <= len <= MAX_DISCORD_ID_LEN
}

/// The counter, the log, the identifiers and the records agree, and at most
/// one submission was admitted.
pub open spec fn registration_consistent(s: RegistrationState) -> bool {
    &&& s.submission_count <= 1
    &&& s.submitted.len() == s.submission_count
    &&& s.all_discord_ids.len() == s.submission_count
    &&& s.submitted.no_duplicates()
    &&& forall|a: AccountId| s.records.contains_key(a) <==> s.submitted.contains(a)
}

/// Outcome of `caller` submitting `discord_id` and `discord_username`.
pub open spec fn submit_outcome(
    s: RegistrationState,
    caller: AccountId,
    discord_id: Seq<u8>,
    discord_username: Seq<u8>,
) -> (RegistrationState, Result<(), TransactionError>) {
    if s.submission_count >= 1 {
        (s, Err(TransactionError::SubmissionLimitReached))
    } else if !valid_discord_id_length(discord_id.len()) {
        (s, Err(TransactionError::InvalidDiscordIDLength))
    } else {
        (
            RegistrationState {
                author_wallet: s.author_wallet,
                records: s.records.insert(caller, (discord_id, discord_username)),
                submitted: s.submitted.push(caller),
                submission_count: s.submission_count + 1,
                all_discord_ids: s.all_discord_ids.push(discord_id),
            },
            Ok(()),
        )
    }
}

/// The row listed for account `a`: the author wallet, the account, and what
/// it submitted (empty where it has no record).
pub open spec fn row_of(s: RegistrationState, a: AccountId) -> (
    Seq<char>,
    AccountId,
    Seq<u8>,
    Seq<u8>,
) {
    if s.records.contains_key(a) {
        (s.author_wallet, a, s.records[a].0, s.records[a].1)
    } else {
        (s.author_wallet, a, Seq::empty(), Seq::empty())
    }
}

/// One row for each entry of the log, in log order.
pub open spec fn listed_rows(s: RegistrationState) -> Seq<(Seq<char>, AccountId, Seq<u8>, Seq<u8>)> {
    s.submitted.map_values(|a: AccountId| row_of(s, a))
}

/// View of listed rows.
pub open spec fn list_view(rows: Seq<(String, AccountId, Vec<u8>, Vec<u8>)>) -> Seq<
    (Seq<char>, AccountId, Seq<u8>, Seq<u8>),
> {
    rows.map_values(|r: (String, AccountId, Vec<u8>, Vec<u8>)| (r.0@, r.1, r.2@, r.3@))
}

/// Registry that admits one (Discord identifier, user name) submission and
/// lists what it admitted.
pub struct TransactionContract {
    author_wallet: String,
    records: AccountStore<RegistrationRecord>,
    submitted_addresses: SubmissionLog,
    submission_count: u32,
    all_discord_ids: Vec<Vec<u8>>,
}

impl View for TransactionContract {
    type V = RegistrationState;

    closed spec fn view(&self) -> RegistrationState {
        RegistrationState {
            author_wallet: self.author_wallet@,
            records: self.records@,
            submitted: self.submitted_addresses@,
            submission_count: self.submission_count as nat,
            all_discord_ids: self.all_discord_ids@.map_values(|v: Vec<u8>| v@),
        }
    }
}

impl TransactionContract {
    /// The store is well formed and agrees with the log and the counter.
    pub closed spec fn wf(&self) -> bool {
        self.records.wf() && registration_consistent(self@)
    }

    /// An empty registry with the default author wallet.
    pub fn new() -> (r: Self)
        ensures
            r.wf(),
            r@ == initial_registration(),
    {
        let r = TransactionContract {
            author_wallet: String::from_str("YOUR_RONIN_WALLET"),
            records: AccountStore::new(),
            submitted_addresses: SubmissionLog::new(),
            submission_count: 0,
            all_discord_ids: Vec::new(),
        };
        assert(r@.all_discord_ids =~= Seq::<Seq<u8>>::empty());
        r
    }

    /// Submits a Discord identifier and user name on behalf of `caller`.
    pub fn submit_transaction(
        &mut self,
        caller: AccountId,
        discord_id: Vec<u8>,
        discord_username: Vec<u8>,
    ) -> (r: Result<(), TransactionError>)
        requires
            old(self).wf(),
        ensures
            final(self).wf(),
            (final(self)@, r) == submit_outcome(old(self)@, caller, discord_id@, discord_username@),
    {
        if self.submission_count >= 1 {
            return Err(TransactionError::SubmissionLimitReached);
        }
        if discord_id.len() < MIN_DISCORD_ID_LEN || discord_id.len() > MAX_DISCORD_ID_LEN {
            return Err(TransactionError::InvalidDiscordIDLength);
        }
        let ghost id = discord_id@;
        let ghost name = discord_username@;
        let id_copy = discord_id.clone();
        assert(id_copy@ =~= id);
        self.all_discord_ids.push(id_copy);
        assert(!self.submitted_addresses@.contains(caller));
        self.records.insert(caller, RegistrationRecord { discord_id, discord_username });
        self.submitted_addresses.append(caller);
        self.submission_count = self.submission_count + 1;
        proof {
            let t = submit_outcome(old(self)@, caller, id, name).0;
            assert(self@.all_discord_ids =~= t.all_discord_ids);
            assert(self@.submitted =~= seq![caller]);
            assert(self@.submitted[0] == caller);
            assert(self@ == t);
            assert forall|a: AccountId| t.records.contains_key(a) <==> t.submitted.contains(a) by {
                if a == caller {
                    assert(t.submitted[0] == a);
                } else if t.records.contains_key(a) {
                    assert(old(self)@.records.contains_key(a));
                    assert(old(self)@.submitted.contains(a));
                }
            }
        }
        Ok(())
    }

    /// Every submission, in order, with the author wallet attached.
    pub fn list_submitted_users(&self) -> (r: Vec<(String, AccountId, Vec<u8>, Vec<u8>)>)
        requires
            self.wf(),
        ensures
            r@.len() == self@.submitted.len(),
            list_view(r@) == listed_rows(self@),
    {
        let mut rows: Vec<(String, AccountId, Vec<u8>, Vec<u8>)> = Vec::new();
        let n = self.submitted_addresses.len();
        let mut i: usize = 0;
        while i < n
            invariant
                self.wf(),
                n == self.submitted_addresses@.len(),
                0 <= i <= n,
                list_view(rows@) == listed_rows(self@).take(i as int),
            decreases n - i,
        {
            let acc = self.submitted_addresses.at(i);
            let ghost before = rows@;
            let (id, name) = match self.records.get(&acc) {
                Some(rec) => (rec.discord_id.clone(), rec.discord_username.clone()),
                None => (Vec::new(), Vec::new()),
            };
            assert(id@ =~= row_of(self@, acc).2);
            assert(name@ =~= row_of(self@, acc).3);
            let wallet = self.author_wallet.clone();
            assert(listed_rows(self@)[i as int] == row_of(self@, acc));
            rows.push((wallet, acc, id, name));
            assert(list_view(rows@) =~= list_view(before).push(row_of(self@, acc)));
            assert(listed_rows(self@).take(i + 1) =~= listed_rows(self@).take(i as int).push(
                row_of(self@, acc),
            ));
            i = i + 1;
        }
        assert(listed_rows(self@).take(n as int) =~= listed_rows(self@));
        assert(rows@.len() == list_view(rows@).len());
        rows
    }
}

/// Runs the submissions `calls` (caller, identifier, user name) in order from
/// `s`: the final state and the result of each call.
pub open spec fn run_submits(s: RegistrationState, calls: Seq<(AccountId, Seq<u8>, Seq<u8>)>) -> (
    RegistrationState,
    Seq<Result<(), TransactionError>>,
)
    decreases calls.len(),
{
    if calls.len() == 0 {
        (s, Seq::empty())
    } else {
        let earlier = run_submits(s, calls.drop_last());
        let c = calls.last();
        let step = submit_outcome(earlier.0, c.0, c.1, c.2);
        (step.0, earlier.1.push(step.1))
    }
}

proof fn lemma_run_submits_facts(s: RegistrationState, calls: Seq<(AccountId, Seq<u8>, Seq<u8>)>)
    ensures
        run_submits(s, calls).1.len() == calls.len(),
        run_submits(s, calls).0.submission_count >= s.submission_count,
        forall|i: int|
            0 <= i < calls.len() && #[trigger] run_submits(s, calls).1[i] is Ok
                ==> run_submits(s, calls).0.submission_count >= 1,
        forall|i: int, j: int|
            0 <= i < j < calls.len() && #[trigger] run_submits(s, calls).1[i] is Ok
                ==> #[trigger] run_submits(s, calls).1[j] == Err::<(), TransactionError>(
                TransactionError::SubmissionLimitReached,
            ),
        s.submission_count >= 1 ==> forall|i: int|
            0 <= i < calls.len() ==> #[trigger] run_submits(s, calls).1[i] == Err::<
                (),
                TransactionError,
            >(TransactionError::SubmissionLimitReached),
        s.submission_count == 0 && (forall|i: int|
            0 <= i < calls.len() ==> !valid_discord_id_length(#[trigger] calls[i].1.len()))
            ==> run_submits(s, calls).0 == s,
        s.submission_count == 0 ==> forall|i: int|
            0 <= i < calls.len() && valid_discord_id_length(#[trigger] calls[i].1.len()) && (forall|
                j: int,
            | 0 <= j < i ==> !valid_discord_id_length(#[trigger] calls[j].1.len()))
                ==> run_submits(s, calls).1[i] == Ok::<(), TransactionError>(()),
    decreases calls.len(),
{
    if calls.len() > 0 {
        let pre = calls.drop_last();
        lemma_run_submits_facts(s, pre);
        let t = run_submits(s, pre).0;
        let res = run_submits(s, pre).1;
        let n = pre.len() as int;
        let c = calls.last();
        let all = run_submits(s, calls).1;
        assert(all == res.push(submit_outcome(t, c.0, c.1, c.2).1));
        assert forall|i: int| 0 <= i < n implies #[trigger] calls[i] == pre[i] && all[i] == res[i] by {}
        if s.submission_count == 0 {
            assert forall|i: int|
                0 <= i < calls.len() && valid_discord_id_length(#[trigger] calls[i].1.len())
                    && (forall|j: int|
                    0 <= j < i ==> !valid_discord_id_length(#[trigger] calls[j].1.len()))
                    implies all[i] == Ok::<(), TransactionError>(()) by {
                if i == n {
                    assert forall|j: int| 0 <= j < pre.len() implies !valid_discord_id_length(
                        #[trigger] pre[j].1.len(),
                    ) by {
                        assert(pre[j] == calls[j]);
                    }
                } else {
                    assert forall|j: int| 0 <= j < i implies !valid_discord_id_length(
                        #[trigger] pre[j].1.len(),
                    ) by {
                        assert(pre[j] == calls[j]);
                    }
                }
            }
            if forall|i: int|
                0 <= i < calls.len() ==> !valid_discord_id_length(#[trigger] calls[i].1.len()) {
                assert forall|i: int| 0 <= i < pre.len() implies !valid_discord_id_length(
                    #[trigger] pre[i].1.len(),
                ) by {
                    assert(pre[i] == calls[i]);
                }
                assert(!valid_discord_id_length(calls[n].1.len()));
            }
        }
    }
}

/// Over any sequence of submissions at most one succeeds, and every call
/// after a success fails with `SubmissionLimitReached`, whoever makes it.
/// From a registry with no admitted submission, the first call whose
/// identifier has a valid length is the one that succeeds; once a submission
/// was admitted, every call fails with `SubmissionLimitReached`.
pub proof fn lemma_one_submission_ever(
    s: RegistrationState,
    calls: Seq<(AccountId, Seq<u8>, Seq<u8>)>,
)
    ensures
        forall|i: int, j: int|
            0 <= i < j < calls.len() && #[trigger] run_submits(s, calls).1[i] is Ok
                ==> #[trigger] run_submits(s, calls).1[j] == Err::<(), TransactionError>(
                TransactionError::SubmissionLimitReached,
            ),
        s.submission_count == 0 ==> forall|i: int|
            0 <= i < calls.len() && valid_discord_id_length(#[trigger] calls[i].1.len()) && (forall|
                j: int,
            | 0 <= j < i ==> !valid_discord_id_length(#[trigger] calls[j].1.len()))
                ==> run_submits(s, calls).1[i] == Ok::<(), TransactionError>(()),
        s.submission_count >= 1 ==> forall|i: int|
            0 <= i < calls.len() ==> #[trigger] run_submits(s, calls).1[i] == Err::<
                (),
                TransactionError,
            >(TransactionError::SubmissionLimitReached),
{
    lemma_run_submits_facts(s, calls);
}

/// While no submission has been admitted, an identifier whose length is not
/// 18 or 19 bytes is refused with `InvalidDiscordIDLength`, and nothing
/// changes, the counter included.
pub proof fn lemma_invalid_length_rejected(
    s: RegistrationState,
    caller: AccountId,
    discord_id: Seq<u8>,
    discord_username: Seq<u8>,
)
    requires
        s.submission_count == 0,
        discord_id.len() < MIN_DISCORD_ID_LEN || discord_id.len() > MAX_DISCORD_ID_LEN,
    ensures
        submit_outcome(s, caller, discord_id, discord_username) == (s, Err::<(), TransactionError>(
            TransactionError::InvalidDiscordIDLength,
        )),
        submit_outcome(s, caller, discord_id, discord_username).0.submission_count
            == s.submission_count,
{
}

/// A registry with no admitted submission lists nothing; after one
/// successful submission it lists exactly that submission, with the author
/// wallet attached.
pub proof fn lemma_list_after_first_submission(
    s: RegistrationState,
    caller: AccountId,
    discord_id: Seq<u8>,
    discord_username: Seq<u8>,
)
    requires
        registration_consistent(s),
        s.submission_count == 0,
        valid_discord_id_length(discord_id.len()),
    ensures
        listed_rows(s) == Seq::<(Seq<char>, AccountId, Seq<u8>, Seq<u8>)>::empty(),
        submit_outcome(s, caller, discord_id, discord_username).1 == Ok::<(), TransactionError>(()),
        listed_rows(submit_outcome(s, caller, discord_id, discord_username).0) == seq![
            (s.author_wallet, caller, discord_id, discord_username),
        ],
{
    let t = submit_outcome(s, caller, discord_id, discord_username).0;
    assert(listed_rows(s) =~= Seq::<(Seq<char>, AccountId, Seq<u8>, Seq<u8>)>::empty());
    assert(t.submitted[0] == caller);
    assert(listed_rows(t) =~= seq![(s.author_wallet, caller, discord_id, discord_username)]);
}

} // verus!
