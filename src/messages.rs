use vstd::prelude::*;

use crate::account::AccountId;
use crate::store::{AccountStore, SubmissionLog};

verus! {

/// Failures of the message registry's operations.
#[derive(Debug, Clone, Copy, PartialEq, Eq, Structural)]
pub enum CrudError {
    /// The caller already holds a message.
    MessageAlreadyCreatedBySender,
    /// The account holds no message.
    SenderNotFound,
}

/// Abstract state of the message registry.
pub struct MessageState {
    /// Each account's message.
    pub messages: Map<AccountId, Seq<char>>,
    /// Accounts in the order in which they obtained their message.
    pub senders: Seq<AccountId>,
}

/// The message stored for the deployer when the registry is constructed.
pub open spec fn seed_message() -> Seq<char> {
    "I created my CRUD contract"@
}

/// The state right after construction by `creator`.
pub open spec fn initial_state(creator: AccountId) -> MessageState {
    MessageState { messages: map![creator => seed_message()], senders: seq![creator] }
}

/// Every account of the log holds a message, each appears once, and every
/// message belongs to an account of the log.
pub open spec fn consistent(s: MessageState) -> bool {
    &&& s.senders.no_duplicates()
    &&& forall|a: AccountId| s.messages.contains_key(a) <==> s.senders.contains(a)
}

/// Outcome of `caller` creating `message`: the new state and the result.
pub open spec fn create_outcome(s: MessageState, caller: AccountId, message: Seq<char>) -> (
    MessageState,
    Result<(), CrudError>,
) {
    if s.messages.contains_key(caller) {
        (s, Err(CrudError::MessageAlreadyCreatedBySender))
    } else {
        (
            MessageState {
                messages: s.messages.insert(caller, message),
                senders: s.senders.push(caller),
            },
            Ok(()),
        )
    }
}

/// Result of looking up the message of `sender`.
pub open spec fn read_outcome(s: MessageState, sender: AccountId) -> Result<Seq<char>, CrudError> {
    if s.messages.contains_key(sender) {
        Ok(s.messages[sender])
    } else {
        Err(CrudError::SenderNotFound)
    }
}

/// The rows listed for `log`: each account of it that holds a message, with
/// that message, in log order.
pub open spec fn rows_of(log: Seq<AccountId>, messages: Map<AccountId, Seq<char>>) -> Seq<
    (AccountId, Seq<char>),
>
    decreases log.len(),
{
    if log.len() == 0 {
        Seq::empty()
    } else {
        let earlier = rows_of(log.drop_last(), messages);
        let a = log.last();
        if messages.contains_key(a) {
            earlier.push((a, messages[a]))
        } else {
            earlier
        }
    }
}

/// Every stored message, in the order of the log.
pub open spec fn all_rows(s: MessageState) -> Seq<(AccountId, Seq<char>)> {
    rows_of(s.senders, s.messages)
}

/// View of listed rows, with each message as its characters.
pub open spec fn rows_view(rows: Seq<(AccountId, String)>) -> Seq<(AccountId, Seq<char>)> {
    rows.map_values(|p: (AccountId, String)| (p.0, p.1@))
}

/// Registry of one short message per account, seeded with one message for
/// its deployer.
pub struct CrudContract {
    messages: AccountStore<String>,
    senders: SubmissionLog,
}

impl View for CrudContract {
    type V = MessageState;

    closed spec fn view(&self) -> MessageState {
        MessageState { messages: self.messages@, senders: self.senders@ }
    }
}

impl CrudContract {
    /// The store is well formed and agrees with the log.
    pub closed spec fn wf(&self) -> bool {
        self.messages.wf() && consistent(self@)
    }

    /// A registry deployed by `creator`, holding the seed message for it.
    pub fn new(creator: AccountId) -> (r: Self)
        ensures
            r.wf(),
            r@ == initial_state(creator),
    {
        let mut messages = AccountStore::<String>::new();
        let init_message = String::from_str("I created my CRUD contract");
        messages.insert(creator, init_message);
        let mut senders = SubmissionLog::new();
        senders.append(creator);
        let r = CrudContract { messages, senders };
        proof {
            assert(r@.messages =~= initial_state(creator).messages);
            assert(r@.senders =~= initial_state(creator).senders);
            assert forall|a: AccountId| r@.messages.contains_key(a) <==> r@.senders.contains(a) by {
                if a == creator {
                    assert(r@.senders[0] == a);
                }
            }
        }
        r
    }

    /// Stores `message` as the message of `caller`, unless it already has one.
    pub fn create_message(&mut self, caller: AccountId, message: String) -> (r: Result<
        (),
        CrudError,
    >)
        requires
            old(self).wf(),
        ensures
            final(self).wf(),
            (final(self)@, r) == create_outcome(old(self)@, caller, message@),
    {
        if self.messages.contains(&caller) {
            return Err(CrudError::MessageAlreadyCreatedBySender);
        }
        let ghost m = message@;
        self.messages.insert(caller, message);
        self.senders.append(caller);
        proof {
            lemma_create_keeps_consistent(old(self)@, caller, m);
            assert(self@ == create_outcome(old(self)@, caller, m).0);
        }
        Ok(())
    }

    /// The message of `sender`.
    pub fn read_message_from(&mut self, sender: AccountId) -> (r: Result<String, CrudError>)
        requires
            old(self).wf(),
        ensures
            *final(self) == *old(self),
            match r {
                Ok(m) => read_outcome(old(self)@, sender) == Ok::<Seq<char>, CrudError>(m@),
                Err(e) => read_outcome(old(self)@, sender) == Err::<Seq<char>, CrudError>(e),
            },
    {
        match self.messages.get(&sender) {
            Some(m) => Ok(m.clone()),
            None => Err(CrudError::SenderNotFound),
        }
    }

    /// Every stored message with its account, in the order in which the
    /// accounts obtained them.
    pub fn read_all_messages(&mut self) -> (r: Vec<(AccountId, String)>)
        requires
            old(self).wf(),
        ensures
            *final(self) == *old(self),
            r@.len() == all_rows(old(self)@).len(),
            rows_view(r@) == all_rows(old(self)@),
    {
        let mut all_messages: Vec<(AccountId, String)> = Vec::new();
        let n = self.senders.len();
        let mut i: usize = 0;
        while i < n
            invariant
                self.wf(),
                n == self.senders@.len(),
                0 <= i <= n,
                rows_view(all_messages@) == rows_of(self.senders@.take(i as int), self.messages@),
            decreases n - i,
        {
            let account = self.senders.at(i);
            let ghost before = all_messages@;
            assert(self.senders@.take(i + 1).drop_last() =~= self.senders@.take(i as int));
            match self.messages.get(&account) {
                Some(m) => {
                    all_messages.push((account, m.clone()));
                    assert(rows_view(all_messages@) =~= rows_view(before).push((account, m@)));
                },
                None => {},
            }
            i = i + 1;
        }
        assert(self.senders@.take(n as int) =~= self.senders@);
        assert(all_messages@.len() == rows_view(all_messages@).len());
        all_messages
    }
}

/// Creating a message for a new account keeps the log and the store in
/// agreement.
pub proof fn lemma_create_keeps_consistent(s: MessageState, caller: AccountId, message: Seq<char>)
    requires
        consistent(s),
    ensures
        consistent(create_outcome(s, caller, message).0),
{
    if !s.messages.contains_key(caller) {
        let t = create_outcome(s, caller, message).0;
        assert forall|a: AccountId| t.messages.contains_key(a) <==> t.senders.contains(a) by {
            if a == caller {
                assert(t.senders[t.senders.len() - 1] == a);
            } else if s.senders.contains(a) {
                let i = choose|i: int| 0 <= i < s.senders.len() && s.senders[i] == a;
                assert(t.senders[i] == a);
            } else if t.senders.contains(a) {
                let i = choose|i: int| 0 <= i < t.senders.len() && t.senders[i] == a;
                assert(s.senders[i] == a);
            }
        }
        assert forall|i: int, j: int|
            0 <= i < t.senders.len() && 0 <= j < t.senders.len() && i != j implies t.senders[i]
            != t.senders[j] by {
            if i == s.senders.len() as int {
                assert(s.senders.contains(s.senders[j]));
            } else if j == s.senders.len() as int {
                assert(s.senders.contains(s.senders[i]));
            }
        }
    }
}

/// The row listed for account `a`.
pub open spec fn row_for(messages: Map<AccountId, Seq<char>>, a: AccountId) -> (AccountId, Seq<char>) {
    (a, messages[a])
}

proof fn lemma_rows_of_all_present(log: Seq<AccountId>, messages: Map<AccountId, Seq<char>>)
    requires
        forall|i: int| 0 <= i < log.len() ==> messages.contains_key(#[trigger] log[i]),
    ensures
        rows_of(log, messages) == log.map_values(|a: AccountId| row_for(messages, a)),
    decreases log.len(),
{
    if log.len() > 0 {
        let pre = log.drop_last();
        assert forall|i: int| 0 <= i < pre.len() implies messages.contains_key(#[trigger] pre[i]) by {
            assert(pre[i] == log[i]);
        }
        lemma_rows_of_all_present(pre, messages);
        assert(messages.contains_key(log[log.len() - 1]));
        assert(log.map_values(|a: AccountId| row_for(messages, a)) =~= pre.map_values(
            |a: AccountId| row_for(messages, a),
        ).push(row_for(messages, log.last())));
    }
}

/// In a consistent state, reading all messages lists every account of the
/// log once, in log order, each with its message.
pub proof fn lemma_read_all_in_record_order(s: MessageState)
    requires
        consistent(s),
    ensures
        all_rows(s) == s.senders.map_values(|a: AccountId| row_for(s.messages, a)),
        all_rows(s).map_values(|r: (AccountId, Seq<char>)| r.0) == s.senders,
        s.senders.no_duplicates(),
{
    assert forall|i: int| 0 <= i < s.senders.len() implies s.messages.contains_key(
        #[trigger] s.senders[i],
    ) by {
        assert(s.senders.contains(s.senders[i]));
    }
    lemma_rows_of_all_present(s.senders, s.messages);
    assert(all_rows(s).map_values(|r: (AccountId, Seq<char>)| r.0) =~= s.senders);
}

/// The registry is consistent right after construction, and lists the seed
/// message of its creator alone.
pub proof fn lemma_initial_read_all(creator: AccountId)
    ensures
        consistent(initial_state(creator)),
        all_rows(initial_state(creator)) == seq![(creator, seed_message())],
{
    let s = initial_state(creator);
    assert forall|a: AccountId| s.messages.contains_key(a) <==> s.senders.contains(a) by {
        if a == creator {
            assert(s.senders[0] == a);
        }
    }
    lemma_read_all_in_record_order(s);
    assert(all_rows(s) =~= seq![(creator, seed_message())]);
}

/// A successful `create` appends exactly one row, the caller's, at the end of
/// the listing, and the state stays consistent.
pub proof fn lemma_create_appends_row(s: MessageState, caller: AccountId, message: Seq<char>)
    requires
        consistent(s),
        !s.messages.contains_key(caller),
    ensures
        consistent(create_outcome(s, caller, message).0),
        all_rows(create_outcome(s, caller, message).0) == all_rows(s).push(
            (caller, message),
        ),
{
    let t = create_outcome(s, caller, message).0;
    lemma_create_keeps_consistent(s, caller, message);
    lemma_read_all_in_record_order(s);
    lemma_read_all_in_record_order(t);
    assert forall|i: int| 0 <= i < s.senders.len() implies #[trigger] s.senders[i] != caller by {
        assert(s.senders.contains(s.senders[i]));
    }
    assert(all_rows(t) =~= all_rows(s).push((caller, message)));
}

/// A second `create` by the same caller fails with
/// `MessageAlreadyCreatedBySender`, whatever the message, and leaves the state,
/// and so the stored message, unchanged.
pub proof fn lemma_second_create_rejected(
    s: MessageState,
    caller: AccountId,
    first: Seq<char>,
    second: Seq<char>,
)
    ensures
        create_outcome(create_outcome(s, caller, first).0, caller, second) == (
            create_outcome(s, caller, first).0,
            Err::<(), CrudError>(CrudError::MessageAlreadyCreatedBySender),
        ),
{
}

/// Reading back the message that a successful `create` wrote gives exactly
/// what was written.
pub proof fn lemma_create_then_read(s: MessageState, caller: AccountId, message: Seq<char>)
    requires
        create_outcome(s, caller, message).1 is Ok,
    ensures
        read_outcome(create_outcome(s, caller, message).0, caller) == Ok::<Seq<char>, CrudError>(message),
{
}

} // verus!
