//! The task store with its aggregate counters, and the entry points of the
//! task list: the three mutations, the three queries, and `render`.
//!
//! A mutation needs the caller to be authenticated; without that it fails
//! before anything is written. A mutation aimed at an id that the caller's
//! list does not hold changes nothing and is no error. Reading is open to
//! everybody.

use vstd::prelude::*;
use crate::account::{Account, AccountView};
use crate::markdown::{render_footer, render_header, FOOTER, HEADER};
use crate::pages::{effective_path, page_bytes, render_page, resolve, route, DEFAULT_PATH};
use crate::task::{task_with_id, views, AccountId, Task, TaskView};
use crate::text::text;

verus! {

/// Why a call failed.
#[derive(Debug, PartialEq, Eq, Clone, Copy)]
pub enum TodoError {
    /// The caller is not authenticated as the account that it names.
    Unauthorized,
}

/// The name of a stored record.
#[derive(Debug, PartialEq, Eq)]
pub enum DataKey {
    /// The task list of an account.
    Tasks(AccountId),
    /// The id that the next task of an account will get.
    NextId(AccountId),
    /// The number of accounts that have ever added a task.
    UserCount,
    /// The number of tasks over all accounts.
    TotalTasks,
    /// The flag that says that an account has ever added a task.
    HasTasks(AccountId),
}

/// The mathematical value of a record name.
pub enum DataKeyView {
    Tasks(Seq<u8>),
    NextId(Seq<u8>),
    UserCount,
    TotalTasks,
    HasTasks(Seq<u8>),
}

impl View for DataKey {
    type V = DataKeyView;

    open spec fn view(&self) -> DataKeyView {
        match self {
            DataKey::Tasks(owner) => DataKeyView::Tasks(owner@),
            DataKey::NextId(owner) => DataKeyView::NextId(owner@),
            DataKey::UserCount => DataKeyView::UserCount,
            DataKey::TotalTasks => DataKeyView::TotalTasks,
            DataKey::HasTasks(owner) => DataKeyView::HasTasks(owner@),
        }
    }
}

/// The mathematical value of the store: the accounts that have written, in
/// the order of their first write, the two aggregate counters, and the
/// names of the records written since the store was set up, in the order
/// of writing.
pub struct ContractView {
    pub accounts: Seq<AccountView>,
    pub total_tasks: u32,
    pub user_count: u32,
    pub journal: Seq<DataKeyView>,
}

/// Position of the account of `owner` among `accounts`.
pub open spec fn position(accounts: Seq<AccountView>, owner: Seq<u8>) -> Option<int>
    decreases accounts.len(),
{
    if accounts.len() == 0 {
        None
    } else {
        match position(accounts.drop_last(), owner) {
            Some(i) => Some(i),
            None => if accounts.last().owner == owner {
                Some(accounts.len() - 1)
            } else {
                None
            },
        }
    }
}

/// The number of tasks that the accounts hold, all together.
pub open spec fn stored_tasks(accounts: Seq<AccountView>) -> nat
    decreases accounts.len(),
{
    if accounts.len() == 0 {
        0
    } else {
        stored_tasks(accounts.drop_last()) + accounts.last().tasks.len()
    }
}

/// The number of accounts that have ever added a task.
pub open spec fn active_users(accounts: Seq<AccountView>) -> nat
    decreases accounts.len(),
{
    if accounts.len() == 0 {
        0
    } else if accounts.last().has_tasks {
        active_users(accounts.drop_last()) + 1
    } else {
        active_users(accounts.drop_last())
    }
}

/// The state of the account of `owner` among `accounts`; that of an account
/// without entry is fresh.
pub open spec fn account_in(accounts: Seq<AccountView>, owner: Seq<u8>) -> AccountView {
    match position(accounts, owner) {
        Some(i) => accounts[i],
        None => AccountView::fresh(owner),
    }
}

/// Validity of a sequence of accounts: every account is valid, and no two
/// entries belong to the same account.
pub open spec fn valid_accounts(accounts: Seq<AccountView>) -> bool {
    &&& forall|i: int| 0 <= i < accounts.len() ==> (#[trigger] accounts[i]).wf()
    &&& forall|i: int, j: int|
        0 <= i < j < accounts.len() ==> (#[trigger] accounts[i]).owner != (
        #[trigger] accounts[j]).owner
}

/// The number that a stored counter denotes: zero where it is absent.
pub open spec fn stored_counter(counter: Option<u32>) -> u32 {
    match counter {
        Some(n) => n,
        None => 0,
    }
}

/// The values of a sequence of record names, in order.
pub open spec fn key_views(keys: Seq<DataKey>) -> Seq<DataKeyView> {
    keys.map_values(|k: DataKey| k@)
}

/// The records that an addition writes: the caller's list and next id and
/// `total_tasks`, and with the caller's first task also the caller's flag
/// and `user_count`.
pub open spec fn writes_of_add(caller: Seq<u8>, first: bool) -> Seq<DataKeyView> {
    if first {
        seq![
            DataKeyView::Tasks(caller),
            DataKeyView::NextId(caller),
            DataKeyView::TotalTasks,
            DataKeyView::HasTasks(caller),
            DataKeyView::UserCount,
        ]
    } else {
        seq![DataKeyView::Tasks(caller), DataKeyView::NextId(caller), DataKeyView::TotalTasks]
    }
}

/// The records that a deletion writes: the caller's list, and `total_tasks`
/// where it was counted down.
pub open spec fn writes_of_delete(caller: Seq<u8>, counted: bool) -> Seq<DataKeyView> {
    if counted {
        seq![DataKeyView::Tasks(caller), DataKeyView::TotalTasks]
    } else {
        seq![DataKeyView::Tasks(caller)]
    }
}

/// The values of a sequence of accounts, in order.
pub open spec fn account_views(accounts: Seq<Account>) -> Seq<AccountView> {
    accounts.map_values(|a: Account| a@)
}

/// The value of an optional byte string.
pub open spec fn optional_bytes(bytes: Option<&[u8]>) -> Option<Seq<u8>> {
    match bytes {
        Some(b) => Some(b@),
        None => None,
    }
}

/// The value of an optional account identity.
pub open spec fn optional_account(account: Option<&AccountId>) -> Option<Seq<u8>> {
    match account {
        Some(a) => Some(a@),
        None => None,
    }
}

impl ContractView {
    /// The store before anything was written.
    pub open spec fn empty() -> ContractView {
        ContractView {
            accounts: Seq::empty(),
            total_tasks: 0,
            user_count: 0,
            journal: Seq::empty(),
        }
    }

    /// Validity of the store: every account is valid, and no two entries
    /// belong to the same account.
    pub open spec fn wf(self) -> bool {
        valid_accounts(self.accounts)
    }

    /// Agreement of the counters with the records: `total_tasks` is the
    /// number of tasks over all accounts, `user_count` the number of
    /// accounts that have ever added a task.
    pub open spec fn consistent(self) -> bool {
        &&& self.total_tasks == stored_tasks(self.accounts)
        &&& self.user_count == active_users(self.accounts)
    }

    /// The state of an account; that of one that has never written is fresh.
    pub open spec fn account(self, owner: Seq<u8>) -> AccountView {
        account_in(self.accounts, owner)
    }

    /// The tasks that a viewer sees: those of the viewer's account, and none
    /// without a viewer.
    pub open spec fn viewer_tasks(self, viewer: Option<Seq<u8>>) -> Seq<TaskView> {
        match viewer {
            Some(v) => self.account(v).tasks,
            None => Seq::empty(),
        }
    }

    /// Whether the counters leave room for one more task of `caller`.
    pub open spec fn can_add(self, caller: Seq<u8>) -> bool {
        &&& self.total_tasks < u32::MAX
        &&& self.account(caller).next_id < u32::MAX
        &&& self.account(caller).has_tasks || self.user_count < u32::MAX
    }

    /// The accounts with the entry of `account.owner` replaced by `account`,
    /// or with `account` as a new last entry where the owner had none.
    pub open spec fn with_account(self, account: AccountView) -> Seq<AccountView> {
        match position(self.accounts, account.owner) {
            Some(i) => self.accounts.update(i, account),
            None => self.accounts.push(account),
        }
    }

    /// The store after `caller` added a task: the task joins the caller's
    /// list under the caller's next id, `total_tasks` grows by one, and
    /// `user_count` grows by one if this is the caller's first task.
    pub open spec fn add_task(self, description: Seq<u8>, caller: Seq<u8>) -> ContractView {
        let before = self.account(caller);
        ContractView {
            accounts: self.with_account(before.added(description)),
            total_tasks: (self.total_tasks + 1) as u32,
            user_count: if before.has_tasks {
                self.user_count
            } else {
                (self.user_count + 1) as u32
            },
            journal: self.journal + writes_of_add(caller, !before.has_tasks),
        }
    }

    /// The store after `caller` completed the task called `id`: if the
    /// caller has it, its flag is set and the caller's list written; if
    /// not, nothing changes and nothing is written.
    pub open spec fn complete_task(self, id: u32, caller: Seq<u8>) -> ContractView {
        if self.account(caller).holds(id) {
            ContractView {
                accounts: self.with_account(self.account(caller).completed(id)),
                total_tasks: self.total_tasks,
                user_count: self.user_count,
                journal: self.journal.push(DataKeyView::Tasks(caller)),
            }
        } else {
            self
        }
    }

    /// The store after `caller` deleted the task called `id`: if the caller
    /// has it, it leaves the caller's list and `total_tasks` shrinks by one,
    /// though never below zero; if not, nothing changes and nothing is
    /// written.
    pub open spec fn delete_task(self, id: u32, caller: Seq<u8>) -> ContractView {
        if self.account(caller).holds(id) {
            ContractView {
                accounts: self.with_account(self.account(caller).removed(id)),
                total_tasks: if self.total_tasks > 0 {
                    (self.total_tasks - 1) as u32
                } else {
                    0
                },
                user_count: self.user_count,
                journal: self.journal + writes_of_delete(caller, self.total_tasks > 0),
            }
        } else {
            self
        }
    }

    /// What `render` returns: the page that the path selects, for the tasks
    /// of the viewer and the counters of the store.
    pub open spec fn render(self, path: Option<Seq<u8>>, viewer: Option<Seq<u8>>) -> Seq<u8> {
        page_bytes(
            resolve(effective_path(path)),
            self.viewer_tasks(viewer),
            viewer is Some,
            self.total_tasks,
            self.user_count,
        )
    }
}

/// What `position` finds is the first entry of the owner; where it finds
/// nothing, the owner has no entry.
pub proof fn lemma_position(accounts: Seq<AccountView>, owner: Seq<u8>)
    ensures
        match position(accounts, owner) {
            Some(i) => 0 <= i < accounts.len() && accounts[i].owner == owner && forall|k: int|
                0 <= k < i ==> accounts[k].owner != owner,
            None => forall|k: int| 0 <= k < accounts.len() ==> accounts[k].owner != owner,
        },
    decreases accounts.len(),
{
    if accounts.len() > 0 {
        let shorter = accounts.drop_last();
        lemma_position(shorter, owner);
        assert forall|k: int| 0 <= k < shorter.len() implies shorter[k] == accounts[k] by {}
        match position(shorter, owner) {
            Some(i) => {},
            None => {
                assert forall|k: int| 0 <= k < accounts.len() - 1 implies accounts[k].owner
                    != owner by {}
            },
        }
    }
}

/// An entry of the owner before which the owner has none is what
/// `position` finds.
pub proof fn lemma_position_at(accounts: Seq<AccountView>, owner: Seq<u8>, i: int)
    requires
        0 <= i < accounts.len(),
        accounts[i].owner == owner,
        forall|k: int| 0 <= k < i ==> accounts[k].owner != owner,
    ensures
        position(accounts, owner) == Some(i),
    decreases accounts.len(),
{
    lemma_position(accounts.drop_last(), owner);
    if i < accounts.len() - 1 {
        lemma_position_at(accounts.drop_last(), owner, i);
    }
}

/// How the two sums change when one entry is replaced.
pub proof fn lemma_counts_update(accounts: Seq<AccountView>, i: int, account: AccountView)
    requires
        0 <= i < accounts.len(),
    ensures
        stored_tasks(accounts) >= accounts[i].tasks.len(),
        stored_tasks(accounts.update(i, account)) == stored_tasks(accounts)
            - accounts[i].tasks.len() + account.tasks.len(),
        active_users(accounts.update(i, account)) == active_users(accounts) - (if accounts[i].has_tasks {
            1int
        } else {
            0int
        }) + (if account.has_tasks {
            1int
        } else {
            0int
        }),
    decreases accounts.len(),
{
    let changed = accounts.update(i, account);
    if i == accounts.len() - 1 {
        assert(changed.drop_last() =~= accounts.drop_last());
    } else {
        lemma_counts_update(accounts.drop_last(), i, account);
        assert(changed.drop_last() =~= accounts.drop_last().update(i, account));
    }
}

/// How the two sums change when an entry is appended.
pub proof fn lemma_counts_push(accounts: Seq<AccountView>, account: AccountView)
    ensures
        stored_tasks(accounts.push(account)) == stored_tasks(accounts) + account.tasks.len(),
        active_users(accounts.push(account)) == active_users(accounts) + (if account.has_tasks {
            1int
        } else {
            0int
        }),
{
    assert(accounts.push(account).drop_last() =~= accounts);
}

/// Replacing an account's entry by a valid state of the same owner, or
/// appending a valid state of an owner without entry, keeps the accounts
/// valid and changes the state of that owner only.
pub proof fn lemma_with_account(state: ContractView, account: AccountView)
    requires
        state.wf(),
        account.wf(),
    ensures
        valid_accounts(state.with_account(account)),
        position(state.with_account(account), account.owner) is Some,
        account_in(state.with_account(account), account.owner) == account,
        forall|other: Seq<u8>|
            other != account.owner ==> #[trigger] account_in(state.with_account(account), other)
                == account_in(state.accounts, other),
{
    let after = state.with_account(account);
    lemma_position(state.accounts, account.owner);
    let at: int = match position(state.accounts, account.owner) {
        Some(i) => i,
        None => state.accounts.len() as int,
    };
    assert forall|k: int| 0 <= k < after.len() && k != at implies after[k] == state.accounts[k]
        && after[k].owner != account.owner by {}
    assert(valid_accounts(after)) by {
        assert forall|i: int| 0 <= i < after.len() implies (#[trigger] after[i]).wf() by {}
    }
    lemma_position_at(after, account.owner, at);
    assert forall|other: Seq<u8>| other != account.owner implies #[trigger] account_in(after, other)
        == account_in(state.accounts, other) by {
        lemma_position(state.accounts, other);
        lemma_position(after, other);
        match position(state.accounts, other) {
            Some(i) => {
                lemma_position_at(after, other, i);
            },
            None => {
            },
        }
    }
}

/// The task store and its counters.
#[derive(Debug, PartialEq, Eq)]
pub struct TodoContract {
    accounts: Vec<Account>,
    total_tasks: u32,
    user_count: u32,
    journal: Vec<DataKey>,
}

impl View for TodoContract {
    type V = ContractView;

    closed spec fn view(&self) -> ContractView {
        ContractView {
            accounts: account_views(self.accounts@),
            total_tasks: self.total_tasks,
            user_count: self.user_count,
            journal: key_views(self.journal@),
        }
    }
}

impl TodoContract {
    /// Validity of the store.
    pub open spec fn wf(&self) -> bool {
        self@.wf()
    }

    /// The store before anything was written: no account, both counters zero.
    pub fn new() -> (contract: TodoContract)
        ensures
            contract.wf(),
            contract@ == ContractView::empty(),
            contract@.consistent(),
    {
        let contract = TodoContract {
            accounts: Vec::new(),
            total_tasks: 0,
            user_count: 0,
            journal: Vec::new(),
        };
        assert(contract@.accounts =~= Seq::<AccountView>::empty());
        assert(contract@.journal =~= Seq::<DataKeyView>::empty());
        contract
    }

    /// Rebuilds a store from stored parts: the two counters and the states
    /// of some accounts. Fails if two of the states belong to one account.
    /// The counters are taken as they are; they need not agree with the
    /// accounts given, which may be a part of all there are. Nothing counts
    /// as written yet.
    pub fn restore(accounts: Vec<Account>, total_tasks: u32, user_count: u32) -> (contract: Option<
        TodoContract,
    >)
        requires
            forall|i: int| 0 <= i < accounts.len() ==> (#[trigger] accounts@[i]).wf(),
        ensures
            match contract {
                Some(c) => c.wf() && c@ == (ContractView {
                    accounts: account_views(accounts@),
                    total_tasks,
                    user_count,
                    journal: Seq::empty(),
                }),
                None => exists|i: int, j: int|
                    0 <= i < j < accounts.len() && accounts@[i]@.owner == accounts@[j]@.owner,
            },
    {
        let mut j: usize = 0;
        while j < accounts.len()
            invariant
                j <= accounts.len(),
                forall|a: int, b: int|
                    0 <= a < b < j ==> (#[trigger] accounts@[a])@.owner != (
                    #[trigger] accounts@[b])@.owner,
            decreases accounts.len() - j,
        {
            let mut i: usize = 0;
            while i < j
                invariant
                    i <= j < accounts.len(),
                    forall|a: int| 0 <= a < i ==> (#[trigger] accounts@[a])@.owner != accounts@[j as int]@.owner,
                decreases j - i,
            {
                if accounts[i].owner().same_as(accounts[j].owner()) {
                    return None;
                }
                i = i + 1;
            }
            j = j + 1;
        }
        let contract = TodoContract { accounts, total_tasks, user_count, journal: Vec::new() };
        proof {
            let state = contract@;
            assert(state.journal =~= Seq::<DataKeyView>::empty());
            assert forall|i: int| 0 <= i < state.accounts.len() implies (
            #[trigger] state.accounts[i]).wf() by {}
            assert forall|a: int, b: int| 0 <= a < b < state.accounts.len() implies (
            #[trigger] state.accounts[a]).owner != (#[trigger] state.accounts[b]).owner by {}
        }
        Some(contract)
    }

    /// Rebuilds a store from stored records: the states of some accounts
    /// and the two counters, either of which counts as zero where it is
    /// absent.
    pub fn load(accounts: Vec<Account>, total_tasks: Option<u32>, user_count: Option<u32>) -> (contract:
        Option<TodoContract>)
        requires
            forall|i: int| 0 <= i < accounts.len() ==> (#[trigger] accounts@[i]).wf(),
        ensures
            match contract {
                Some(c) => c.wf() && c@ == (ContractView {
                    accounts: account_views(accounts@),
                    total_tasks: stored_counter(total_tasks),
                    user_count: stored_counter(user_count),
                    journal: Seq::empty(),
                }),
                None => exists|i: int, j: int|
                    0 <= i < j < accounts.len() && accounts@[i]@.owner == accounts@[j]@.owner,
            },
    {
        let total_tasks: u32 = match total_tasks {
            Some(n) => n,
            None => 0,
        };
        let user_count: u32 = match user_count {
            Some(n) => n,
            None => 0,
        };
        TodoContract::restore(accounts, total_tasks, user_count)
    }

    /// Position of the entry of `owner`.
    fn find_account(&self, owner: &AccountId) -> (found: Option<usize>)
        ensures
            match found {
                Some(i) => position(self@.accounts, owner@) == Some(i as int) && i
                    < self.accounts.len(),
                None => position(self@.accounts, owner@) is None,
            },
    {
        let mut i: usize = 0;
        while i < self.accounts.len()
            invariant
                i <= self.accounts.len(),
                forall|k: int| 0 <= k < i ==> self@.accounts[k].owner != owner@,
            decreases self.accounts.len() - i,
        {
            if self.accounts[i].owner().same_as(owner) {
                proof {
                    lemma_position_at(self@.accounts, owner@, i as int);
                }
                return Some(i);
            }
            i = i + 1;
        }
        proof {
            lemma_position(self@.accounts, owner@);
        }
        None
    }

    /// The state of the account of `owner`, if it has ever written.
    pub fn account(&self, owner: &AccountId) -> (account: Option<&Account>)
        ensures
            match account {
                Some(a) => position(self@.accounts, owner@) is Some && a@ == self@.account(owner@),
                None => position(self@.accounts, owner@) is None,
            },
    {
        match self.find_account(owner) {
            Some(i) => {
                Some(&self.accounts[i])
            },
            None => None,
        }
    }

    /// Whether the counters leave room for one more task of `caller`.
    pub fn can_add(&self, caller: &AccountId) -> (room: bool)
        ensures
            room == self@.can_add(caller@),
    {
        if self.total_tasks == u32::MAX {
            return false;
        }
        match self.account(caller) {
            Some(account) => account.next_id() < u32::MAX && (account.has_tasks() || self.user_count
                < u32::MAX),
            None => self.user_count < u32::MAX,
        }
    }

    /// Does nothing: the store needs no set-up, every record comes into
    /// being with its first write.
    pub fn init(&mut self)
        ensures
            *final(self) == *old(self),
    {
    }

    /// Adds a pending task with this description to the caller's list and
    /// returns its id.
    pub fn add_task(&mut self, description: Vec<u8>, caller: &AccountId, authenticated: bool) -> (id:
        Result<u32, TodoError>)
        requires
            old(self).wf(),
            authenticated ==> old(self)@.can_add(caller@),
        ensures
            final(self).wf(),
            authenticated ==> id == Ok::<u32, TodoError>(old(self)@.account(caller@).next_id)
                && final(self)@ == old(self)@.add_task(description@, caller@),
            !authenticated ==> id == Err::<u32, TodoError>(TodoError::Unauthorized) && final(self)@
                == old(self)@,
            old(self)@.consistent() ==> final(self)@.consistent(),
            authenticated ==> final(self)@.account(caller@) == old(self)@.account(caller@).added(
                description@,
            ),
            authenticated ==> task_with_id(
                final(self)@.account(caller@).tasks,
                old(self)@.account(caller@).next_id,
            ) == Some(old(self)@.account(caller@).next_task(description@)),
            forall|other: Seq<u8>|
                other != caller@ ==> #[trigger] final(self)@.account(other) == old(self)@.account(
                    other,
                ),
    {
        if !authenticated {
            return Err(TodoError::Unauthorized);
        }
        let ghost before = self@;
        let ghost old_account = before.account(caller@);
        let index: usize = match self.find_account(caller) {
            Some(i) => i,
            None => {
                self.accounts.push(Account::new(caller.clone()));
                proof {
                    assert(account_views(self.accounts@) =~= before.accounts.push(
                        AccountView::fresh(caller@),
                    ));
                    lemma_counts_push(before.accounts, AccountView::fresh(caller@));
                }
                self.accounts.len() - 1
            },
        };
        let ghost staged = self@.accounts;
        proof {
            lemma_position(before.accounts, caller@);
        }
        let first: bool = !self.accounts[index].has_tasks();
        let id: u32 = self.accounts[index].add(description);
        self.journal.push(DataKey::Tasks(caller.clone()));
        self.journal.push(DataKey::NextId(caller.clone()));
        self.total_tasks = self.total_tasks + 1;
        self.journal.push(DataKey::TotalTasks);
        if first {
            self.journal.push(DataKey::HasTasks(caller.clone()));
            self.user_count = self.user_count + 1;
            self.journal.push(DataKey::UserCount);
        }
        proof {
            let after = old_account.added(description@);
            assert(self@.accounts =~= staged.update(index as int, after));
            assert(self@.accounts =~= before.with_account(after));
            assert(self@.journal =~= before.journal + writes_of_add(caller@, first));
            lemma_with_account(before, after);
            lemma_counts_update(staged, index as int, after);
            crate::task::lemma_task_with_id_at(
                after.tasks,
                old_account.next_id,
                old_account.tasks.len() as int,
            );
        }
        Ok(id)
    }

    /// Marks the caller's task called `id` completed, if the caller has it.
    pub fn complete_task(&mut self, id: u32, caller: &AccountId, authenticated: bool) -> (done:
        Result<(), TodoError>)
        requires
            old(self).wf(),
        ensures
            final(self).wf(),
            authenticated ==> done == Ok::<(), TodoError>(()) && final(self)@
                == old(self)@.complete_task(id, caller@),
            !authenticated ==> done == Err::<(), TodoError>(TodoError::Unauthorized) && final(self)@
                == old(self)@,
            old(self)@.consistent() ==> final(self)@.consistent(),
            authenticated ==> final(self)@.account(caller@) == old(self)@.account(
                caller@,
            ).completed(id),
            forall|other: Seq<u8>|
                other != caller@ ==> #[trigger] final(self)@.account(other) == old(self)@.account(
                    other,
                ),
    {
        if !authenticated {
            return Err(TodoError::Unauthorized);
        }
        let ghost before = self@;
        match self.find_account(caller) {
            Some(index) => {
                let found: bool = self.accounts[index].complete(id);
                proof {
                    let after = before.accounts[index as int].completed(id);
                    lemma_position(before.accounts, caller@);
                    assert(self@.accounts =~= before.accounts.update(index as int, after));
                    lemma_with_account(before, after);
                    lemma_counts_update(before.accounts, index as int, after);
                    crate::account::lemma_transitions_keep_wf(
                        before.accounts[index as int],
                        Seq::empty(),
                        id,
                    );
                    if !found {
                        assert(self@.accounts =~= before.accounts);
                    }
                }
                if found {
                    self.journal.push(DataKey::Tasks(caller.clone()));
                    assert(self@.journal =~= before.journal.push(DataKeyView::Tasks(caller@)));
                }
            },
            None => {
                assert(crate::account::mark_completed(Seq::empty(), id) =~= Seq::<TaskView>::empty());
            },
        }
        Ok(())
    }

    /// Deletes the caller's task called `id`, if the caller has it, and
    /// counts it off `total_tasks`.
    pub fn delete_task(&mut self, id: u32, caller: &AccountId, authenticated: bool) -> (done: Result<
        (),
        TodoError,
    >)
        requires
            old(self).wf(),
        ensures
            final(self).wf(),
            authenticated ==> done == Ok::<(), TodoError>(()) && final(self)@
                == old(self)@.delete_task(id, caller@),
            !authenticated ==> done == Err::<(), TodoError>(TodoError::Unauthorized) && final(self)@
                == old(self)@,
            old(self)@.consistent() ==> final(self)@.consistent(),
            authenticated ==> final(self)@.account(caller@) == old(self)@.account(caller@).removed(
                id,
            ),
            forall|other: Seq<u8>|
                other != caller@ ==> #[trigger] final(self)@.account(other) == old(self)@.account(
                    other,
                ),
    {
        if !authenticated {
            return Err(TodoError::Unauthorized);
        }
        let ghost before = self@;
        match self.find_account(caller) {
            Some(index) => {
                let found: bool = self.accounts[index].remove(id);
                proof {
                    let after = before.accounts[index as int].removed(id);
                    lemma_position(before.accounts, caller@);
                    assert(self@.accounts =~= before.accounts.update(index as int, after));
                    lemma_with_account(before, after);
                    lemma_counts_update(before.accounts, index as int, after);
                    crate::account::lemma_transitions_keep_wf(
                        before.accounts[index as int],
                        Seq::empty(),
                        id,
                    );
                    if !found {
                        assert(self@.accounts =~= before.accounts);
                    }
                }
                if found {
                    self.journal.push(DataKey::Tasks(caller.clone()));
                    if self.total_tasks > 0 {
                        self.total_tasks = self.total_tasks - 1;
                        self.journal.push(DataKey::TotalTasks);
                    }
                    assert(self@.journal =~= before.journal + writes_of_delete(
                        caller@,
                        before.total_tasks > 0,
                    ));
                }
            },
            None => {
            },
        }
        Ok(())
    }

    /// The names of the records written since the store was set up, in the
    /// order of writing. A caller that keeps the records elsewhere writes
    /// these, with the values that the store now holds, and no others.
    pub fn writes(&self) -> (keys: &Vec<DataKey>)
        ensures
            key_views(keys@) == self@.journal,
    {
        &self.journal
    }

    /// The two aggregate counters: the number of tasks over all accounts and
    /// the number of accounts that have ever added a task.
    pub fn get_stats(&self) -> (stats: (u32, u32))
        ensures
            stats.0 == self@.total_tasks,
            stats.1 == self@.user_count,
    {
        (self.total_tasks, self.user_count)
    }

    /// The tasks of an account, in ascending order of id. Anybody may read
    /// anybody's tasks.
    pub fn get_tasks(&self, user: &AccountId) -> (tasks: Vec<Task>)
        ensures
            views(tasks@) == self@.account(user@).tasks,
    {
        match self.account(user) {
            Some(account) => account.list(),
            None => {
                let tasks: Vec<Task> = Vec::new();
                tasks
            },
        }
    }

    /// The task called `id` of an account, if the account has it.
    pub fn get_task(&self, id: u32, user: &AccountId) -> (task: Option<Task>)
        ensures
            match task {
                Some(t) => task_with_id(self@.account(user@).tasks, id) == Some(t@),
                None => task_with_id(self@.account(user@).tasks, id) is None,
            },
    {
        match self.account(user) {
            Some(account) => account.get(id),
            None => None,
        }
    }

    /// Renders the page that `path` selects (`/` in its absence) for the
    /// viewer, if there is one. Reads only.
    pub fn render(&self, path: Option<&[u8]>, viewer: Option<&AccountId>) -> (out: Vec<u8>)
        ensures
            out@ == self@.render(optional_bytes(path), optional_account(viewer)),
    {
        let page = match path {
            Some(p) => route(p),
            None => route(DEFAULT_PATH.as_bytes()),
        };
        let connected: bool = viewer.is_some();
        let known: Option<&Account> = match viewer {
            Some(v) => self.account(v),
            None => None,
        };
        match known {
            Some(account) => render_page(
                page,
                account.tasks().as_slice(),
                connected,
                self.total_tasks,
                self.user_count,
            ),
            None => {
                let nothing: Vec<Task> = Vec::new();
                render_page(page, nothing.as_slice(), connected, self.total_tasks, self.user_count)
            },
        }
    }

    /// The footer component, for inclusion in other pages. Path and viewer
    /// do not matter.
    pub fn render_footer(&self, _path: Option<&[u8]>, _viewer: Option<&AccountId>) -> (out: Vec<u8>)
        ensures
            out@ == text(FOOTER),
    {
        render_footer()
    }

    /// The header component, for inclusion in other pages. Path and viewer
    /// do not matter.
    pub fn render_header(&self, _path: Option<&[u8]>, _viewer: Option<&AccountId>) -> (out: Vec<u8>)
        ensures
            out@ == text(HEADER),
    {
        render_header()
    }
}

} // verus!
