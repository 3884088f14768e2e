//! The server's accounts, and which of them are logged in.

use vstd::prelude::*;
use crate::server::error::{AccountLoginError, AccountLogoutError};
use crate::shared::id::new_id;
use crate::server::file::{ConsPath, FileSystem};
pub use crate::shared::networking::IpAddress;

verus! {

/// What happened to an account.
#[derive(Debug, Clone, Copy, PartialEq, Eq, Structural)]
pub enum AccountLog {
    /// A login from this address.
    Connection(IpAddress),
    Disconnection,
}

/// A user account: its id, its credentials and its history, each event
/// with the time it happened (milliseconds since the Unix epoch, UTC).
#[derive(Debug)]
pub struct Account {
    id: u128,
    username: String,
    password: String,
    logs: Vec<(i64, AccountLog)>,
}

/// Abstract view of an account.
pub struct AccountView {
    pub id: u128,
    pub username: Seq<char>,
    pub password: Seq<char>,
    pub logs: Seq<(i64, AccountLog)>,
}

impl View for Account {
    type V = AccountView;

    closed spec fn view(&self) -> AccountView {
        AccountView {
            id: self.id,
            username: self.username@,
            password: self.password@,
            logs: self.logs@,
        }
    }
}

/// The accounts known to the server, in registration order, and the ids of
/// the logged-in accounts, in login order.
#[derive(Debug)]
pub struct AccountManager {
    accounts: Vec<Account>,
    connected_accounts: Vec<u128>,
}

/// Abstract view of the account manager.
pub struct AccountManagerView {
    pub accounts: Seq<AccountView>,
    pub connected: Seq<u128>,
}

impl View for AccountManager {
    type V = AccountManagerView;

    closed spec fn view(&self) -> AccountManagerView {
        AccountManagerView {
            accounts: self.accounts@.map_values(|a: Account| a@),
            connected: self.connected_accounts@,
        }
    }
}

/// The index of the first element of `s` that satisfies `pred`, if any.
pub open spec fn find_first<A>(s: Seq<A>, pred: spec_fn(A) -> bool) -> Option<int>
    decreases s.len(),
{
    if s.len() == 0 {
        None
    } else {
        match find_first(s.drop_last(), pred) {
            Some(i) => Some(i),
            None => if pred(s.last()) {
                Some(s.len() - 1)
            } else {
                None
            },
        }
    }
}

/// Whether `b` is `a` with one more event, `entry`, at the end of its
/// history, at some time.
pub open spec fn logged(a: AccountView, b: AccountView, entry: AccountLog) -> bool {
    &&& b.id == a.id
    &&& b.username == a.username
    &&& b.password == a.password
    &&& b.logs.len() == a.logs.len() + 1
    &&& b.logs.drop_last() == a.logs
    &&& b.logs.last().1 == entry
}

/// Whether `b` is `a` with only the account at `i` given the event `entry`.
pub open spec fn logged_at(
    a: Seq<AccountView>,
    b: Seq<AccountView>,
    i: int,
    entry: AccountLog,
) -> bool {
    &&& 0 <= i < a.len()
    &&& b.len() == a.len()
    &&& logged(a[i], b[i], entry)
    &&& forall|j: int| 0 <= j < a.len() && j != i ==> #[trigger] b[j] == a[j]
}

/// Whether two account lists hold the same accounts with the same
/// credentials, whatever their histories.
pub open spec fn same_credentials(a: Seq<AccountView>, b: Seq<AccountView>) -> bool {
    &&& a.len() == b.len()
    &&& forall|i: int|
        0 <= i < a.len() ==> {
            &&& (#[trigger] b[i]).id == a[i].id
            &&& b[i].username == a[i].username
            &&& b[i].password == a[i].password
        }
}

/// Whether no two accounts share a username.
pub open spec fn unique_names(accounts: Seq<AccountView>) -> bool {
    forall|i: int, j: int|
        0 <= i < accounts.len() && 0 <= j < accounts.len() && i != j ==> #[trigger] accounts[i].username
            != #[trigger] accounts[j].username
}

/// Whether an account is named `username`.
pub open spec fn is_named(username: Seq<char>) -> spec_fn(AccountView) -> bool {
    |a: AccountView| a.username == username
}

/// Whether an account has the id `id`.
pub open spec fn has_id(id: u128) -> spec_fn(AccountView) -> bool {
    |a: AccountView| a.id == id
}

/// Whether an id is `id`.
pub open spec fn is_id(id: u128) -> spec_fn(u128) -> bool {
    |x: u128| x == id
}

/// The first account named `username`, if any.
pub open spec fn account_named(accounts: Seq<AccountView>, username: Seq<char>) -> Option<int> {
    find_first(accounts, is_named(username))
}

/// The first account with id `id`, if any.
pub open spec fn account_with_id(accounts: Seq<AccountView>, id: u128) -> Option<int> {
    find_first(accounts, has_id(id))
}

/// The first position of `id` among the logged-in ids, if any.
pub open spec fn connected_position(connected: Seq<u128>, id: u128) -> Option<int> {
    find_first(connected, is_id(id))
}

/// The answer to a login: the first account with this username decides; its
/// password must match and it must not be logged in already.
pub open spec fn login_outcome(m: AccountManagerView, username: Seq<char>, password: Seq<char>) -> Result<
    u128,
    AccountLoginError,
> {
    match account_named(m.accounts, username) {
        None => Err(AccountLoginError::UnknownUsername),
        Some(i) => if m.accounts[i].password != password {
            Err(AccountLoginError::InvalidPassword)
        } else if m.connected.contains(m.accounts[i].id) {
            Err(AccountLoginError::AlreadyLoggedIn)
        } else {
            Ok(m.accounts[i].id)
        },
    }
}

/// The answer to a logout: the id must be logged in and belong to an account.
pub open spec fn logout_outcome(m: AccountManagerView, id: u128) -> Result<(), AccountLogoutError> {
    if !m.connected.contains(id) {
        Err(AccountLogoutError::NotLoggedIn)
    } else if account_with_id(m.accounts, id) is None {
        Err(AccountLogoutError::UnknownAccount)
    } else {
        Ok(())
    }
}

impl AccountManagerView {
    /// The manager's invariant: no id is logged in twice, and every
    /// logged-in id belongs to an account.
    pub open spec fn inv(self) -> bool {
        &&& self.connected.no_duplicates()
        &&& forall|k: int|
            0 <= k < self.connected.len() ==> account_with_id(
                self.accounts,
                #[trigger] self.connected[k],
            ) is Some
    }
}

/// A prefix that already holds a match finds the same first match as the
/// whole sequence.
pub proof fn lemma_find_first_prefix<A>(s: Seq<A>, k: int, pred: spec_fn(A) -> bool)
    requires
        0 <= k <= s.len(),
        find_first(s.take(k), pred) is Some,
    ensures
        find_first(s, pred) == find_first(s.take(k), pred),
    decreases s.len() - k,
{
    if k < s.len() {
        assert(s.take(k + 1).drop_last() =~= s.take(k));
        lemma_find_first_prefix(s, k + 1, pred);
    } else {
        assert(s.take(k) =~= s);
    }
}

/// What `find_first` returns satisfies the predicate, and nothing before it.
pub proof fn lemma_find_first_found<A>(s: Seq<A>, pred: spec_fn(A) -> bool)
    ensures
        find_first(s, pred) matches Some(i) ==> 0 <= i < s.len() && pred(s[i]) && forall|j: int|
            0 <= j < i ==> !pred(#[trigger] s[j]),
        find_first(s, pred) is None ==> forall|j: int| 0 <= j < s.len() ==> !pred(#[trigger] s[j]),
    decreases s.len(),
{
    if s.len() > 0 {
        let d = s.drop_last();
        lemma_find_first_found(d, pred);
        assert(forall|j: int| 0 <= j < d.len() ==> #[trigger] d[j] == s[j]);
        if let Some(i) = find_first(d, pred) {
            assert forall|j: int| 0 <= j < i implies !pred(#[trigger] s[j]) by {
                assert(d[j] == s[j]);
            }
        } else if pred(s.last()) {
            assert forall|j: int| 0 <= j < s.len() - 1 implies !pred(#[trigger] s[j]) by {
                assert(d[j] == s[j]);
            }
        }
        if find_first(d, pred) is None && !pred(s.last()) {
            assert forall|j: int| 0 <= j < s.len() implies !pred(#[trigger] s[j]) by {
                if j < d.len() {
                    assert(d[j] == s[j]);
                }
            }
        }
    }
}

/// `find_first` depends only on which elements satisfy the predicate.
pub proof fn lemma_find_first_same<A, B>(
    s: Seq<A>,
    t: Seq<B>,
    p: spec_fn(A) -> bool,
    q: spec_fn(B) -> bool,
)
    requires
        s.len() == t.len(),
        forall|i: int| 0 <= i < s.len() ==> p(s[i]) == q(t[i]),
    ensures
        find_first(s, p) == find_first(t, q),
    decreases s.len(),
{
    if s.len() > 0 {
        lemma_find_first_same(s.drop_last(), t.drop_last(), p, q);
    }
}

/// Whether `x` occurs in `v`.
fn contains_id(v: &Vec<u128>, x: u128) -> (r: bool)
    ensures
        r == v@.contains(x),
{
    let mut i: usize = 0;
    while i < v.len()
        invariant
            i <= v@.len(),
            forall|j: int| 0 <= j < i ==> v@[j] != x,
        decreases v.len() - i,
    {
        if v[i] == x {
            assert(v@[i as int] == x);
            return true;
        }
        i = i + 1;
    }
    false
}

/// Where the account list is saved, under the server's `files` directory.
pub fn account_file_path() -> (r: ConsPath)
    ensures
        r@ == "accounts.ron"@,
{
    ConsPath::new(FileSystem::External, "accounts.ron")
}

/// The current time, in milliseconds since the Unix epoch, UTC
/// (`chrono::Utc::now`). Nothing is claimed of the value.
#[verifier::external_body]
fn now_millis() -> i64 {
    chrono::Utc::now().timestamp_millis()
}

impl Account {
    /// A new account with a fresh random id and an empty history.
    pub fn new(username: String, password: String) -> (r: Account)
        ensures
            r@.username == username@,
            r@.password == password@,
            r@.logs.len() == 0,
            crate::shared::id::is_v4(r@.id),
    {
        Account { id: new_id(), username, password, logs: Vec::new() }
    }

    /// An account as it was saved: its id, credentials and history.
    pub fn from_parts(id: u128, username: String, password: String, logs: Vec<(i64, AccountLog)>) -> (r:
        Account)
        ensures
            r@ == (AccountView { id, username: username@, password: password@, logs: logs@ }),
    {
        Account { id, username, password, logs }
    }

    /// Records `log` at the end of the history, with the current time.
    pub fn log(&mut self, log: AccountLog)
        ensures
            logged(old(self)@, final(self)@, log),
    {
        let t = now_millis();
        self.logs.push((t, log));
        assert(self.logs@.drop_last() =~= old(self).logs@);
    }

    /// The account's id.
    pub fn id(&self) -> (r: u128)
        ensures
            r == self@.id,
    {
        self.id
    }

    /// The account's username.
    pub fn username(&self) -> (r: &String)
        ensures
            r@ == self@.username,
    {
        &self.username
    }

    /// The account's password.
    pub fn password(&self) -> (r: &String)
        ensures
            r@ == self@.password,
    {
        &self.password
    }

    /// The account's history, oldest first.
    pub fn logs(&self) -> (r: &Vec<(i64, AccountLog)>)
        ensures
            r@ == self@.logs,
    {
        &self.logs
    }
}

/// Accounts with the same ids, position by position, have the same first
/// account with any given id.
pub proof fn lemma_account_with_id_same_ids(a: Seq<AccountView>, b: Seq<AccountView>, id: u128)
    requires
        a.len() == b.len(),
        forall|i: int| 0 <= i < a.len() ==> (#[trigger] a[i]).id == b[i].id,
    ensures
        account_with_id(a, id) == account_with_id(b, id),
    decreases a.len(),
{
    if a.len() > 0 {
        let (da, db) = (a.drop_last(), b.drop_last());
        assert forall|i: int| 0 <= i < da.len() implies (#[trigger] da[i]).id == db[i].id by {
            assert(da[i] == a[i] && db[i] == b[i]);
        }
        lemma_account_with_id_same_ids(da, db, id);
    }
}

/// An account with id `id` at position `i` makes the first such account
/// exist.
pub proof fn lemma_account_with_id_some(a: Seq<AccountView>, id: u128, i: int)
    requires
        0 <= i < a.len(),
        a[i].id == id,
    ensures
        account_with_id(a, id) is Some,
{
    lemma_find_first_found(a, has_id(id));
}

/// Registering one more account keeps every first account with a given id.
pub proof fn lemma_account_with_id_push(a: Seq<AccountView>, x: AccountView, id: u128)
    requires
        account_with_id(a, id) is Some,
    ensures
        account_with_id(a.push(x), id) == account_with_id(a, id),
{
    assert(a.push(x).drop_last() =~= a);
}

/// Removing an element keeps a sequence free of duplicates.
pub proof fn lemma_remove_no_duplicates(s: Seq<u128>, i: int)
    requires
        s.no_duplicates(),
        0 <= i < s.len(),
    ensures
        s.remove(i).no_duplicates(),
{
    let r = s.remove(i);
    assert forall|j: int, k: int| 0 <= j < r.len() && 0 <= k < r.len() && j != k implies r[j] != r[k] by {
        let jj = if j < i { j } else { j + 1 };
        let kk = if k < i { k } else { k + 1 };
        assert(r[j] == s[jj] && r[k] == s[kk]);
    }
}

/// Giving one account one more event keeps every account's credentials.
pub proof fn lemma_logged_at_same_credentials(
    a: Seq<AccountView>,
    b: Seq<AccountView>,
    i: int,
    entry: AccountLog,
)
    requires
        logged_at(a, b, i, entry),
    ensures
        same_credentials(a, b),
{
    assert forall|j: int| 0 <= j < a.len() implies {
        &&& (#[trigger] b[j]).id == a[j].id
        &&& b[j].username == a[j].username
        &&& b[j].password == a[j].password
    } by {
        if j != i {
            assert(b[j] == a[j]);
        }
    }
}

/// Logging in and then logging out with the id that the login returned:
/// the logout succeeds, and the logged-in ids are those from before the
/// login.
pub proof fn lemma_login_then_logout(
    m: AccountManagerView,
    after: AccountManagerView,
    username: Seq<char>,
    password: Seq<char>,
    ip: IpAddress,
    id: u128,
)
    requires
        login_outcome(m, username, password) == Ok::<u128, AccountLoginError>(id),
        after.connected == m.connected.push(id),
        logged_at(
            m.accounts,
            after.accounts,
            account_named(m.accounts, username).unwrap(),
            AccountLog::Connection(ip),
        ),
    ensures
        logout_outcome(after, id) == Ok::<(), AccountLogoutError>(()),
        after.connected.remove(connected_position(after.connected, id).unwrap()) == m.connected,
{
    let i = account_named(m.accounts, username).unwrap();
    lemma_find_first_found(m.accounts, is_named(username));
    lemma_logged_at_same_credentials(m.accounts, after.accounts, i, AccountLog::Connection(ip));
    lemma_account_with_id_some(after.accounts, id, i);
    lemma_find_first_found(m.connected, is_id(id));
    assert(after.connected.drop_last() =~= m.connected);
    assert(connected_position(after.connected, id) == Some(m.connected.len() as int));
    assert(after.connected.last() == id);
    assert(after.connected.contains(id));
    assert(after.connected.remove(m.connected.len() as int) =~= m.connected);
}

/// Logging in, logging out with the id the login returned, and logging in
/// again with the same credentials: the second login is granted the same
/// id.
pub proof fn lemma_login_again_after_logout(
    m: AccountManagerView,
    logged_in: AccountManagerView,
    logged_out: AccountManagerView,
    username: Seq<char>,
    password: Seq<char>,
    ip: IpAddress,
    id: u128,
)
    requires
        login_outcome(m, username, password) == Ok::<u128, AccountLoginError>(id),
        logged_in.connected == m.connected.push(id),
        logged_at(
            m.accounts,
            logged_in.accounts,
            account_named(m.accounts, username).unwrap(),
            AccountLog::Connection(ip),
        ),
        logout_outcome(logged_in, id) is Ok,
        logged_out.connected == logged_in.connected.remove(
            connected_position(logged_in.connected, id).unwrap(),
        ),
        logged_at(
            logged_in.accounts,
            logged_out.accounts,
            account_with_id(logged_in.accounts, id).unwrap(),
            AccountLog::Disconnection,
        ),
    ensures
        login_outcome(logged_out, username, password) == Ok::<u128, AccountLoginError>(id),
{
    lemma_login_then_logout(m, logged_in, username, password, ip, id);
    let i = account_named(m.accounts, username).unwrap();
    lemma_logged_at_same_credentials(m.accounts, logged_in.accounts, i, AccountLog::Connection(ip));
    lemma_logged_at_same_credentials(
        logged_in.accounts,
        logged_out.accounts,
        account_with_id(logged_in.accounts, id).unwrap(),
        AccountLog::Disconnection,
    );
    lemma_find_first_same(m.accounts, logged_out.accounts, is_named(username), is_named(username));
    lemma_find_first_found(m.accounts, is_named(username));
}

/// An account that is logged in cannot log in a second time: the same
/// credentials are then refused as already logged in.
pub proof fn lemma_no_double_login(
    m: AccountManagerView,
    after: AccountManagerView,
    username: Seq<char>,
    password: Seq<char>,
    ip: IpAddress,
    id: u128,
)
    requires
        login_outcome(m, username, password) == Ok::<u128, AccountLoginError>(id),
        after.connected == m.connected.push(id),
        logged_at(
            m.accounts,
            after.accounts,
            account_named(m.accounts, username).unwrap(),
            AccountLog::Connection(ip),
        ),
    ensures
        login_outcome(after, username, password) == Err::<u128, AccountLoginError>(
            AccountLoginError::AlreadyLoggedIn,
        ),
{
    let i = account_named(m.accounts, username).unwrap();
    lemma_logged_at_same_credentials(m.accounts, after.accounts, i, AccountLog::Connection(ip));
    lemma_find_first_same(m.accounts, after.accounts, is_named(username), is_named(username));
    assert(after.connected[m.connected.len() as int] == id);
    assert(after.connected.contains(id));
}

/// In a manager that keeps its invariant, a logout is never refused for an
/// unknown account: every logged-in id belongs to one.
pub proof fn lemma_logout_never_unknown(m: AccountManagerView, id: u128)
    requires
        m.inv(),
    ensures
        logout_outcome(m, id) != Err::<(), AccountLogoutError>(AccountLogoutError::UnknownAccount),
{
    if m.connected.contains(id) {
        let k = choose|k: int| 0 <= k < m.connected.len() && m.connected[k] == id;
        assert(account_with_id(m.accounts, m.connected[k]) is Some);
    }
}

/// An account registered under a name no earlier account has can log in
/// with its own credentials, unless its id is logged in already.
pub proof fn lemma_register_then_login(m: AccountManagerView, a: AccountView)
    requires
        account_named(m.accounts, a.username) is None,
        !m.connected.contains(a.id),
    ensures
        login_outcome(
            AccountManagerView { accounts: m.accounts.push(a), connected: m.connected },
            a.username,
            a.password,
        ) == Ok::<u128, AccountLoginError>(a.id),
{
    assert(m.accounts.push(a).drop_last() =~= m.accounts);
}

/// A logout of an id that is not logged in is refused as such, and the
/// manager stays as it was.
pub proof fn lemma_logout_requires_login(m: AccountManagerView, id: u128)
    requires
        !m.connected.contains(id),
    ensures
        logout_outcome(m, id) == Err::<(), AccountLogoutError>(AccountLogoutError::NotLoggedIn),
{
}

impl AccountManager {
    /// A manager with no account.
    pub fn new_empty() -> (r: AccountManager)
        ensures
            r@.accounts.len() == 0,
            r@.connected.len() == 0,
            r@.inv(),
    {
        let r = AccountManager { accounts: Vec::new(), connected_accounts: Vec::new() };
        assert(r@.accounts =~= Seq::<AccountView>::empty());
        r
    }

    /// A manager holding the saved accounts, none of them logged in; with
    /// no readable saved list (`None`), a manager with no account.
    pub fn load(saved: Option<Vec<Account>>) -> (r: AccountManager)
        ensures
            saved matches Some(accounts) ==> r@.accounts == accounts@.map_values(|a: Account| a@),
            saved is None ==> r@.accounts.len() == 0,
            r@.connected.len() == 0,
            r@.inv(),
    {
        match saved {
            Some(accounts) => AccountManager { accounts, connected_accounts: Vec::new() },
            None => AccountManager::new_empty(),
        }
    }

    /// The accounts, in registration order.
    pub fn accounts(&self) -> (r: &Vec<Account>)
        ensures
            r@.map_values(|a: Account| a@) == self@.accounts,
    {
        &self.accounts
    }

    /// The logged-in ids, in login order.
    pub fn connected_accounts(&self) -> (r: &Vec<u128>)
        ensures
            r@ == self@.connected,
    {
        &self.connected_accounts
    }

    /// Adds an account at the end, unless its name is taken: when an account
    /// with the same username exists, the registration is refused and the
    /// manager stays as it was.
    pub fn register(&mut self, new_account: Account) -> (r: Result<(), ()>)
        ensures
            r is Err <==> account_named(old(self)@.accounts, new_account@.username) is Some,
            r is Err ==> final(self)@ == old(self)@,
            r is Ok ==> final(self)@.accounts == old(self)@.accounts.push(new_account@),
            final(self)@.connected == old(self)@.connected,
            old(self)@.inv() ==> final(self)@.inv(),
            unique_names(old(self)@.accounts) ==> unique_names(final(self)@.accounts),
    {
        let ghost a = new_account@;
        let mut i: usize = 0;
        while i < self.accounts.len()
            invariant
                self@ == old(self)@,
                i <= self@.accounts.len(),
                account_named(self@.accounts.take(i as int), a.username) is None,
                a == new_account@,
            decreases self.accounts.len() - i,
        {
            proof {
                assert(self@.accounts.take(i + 1).drop_last() =~= self@.accounts.take(i as int));
                assert(self@.accounts.take(i + 1).last() == self@.accounts[i as int]);
                assert(self@.accounts[i as int] == self.accounts@[i as int]@);
            }
            if self.accounts[i].username == new_account.username {
                proof {
                    lemma_find_first_prefix(self@.accounts, i + 1, is_named(a.username));
                }
                return Err(());
            }
            i = i + 1;
        }
        proof {
            assert(self@.accounts.take(i as int) =~= self@.accounts);
        }
        self.accounts.push(new_account);
        proof {
            assert(self@.accounts =~= old(self)@.accounts.push(a));
            lemma_find_first_found(old(self)@.accounts, is_named(a.username));
            let oa = old(self)@.accounts;
            assert forall|j: int| 0 <= j < oa.len() implies #[trigger] oa[j].username != a.username by {
                assert(!is_named(a.username)(oa[j]));
            }
            if old(self)@.inv() {
                assert forall|k: int| 0 <= k < self@.connected.len() implies account_with_id(
                    self@.accounts,
                    #[trigger] self@.connected[k],
                ) is Some by {
                    lemma_account_with_id_push(old(self)@.accounts, a, self@.connected[k]);
                }
            }
        }
        Ok(())
    }

    /// Logs in the first account named `username`, from `ip`: refused if its
    /// password differs or it is logged in already; on success the account
    /// records the connection and its id joins the logged-in ids.
    pub fn login(&mut self, username: String, password: String, ip: IpAddress) -> (r: Result<
        u128,
        AccountLoginError,
    >)
        ensures
            r == login_outcome(old(self)@, username@, password@),
            r is Err ==> final(self)@ == old(self)@,
            r matches Ok(id) ==> {
                &&& final(self)@.connected == old(self)@.connected.push(id)
                &&& logged_at(
                    old(self)@.accounts,
                    final(self)@.accounts,
                    account_named(old(self)@.accounts, username@).unwrap(),
                    AccountLog::Connection(ip),
                )
            },
            old(self)@.inv() ==> final(self)@.inv(),
    {
        let ghost old_view = self@;
        let mut i: usize = 0;
        while i < self.accounts.len()
            invariant
                self@ == old_view,
                old_view == old(self)@,
                i <= self@.accounts.len(),
                account_named(self@.accounts.take(i as int), username@) is None,
            decreases self.accounts.len() - i,
        {
            proof {
                assert(self@.accounts.take(i + 1).drop_last() =~= self@.accounts.take(i as int));
                assert(self@.accounts.take(i + 1).last() == self@.accounts[i as int]);
                assert(self@.accounts[i as int] == self.accounts@[i as int]@);
            }
            if !(self.accounts[i].username == username) {
                i = i + 1;
                continue;
            }
            proof {
                lemma_find_first_prefix(self@.accounts, i + 1, is_named(username@));
            }
            if !(self.accounts[i].password == password) {
                return Err(AccountLoginError::InvalidPassword);
            }
            let id = self.accounts[i].id;
            if contains_id(&self.connected_accounts, id) {
                return Err(AccountLoginError::AlreadyLoggedIn);
            }
            let ghost before = self.accounts@;
            self.accounts[i].log(AccountLog::Connection(ip));
            self.connected_accounts.push(id);
            proof {
                let na = self@.accounts;
                let oa = old_view.accounts;
                assert forall|j: int| 0 <= j < oa.len() && j != i implies #[trigger] na[j] == oa[j] by {
                    assert(self.accounts@[j] == before[j]);
                }
                assert(logged_at(oa, na, i as int, AccountLog::Connection(ip)));
                if old_view.inv() {
                    assert forall|j: int| 0 <= j < oa.len() implies (#[trigger] oa[j]).id == na[j].id by {
                        if j != i {
                            assert(na[j] == oa[j]);
                        }
                    }
                    assert forall|k: int| 0 <= k < self@.connected.len() implies account_with_id(
                        na,
                        #[trigger] self@.connected[k],
                    ) is Some by {
                        let c = self@.connected[k];
                        lemma_account_with_id_same_ids(oa, na, c);
                        if k == old_view.connected.len() {
                            lemma_account_with_id_some(oa, c, i as int);
                        } else {
                            assert(c == old_view.connected[k]);
                        }
                    }
                    assert forall|x: int, y: int|
                        0 <= x < self@.connected.len() && 0 <= y < self@.connected.len() && x
                            != y implies self@.connected[x] != self@.connected[y] by {
                        let n = old_view.connected.len() as int;
                        if x == n {
                            assert(self@.connected[y] == old_view.connected[y]);
                        } else if y == n {
                            assert(self@.connected[x] == old_view.connected[x]);
                        }
                    }
                }
            }
            return Ok(id);
        }
        proof {
            assert(self@.accounts.take(self@.accounts.len() as int) =~= self@.accounts);
        }
        Err(AccountLoginError::UnknownUsername)
    }

    /// Logs out the account `id`: refused if it is not logged in, or if no
    /// account has that id; on success the account records the
    /// disconnection and the id leaves the logged-in ids.
    pub fn logout(&mut self, id: u128) -> (r: Result<(), AccountLogoutError>)
        ensures
            r == logout_outcome(old(self)@, id),
            r is Err ==> final(self)@ == old(self)@,
            r is Ok ==> {
                &&& final(self)@.connected == old(self)@.connected.remove(
                    connected_position(old(self)@.connected, id).unwrap(),
                )
                &&& logged_at(
                    old(self)@.accounts,
                    final(self)@.accounts,
                    account_with_id(old(self)@.accounts, id).unwrap(),
                    AccountLog::Disconnection,
                )
            },
            old(self)@.inv() ==> final(self)@.inv(),
    {
        let ghost old_view = self@;
        let mut index: usize = 0;
        let mut found = false;
        while index < self.connected_accounts.len()
            invariant_except_break
                !found,
            invariant
                self@ == old_view,
                old_view == old(self)@,
                index <= self@.connected.len(),
                connected_position(self@.connected.take(index as int), id) is None,
            ensures
                self@ == old_view,
                old_view == old(self)@,
                index <= self@.connected.len(),
                connected_position(self@.connected.take(index as int), id) is None,
                found ==> index < self@.connected.len() && self@.connected[index as int] == id,
                !found ==> index == self@.connected.len(),
            decreases self.connected_accounts.len() - index,
        {
            proof {
                assert(self@.connected.take(index + 1).drop_last() =~= self@.connected.take(
                    index as int,
                ));
            }
            if self.connected_accounts[index] == id {
                found = true;
                break;
            }
            assert(self@.connected.take(index + 1).last() == self@.connected[index as int]);
            index = index + 1;
        }
        if !found {
            proof {
                assert(self@.connected.take(self@.connected.len() as int) =~= self@.connected);
                lemma_find_first_found(self@.connected, is_id(id));
            }
            return Err(AccountLogoutError::NotLoggedIn);
        }
        proof {
            assert(self@.connected.take(index + 1).drop_last() =~= self@.connected.take(index as int));
            assert(self@.connected.take(index + 1).last() == self@.connected[index as int]);
            lemma_find_first_prefix(self@.connected, index + 1, is_id(id));
        }
        let mut k: usize = 0;
        while k < self.accounts.len()
            invariant
                self@ == old_view,
                old_view == old(self)@,
                k <= self@.accounts.len(),
                account_with_id(self@.accounts.take(k as int), id) is None,
            ensures
                self@ == old_view,
                old_view == old(self)@,
                k <= self@.accounts.len(),
                account_with_id(self@.accounts.take(k as int), id) is None,
                k < self@.accounts.len() ==> self@.accounts[k as int].id == id,
            decreases self.accounts.len() - k,
        {
            proof {
                assert(self@.accounts.take(k + 1).drop_last() =~= self@.accounts.take(k as int));
                assert(self@.accounts.take(k + 1).last() == self@.accounts[k as int]);
                assert(self@.accounts[k as int] == self.accounts@[k as int]@);
            }
            if self.accounts[k].id == id {
                break;
            }
            k = k + 1;
        }
        if k == self.accounts.len() {
            proof {
                assert(self@.accounts.take(self@.accounts.len() as int) =~= self@.accounts);
            }
            return Err(AccountLogoutError::UnknownAccount);
        }
        proof {
            assert(self@.accounts.take(k + 1).drop_last() =~= self@.accounts.take(k as int));
            assert(self@.accounts.take(k + 1).last() == self@.accounts[k as int]);
            lemma_find_first_prefix(self@.accounts, k + 1, has_id(id));
        }
        let ghost before = self.accounts@;
        self.accounts[k].log(AccountLog::Disconnection);
        self.connected_accounts.remove(index);
        proof {
            let na = self@.accounts;
            let oa = old_view.accounts;
            assert forall|j: int| 0 <= j < oa.len() && j != k implies #[trigger] na[j] == oa[j] by {
                assert(self.accounts@[j] == before[j]);
            }
            assert(logged_at(oa, na, k as int, AccountLog::Disconnection));
            assert(self@.connected =~= old_view.connected.remove(index as int));
            if old_view.inv() {
                lemma_remove_no_duplicates(old_view.connected, index as int);
                assert forall|j: int| 0 <= j < oa.len() implies (#[trigger] oa[j]).id == na[j].id by {
                    if j != k {
                        assert(na[j] == oa[j]);
                    }
                }
                assert forall|q: int| 0 <= q < self@.connected.len() implies account_with_id(
                    na,
                    #[trigger] self@.connected[q],
                ) is Some by {
                    let c = self@.connected[q];
                    lemma_account_with_id_same_ids(oa, na, c);
                    if q < index {
                        assert(c == old_view.connected[q]);
                    } else {
                        assert(c == old_view.connected[q + 1]);
                    }
                }
            }
        }
        Ok(())
    }
}

} // verus!
