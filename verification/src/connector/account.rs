//! Accounts, their connections and what they may do.

use crate::connector::pool;
use crate::connector::pool::{ConnectionPool, ConnectionState, PoolState};
use crate::connector::protocol::{AccountConfig, AccountPoolConfig};
use crate::error::RsmsError;
use crate::text;
use vstd::prelude::*;
use vstd::string::*;

verus! {

/// The connections of an account.
#[derive(Debug)]
pub struct AccountConnections {
    account: String,
    config: AccountConfig,
    connections: ConnectionPool,
    inflight: u16,
}

/// The connections of an account as a mathematical value.
#[verifier::ext_equal]
pub struct AccountState {
    pub account: Seq<char>,
    pub config: AccountConfig,
    pub connections: PoolState,
    pub inflight: u16,
}

impl View for AccountConnections {
    type V = AccountState;

    closed spec fn view(&self) -> AccountState {
        AccountState {
            account: self.account@,
            config: self.config,
            connections: self.connections@,
            inflight: self.inflight,
        }
    }
}

/// What follows from a new configuration.
#[derive(Debug)]
pub struct ConfigChange {
    /// The new number of messages a second, if the limit is to be set.
    pub rate: Option<u64>,
    /// The connections to close.
    pub evicted: Vec<u64>,
}

impl AccountState {
    /// With one batch more on its way.
    pub open spec fn counted_in(self) -> AccountState {
        AccountState {
            inflight: if self.inflight == u16::MAX {
                0
            } else {
                (self.inflight + 1) as u16
            },
            ..self
        }
    }

    /// With one batch less on its way.
    pub open spec fn counted_out(self) -> AccountState {
        AccountState {
            inflight: if self.inflight == 0 {
                u16::MAX
            } else {
                (self.inflight - 1) as u16
            },
            ..self
        }
    }

    /// A new account without connections.
    pub open spec fn fresh(account: Seq<char>, config: AccountConfig) -> AccountState {
        AccountState {
            account,
            config,
            connections: PoolState { members: Seq::empty(), cursor: 0 },
            inflight: 0,
        }
    }

    /// The connections that there are too many of. 0 stands for any number.
    pub open spec fn too_many(self) -> Seq<u64> {
        if self.config.max_connections == 0 {
            Seq::empty()
        } else {
            pool::excess_ids(self.connections.members, self.config.max_connections as int)
        }
    }

    /// Without the connections that there are too many of.
    pub open spec fn evicted(self) -> AccountState {
        AccountState {
            connections: PoolState {
                members: pool::without_all(self.connections.members, self.too_many()),
                ..self.connections
            },
            ..self
        }
    }

    /// With another configuration.
    pub open spec fn configured(self, config: AccountConfig) -> AccountState {
        AccountState { config, ..self }
    }

    /// Whether another configuration can mean that there are too many connections.
    pub open spec fn limit_changes(self, config: AccountConfig) -> bool {
        config.max_connections > 0 && self.config.max_connections != config.max_connections
    }

    /// Whether another configuration has another rate.
    pub open spec fn rate_changes(self, config: AccountConfig) -> bool {
        self.config.max_qps != config.max_qps || self.config.window_size_ms != config.window_size_ms
    }
}

impl AccountConnections {
    pub fn new(account: &str, config: AccountConfig) -> (acc: Self)
        ensures
            acc@ == AccountState::fresh(account@, config),
    {
        AccountConnections {
            account: account.to_owned(),
            config,
            connections: ConnectionPool::new(),
            inflight: 0,
        }
    }

    pub fn account(&self) -> (name: &str)
        ensures
            name@ == self@.account,
    {
        self.account.as_str()
    }

    pub fn add_connection(&mut self, conn: ConnectionState)
        ensures
            final(self)@ == (AccountState {
                connections: PoolState {
                    members: old(self)@.connections.members.push(conn),
                    ..old(self)@.connections
                },
                ..old(self)@
            }),
    {
        self.connections.add(conn);
    }

    pub fn remove_connection(&mut self, conn_id: u64)
        ensures
            final(self)@ == (AccountState {
                connections: PoolState {
                    members: pool::without(old(self)@.connections.members, conn_id),
                    ..old(self)@.connections
                },
                ..old(self)@
            }),
    {
        self.connections.remove(conn_id);
    }

    /// Notes what is known of a connection now.
    pub fn refresh(&mut self, state: ConnectionState)
        ensures
            final(self)@ == (AccountState {
                connections: PoolState {
                    members: pool::refreshed(old(self)@.connections.members, state),
                    ..old(self)@.connections
                },
                ..old(self)@
            }),
    {
        self.connections.refresh(state);
    }

    pub fn connection_count(&self) -> (count: usize)
        ensures
            count == self@.connections.members.len(),
    {
        self.connections.len()
    }

    pub fn first_connection(&self) -> (c: Option<ConnectionState>)
        ensures
            c == (if self@.connections.members.len() == 0 {
                None
            } else {
                Some(self@.connections.members[0])
            }),
    {
        self.connections.first()
    }

    pub fn config(&self) -> (config: AccountConfig)
        ensures
            config == self@.config,
    {
        self.config
    }

    /// Takes another configuration: with another rate the rate limit is set anew, and with
    /// another limit on connections those that there are too many of go.
    pub fn update_config(&mut self, config: AccountConfig) -> (change: ConfigChange)
        ensures
            change.rate == (if old(self)@.rate_changes(config) {
                Some(config.max_qps)
            } else {
                None
            }),
            if old(self)@.limit_changes(config) {
                &&& change.evicted@ == old(self)@.configured(config).too_many()
                &&& final(self)@ == old(self)@.configured(config).evicted()
            } else {
                &&& change.evicted@ == Seq::<u64>::empty()
                &&& final(self)@ == old(self)@.configured(config)
            },
    {
        let before = self.config;
        self.config = config;
        let rate: Option<u64> = if before.max_qps != config.max_qps || before.window_size_ms
            != config.window_size_ms {
            Some(config.max_qps)
        } else {
            None
        };
        let evicted = if config.max_connections > 0 && before.max_connections
            != config.max_connections {
            self.evict_excess_connections()
        } else {
            Vec::new()
        };
        ConfigChange { rate, evicted }
    }

    /// Removes the connections that there are too many of, and tells which to close, in this
    /// order.
    pub fn evict_excess_connections(&mut self) -> (evicted: Vec<u64>)
        ensures
            evicted@ == old(self)@.too_many(),
            final(self)@ == old(self)@.evicted(),
    {
        let max: usize = self.config.max_connections as usize;
        let gone = if max == 0 {
            Vec::new()
        } else {
            self.connections.excess(max)
        };
        self.connections.remove_all(&gone);
        gone
    }

    /// How many batches are on their way.
    pub fn inflight(&self) -> (count: usize)
        ensures
            count == self@.inflight,
    {
        self.inflight as usize
    }

    /// One more batch is on its way. After the largest number comes 0.
    pub fn increment_inflight(&mut self)
        ensures
            final(self)@ == old(self)@.counted_in(),
    {
        self.inflight = if self.inflight == u16::MAX { 0 } else { self.inflight + 1 };
    }

    /// One batch less is on its way. Before 0 comes the largest number.
    pub fn decrement_inflight(&mut self)
        ensures
            final(self)@ == old(self)@.counted_out(),
    {
        self.inflight = if self.inflight == 0 { u16::MAX } else { self.inflight - 1 };
    }

    /// The connection whose turn it is.
    pub fn fetch_available_connection(&mut self) -> (res: Result<ConnectionState, RsmsError>)
        ensures
            final(self)@ == (AccountState {
                connections: old(self)@.connections.turned(),
                ..old(self)@
            }),
            match old(self)@.connections.pick() {
                Some(c) => res matches Ok(found) && found == c,
                None => res matches Err(RsmsError::NoReadyConnection),
            },
    {
        self.connections.fetch()
    }

    /// The connection whose turn it is, if there is one.
    pub fn fetch_for_inbound(&mut self) -> (c: Option<ConnectionState>)
        ensures
            final(self)@ == (AccountState {
                connections: old(self)@.connections.turned(),
                ..old(self)@
            }),
            c == old(self)@.connections.pick(),
    {
        match self.connections.fetch() {
            Ok(c) => Some(c),
            Err(_) => None,
        }
    }

    pub fn get_connections_for_check(&self) -> (all: Vec<ConnectionState>)
        ensures
            all@ == self@.connections.members,
    {
        self.connections.all()
    }

    pub fn get_connection_by_id(&self, conn_id: u64) -> (c: Option<ConnectionState>)
        ensures
            match pool::position(self@.connections.members, conn_id) {
                Some(at) => 0 <= at < self@.connections.members.len() && c == Some(
                    self@.connections.members[at],
                ),
                None => c is None,
            },
    {
        self.connections.get(conn_id)
    }

    /// At most `count` connections, those that were active last first.
    pub fn get_least_used_connections(&self, count: usize) -> (found: Vec<ConnectionState>)
        ensures
            found@ == pool::recent(self@.connections.members, count as int),
    {
        self.connections.most_recent(count)
    }
}

/// A batch counted in and out again leaves the account as it was, however many were on their
/// way.
pub proof fn law_inflight_balances(state: AccountState)
    ensures
        state.counted_in().counted_out() == state,
        state.counted_out().counted_in() == state,
{
}

/// After a configuration that sets another limit, no more connections are left than it allows.
pub proof fn law_limit_is_kept(state: AccountState, config: AccountConfig)
    requires
        pool::distinct(state.connections.members),
        state.limit_changes(config),
    ensures
        state.configured(config).evicted().connections.members.len() <= config.max_connections,
{
    pool::law_eviction_leaves_max(state.connections.members, config.max_connections as int);
}

/// The accounts of a server.
#[derive(Debug)]
pub struct AccountPool {
    accounts: Vec<AccountConnections>,
    default_config: AccountConfig,
    config: AccountPoolConfig,
}

/// The accounts of a server as a mathematical value.
#[verifier::ext_equal]
pub struct AccountsState {
    pub accounts: Seq<AccountState>,
    pub default_config: AccountConfig,
    pub config: AccountPoolConfig,
}

/// Accounts as mathematical values.
pub open spec fn account_views(accounts: Seq<AccountConnections>) -> Seq<AccountState> {
    Seq::new(accounts.len(), |i: int| accounts[i]@)
}

/// Where an account stands, if it is there.
pub open spec fn find(accounts: Seq<AccountState>, name: Seq<char>) -> Option<int>
    decreases accounts.len(),
{
    if accounts.len() == 0 {
        None
    } else if accounts[0].account == name {
        Some(0)
    } else {
        match find(accounts.skip(1), name) {
            Some(at) => Some(at + 1),
            None => None,
        }
    }
}

impl View for AccountPool {
    type V = AccountsState;

    closed spec fn view(&self) -> AccountsState {
        AccountsState {
            accounts: account_views(self.accounts@),
            default_config: self.default_config,
            config: self.config,
        }
    }
}

impl AccountsState {
    /// No two accounts have the same name.
    pub open spec fn distinct(self) -> bool {
        forall|i: int, j: int|
            0 <= i < j < self.accounts.len() ==> #[trigger] self.accounts[i].account
                != #[trigger] self.accounts[j].account
    }

    /// With an account of that name, new if there was none.
    pub open spec fn ensured(self, name: Seq<char>) -> AccountsState {
        match find(self.accounts, name) {
            Some(_) => self,
            None => AccountsState {
                accounts: self.accounts.push(AccountState::fresh(name, self.default_config)),
                ..self
            },
        }
    }

    /// Without the account of that name.
    pub open spec fn dropped(self, name: Seq<char>) -> AccountsState {
        match find(self.accounts, name) {
            Some(at) => AccountsState { accounts: self.accounts.remove(at), ..self },
            None => self,
        }
    }

    /// With another state of the account at `at`.
    pub open spec fn with(self, at: int, account: AccountState) -> AccountsState {
        AccountsState { accounts: self.accounts.update(at, account), ..self }
    }
}

proof fn lemma_find(accounts: Seq<AccountState>, name: Seq<char>)
    ensures
        match find(accounts, name) {
            Some(at) => 0 <= at < accounts.len() && accounts[at].account == name,
            None => forall|i: int|
                0 <= i < accounts.len() ==> #[trigger] accounts[i].account != name,
        },
    decreases accounts.len(),
{
    if accounts.len() > 0 && accounts[0].account != name {
        let tail = accounts.skip(1);
        lemma_find(tail, name);
        if find(tail, name) is None {
            assert forall|i: int| 0 <= i < accounts.len() implies #[trigger] accounts[i].account
                != name by {
                if i > 0 {
                    assert(accounts[i] == tail[i - 1]);
                    assert(tail[i - 1].account != name);
                }
            }
        }
    }
}

/// The connections that look dead: in use, but without traffic for longer than they may be,
/// with the accounts that they belong to.
pub open spec fn dead_of(account: AccountState, now: u128, timeout: u128) -> Seq<
    (u64, Seq<char>),
> {
    account.connections.members.filter(
        |c: ConnectionState| c.ready && now - c.last_active > timeout,
    ).map_values(|c: ConnectionState| (c.id, account.account))
}

/// The connections of several accounts that look dead.
pub open spec fn dead(accounts: Seq<AccountState>, now: u128, timeout: u128) -> Seq<
    (u64, Seq<char>),
>
    decreases accounts.len(),
{
    if accounts.len() == 0 {
        Seq::empty()
    } else {
        dead(accounts.drop_last(), now, timeout) + dead_of(accounts.last(), now, timeout)
    }
}

/// Pairs of an id and a name as mathematical values.
pub open spec fn named(pairs: Seq<(u64, String)>) -> Seq<(u64, Seq<char>)> {
    Seq::new(pairs.len(), |i: int| (pairs[i].0, pairs[i].1@))
}

impl AccountPool {
    pub fn new(default_config: AccountConfig, config: AccountPoolConfig) -> (pool: Self)
        ensures
            pool@ == (AccountsState { accounts: Seq::empty(), default_config, config }),
    {
        let pool = AccountPool { accounts: Vec::new(), default_config, config };
        assert(account_views(pool.accounts@) =~= Seq::empty());
        pool
    }

    /// Where an account stands.
    pub fn get(&self, account: &str) -> (at: Option<usize>)
        ensures
            match find(self@.accounts, account@) {
                Some(i) => at matches Some(n) && n == i && i < self@.accounts.len(),
                None => at is None,
            },
    {
        let mut i: usize = 0;
        let ghost all = account_views(self.accounts@);
        assert(all.skip(0) =~= all);
        while i < self.accounts.len()
            invariant
                i <= self.accounts@.len(),
                all == account_views(self.accounts@),
                find(all, account@) == (match find(all.skip(i as int), account@) {
                    Some(at) => Some(at + i),
                    None => None,
                }),
            decreases self.accounts@.len() - i,
        {
            assert(all.skip(i as int)[0] == self.accounts@[i as int]@);
            if text::same_text(self.accounts[i].account(), account) {
                return Some(i);
            }
            assert(all.skip(i as int).skip(1) =~= all.skip(i + 1));
            i = i + 1;
        }
        None
    }

    /// Where an account stands; it is set up with the default configuration if it is new.
    pub fn get_or_create(&mut self, account: &str) -> (at: usize)
        ensures
            final(self)@ == old(self)@.ensured(account@),
            at < final(self)@.accounts.len(),
            final(self)@.accounts[at as int].account == account@,
            find(old(self)@.accounts, account@) matches Some(i) ==> at == i,
            find(old(self)@.accounts, account@) is None ==> at == old(self)@.accounts.len(),
    {
        proof {
            lemma_find(self@.accounts, account@);
        }
        match self.get(account) {
            Some(at) => at,
            None => {
                let at: usize = self.accounts.len();
                let ghost before = self@;
                self.accounts.push(AccountConnections::new(account, self.default_config));
                assert(account_views(self.accounts@) =~= before.accounts.push(
                    AccountState::fresh(account@, self.default_config),
                ));
                at
            },
        }
    }

    /// The account at a place.
    pub fn account(&self, at: usize) -> (account: &AccountConnections)
        requires
            at < self@.accounts.len(),
        ensures
            account@ == self@.accounts[at as int],
    {
        &self.accounts[at]
    }

    /// The account at a place, to be changed.
    pub fn account_mut(&mut self, at: usize) -> (account: &mut AccountConnections)
        requires
            at < old(self)@.accounts.len(),
        ensures
            account@ == old(self)@.accounts[at as int],
            final(self)@ == old(self)@.with(at as int, final(account)@),
    {
        let account = &mut self.accounts[at];
        proof {
            assert(account_views(old(self).accounts@.update(at as int, *final(account)))
                =~= old(self)@.accounts.update(at as int, final(account)@));
        }
        account
    }

    pub fn remove(&mut self, account: &str)
        ensures
            final(self)@ == old(self)@.dropped(account@),
    {
        proof {
            lemma_find(self@.accounts, account@);
        }
        match self.get(account) {
            Some(at) => {
                let ghost before = self@.accounts;
                let gone = self.accounts.remove(at);
                assert(account_views(self.accounts@) =~= before.remove(at as int));
            },
            None => {},
        }
    }

    /// How many connections an account has; none if there is no such account.
    pub fn connection_count(&self, account: &str) -> (count: usize)
        ensures
            count == (match find(self@.accounts, account@) {
                Some(at) => self@.accounts[at].connections.members.len(),
                None => 0,
            }),
    {
        match self.get(account) {
            Some(at) => self.accounts[at].connection_count(),
            None => 0,
        }
    }

    /// Gives an account another configuration; it is an error if there is no such account.
    pub fn update_config(&mut self, account: &str, config: AccountConfig) -> (res: Result<
        ConfigChange,
        RsmsError,
    >)
        ensures
            match find(old(self)@.accounts, account@) {
                Some(at) => {
                    let before = old(self)@.accounts[at];
                    &&& res matches Ok(change) && change.rate == (if before.rate_changes(config) {
                        Some(config.max_qps)
                    } else {
                        None
                    }) && change.evicted@ == (if before.limit_changes(config) {
                        before.configured(config).too_many()
                    } else {
                        Seq::empty()
                    })
                    &&& final(self)@ == old(self)@.with(
                        at,
                        if before.limit_changes(config) {
                            before.configured(config).evicted()
                        } else {
                            before.configured(config)
                        },
                    )
                },
                None => {
                    &&& res matches Err(e) && e.is_other(
                        "account "@ + account@ + " not found"@,
                    )
                    &&& final(self)@ == old(self)@
                },
            },
    {
        proof {
            lemma_find(self@.accounts, account@);
        }
        match self.get(account) {
            Some(at) => Ok(self.account_mut(at).update_config(config)),
            None => {
                let mut s = "account ".to_owned();
                s.append(account);
                s.append(" not found");
                Err(RsmsError::Other(s))
            },
        }
    }

    /// The names of all accounts.
    pub fn all_accounts(&self) -> (names: Vec<String>)
        ensures
            names@.len() == self@.accounts.len(),
            forall|i: int|
                0 <= i < names@.len() ==> #[trigger] names@[i]@ == self@.accounts[i].account,
    {
        let mut names: Vec<String> = Vec::new();
        let mut i: usize = 0;
        while i < self.accounts.len()
            invariant
                i <= self.accounts@.len(),
                names@.len() == i,
                forall|j: int|
                    0 <= j < i ==> #[trigger] names@[j]@ == account_views(
                        self.accounts@,
                    )[j].account,
            decreases self.accounts@.len() - i,
        {
            names.push(self.accounts[i].account().to_owned());
            i = i + 1;
        }
        names
    }

    /// Milliseconds between two looks at the accounts.
    pub fn check_interval_ms(&self) -> (ms: u64)
        ensures
            ms == self@.config.check_interval_ms,
    {
        self.config.check_interval_ms as u64
    }

    /// How many batches are on their way, over all accounts.
    pub fn total_inflight(&self) -> (count: u128)
        ensures
            count == inflight_sum(self@.accounts),
    {
        let mut count: u128 = 0;
        let mut i: usize = 0;
        let ghost all = account_views(self.accounts@);
        assert(all.take(0) =~= Seq::empty());
        while i < self.accounts.len()
            invariant
                i <= self.accounts@.len(),
                all == account_views(self.accounts@),
                count == inflight_sum(all.take(i as int)),
                count <= i * 0xFFFF,
            decreases self.accounts@.len() - i,
        {
            assert(all.take(i + 1).drop_last() =~= all.take(i as int));
            assert(i * 0xFFFF + 0xFFFF == (i + 1) * 0xFFFF);
            count = count + self.accounts[i].inflight() as u128;
            i = i + 1;
        }
        assert(all.take(i as int) =~= all);
        count
    }

    /// The connections that look dead, with the accounts that they belong to.
    pub fn unhealthy(&self, now: u128, timeout: u128) -> (found: Vec<(u64, String)>)
        ensures
            named(found@) == dead(self@.accounts, now, timeout),
    {
        let mut found: Vec<(u64, String)> = Vec::new();
        let mut i: usize = 0;
        let ghost all = account_views(self.accounts@);
        assert(named(found@) =~= dead(all.take(0), now, timeout));
        while i < self.accounts.len()
            invariant
                i <= self.accounts@.len(),
                all == account_views(self.accounts@),
                named(found@) == dead(all.take(i as int), now, timeout),
            decreases self.accounts@.len() - i,
        {
            let ghost before = named(found@);
            let members = self.accounts[i].get_connections_for_check();
            let ghost account = all[i as int];
            let ghost looks_dead = |c: ConnectionState|
                c.ready && now - c.last_active > timeout;
            let ghost with_name = |c: ConnectionState| (c.id, account.account);
            let mut j: usize = 0;
            proof {
                reveal(Seq::filter);
                assert(named(found@) =~= before + members@.take(0).filter(looks_dead).map_values(
                    with_name,
                ));
            }
            while j < members.len()
                invariant
                    i < self.accounts@.len(),
                    j <= members@.len(),
                    account == self.accounts@[i as int]@,
                    looks_dead == (|c: ConnectionState| c.ready && now - c.last_active > timeout),
                    with_name == (|c: ConnectionState| (c.id, account.account)),
                    named(found@) == before + members@.take(j as int).filter(
                        looks_dead,
                    ).map_values(with_name),
                decreases members@.len() - j,
            {
                let c = members[j];
                let ghost so_far = named(found@);
                proof {
                    reveal(Seq::filter);
                    assert(members@.take(j + 1).drop_last() =~= members@.take(j as int));
                }
                let is_dead = c.ready && now > c.last_active && now - c.last_active > timeout;
                assert(is_dead == looks_dead(c));
                if is_dead {
                    found.push((c.id, self.accounts[i].account().to_owned()));
                    assert(named(found@) =~= so_far.push(with_name(c)));
                    assert(members@.take(j + 1).filter(looks_dead) =~= members@.take(
                        j as int,
                    ).filter(looks_dead).push(c));
                }
                assert(named(found@) =~= before + members@.take(j + 1).filter(
                    looks_dead,
                ).map_values(with_name));
                j = j + 1;
            }
            assert(members@.take(j as int) =~= members@);
            assert(all.take(i + 1).drop_last() =~= all.take(i as int));
            assert(named(found@) =~= dead(all.take(i + 1), now, timeout));
            i = i + 1;
        }
        assert(all.take(i as int) =~= all);
        found
    }
}

/// How many batches are on their way, over several accounts.
pub open spec fn inflight_sum(accounts: Seq<AccountState>) -> int
    decreases accounts.len(),
{
    if accounts.len() == 0 {
        0
    } else {
        inflight_sum(accounts.drop_last()) + accounts.last().inflight
    }
}

/// Setting up and removing accounts never makes two of the same name.
pub proof fn law_names_stay_distinct(state: AccountsState, name: Seq<char>)
    requires
        state.distinct(),
    ensures
        state.ensured(name).distinct(),
        state.dropped(name).distinct(),
        find(state.ensured(name).accounts, name) is Some,
        find(state.dropped(name).accounts, name) is None,
{
    lemma_find(state.accounts, name);
    let ensured = state.ensured(name);
    lemma_find(ensured.accounts, name);
    if find(state.accounts, name) is None {
        assert(ensured.accounts[state.accounts.len() as int].account == name);
        assert forall|i: int, j: int|
            0 <= i < j < ensured.accounts.len() implies #[trigger] ensured.accounts[i].account
            != #[trigger] ensured.accounts[j].account by {
            assert(ensured.accounts[i] == state.accounts[i]);
            if j < state.accounts.len() {
                assert(ensured.accounts[j] == state.accounts[j]);
            }
        }
    }
    let dropped = state.dropped(name);
    lemma_find(dropped.accounts, name);
    if let Some(at) = find(state.accounts, name) {
        assert forall|i: int, j: int|
            0 <= i < j < dropped.accounts.len() implies #[trigger] dropped.accounts[i].account
            != #[trigger] dropped.accounts[j].account by {
            let k = if i < at {
                i
            } else {
                i + 1
            };
            let l = if j < at {
                j
            } else {
                j + 1
            };
            assert(state.accounts[k].account != state.accounts[l].account);
        }
        if let Some(again) = find(dropped.accounts, name) {
            let k = if again < at {
                again
            } else {
                again + 1
            };
            assert(dropped.accounts[again] == state.accounts[k]);
            if k < at {
                assert(state.accounts[k].account != state.accounts[at].account);
            } else {
                assert(state.accounts[at].account != state.accounts[k].account);
            }
        }
    }
}

/// How batches are counted: one more, one less, and from the largest number on to 0.
pub proof fn law_counting(state: AccountState)
    ensures
        state.inflight < 65535 ==> state.counted_in().inflight == state.inflight + 1,
        state.inflight == 65535 ==> state.counted_in().inflight == 0,
        state.inflight > 0 ==> state.counted_out().inflight == state.inflight - 1,
        state.inflight == 0 ==> state.counted_out().inflight == 65535,
        (AccountState { inflight: state.inflight, ..state.counted_in() }) == state,
        (AccountState { inflight: state.inflight, ..state.counted_out() }) == state,
{
}

/// A new account has its name and its configuration, no connections, and nothing on its way.
pub proof fn law_fresh(account: Seq<char>, config: AccountConfig)
    ensures
        AccountState::fresh(account, config).account == account,
        AccountState::fresh(account, config).config == config,
        AccountState::fresh(account, config).connections.members.len() == 0,
        AccountState::fresh(account, config).connections.cursor == 0,
        AccountState::fresh(account, config).inflight == 0,
{
}

/// Which connections there are too many of: none without a limit, and with one as many as stand
/// above it. They go, and nothing else about the account changes.
pub proof fn law_too_many(state: AccountState, c: ConnectionState)
    ensures
        state.config.max_connections == 0 ==> state.too_many().len() == 0,
        state.config.max_connections > 0 && state.connections.members.len()
            <= state.config.max_connections ==> state.too_many().len() == 0,
        state.config.max_connections > 0 && state.connections.members.len()
            > state.config.max_connections ==> state.too_many().len()
            == state.connections.members.len() - state.config.max_connections,
        state.evicted().connections.members.contains(c) <==> state.connections.members.contains(c)
            && !state.too_many().contains(c.id),
        state.evicted().connections.cursor == state.connections.cursor,
        (AccountState { connections: state.connections, ..state.evicted() }) == state,
{
    pool::law_who_goes(
        state.connections.members,
        state.config.max_connections as int,
        0,
    );
    pool::law_who_stays(state.connections.members, 0, state.too_many(), c);
}

/// What a configuration changes: the limit if it is one and another, the rate if the number or the
/// window is another, and nothing else about the account.
pub proof fn law_configured(state: AccountState, config: AccountConfig)
    ensures
        state.configured(config).config == config,
        (AccountState { config: state.config, ..state.configured(config) }) == state,
        state.limit_changes(config) <==> config.max_connections != 0 && config.max_connections
            != state.config.max_connections,
        !state.rate_changes(config) <==> config.max_qps == state.config.max_qps
            && config.window_size_ms == state.config.window_size_ms,
{
}

/// An account is found at the first place where its name stands, and nowhere if it stands nowhere.
pub proof fn law_found(accounts: Seq<AccountState>, name: Seq<char>, i: int)
    requires
        0 <= i <= accounts.len(),
        forall|j: int| 0 <= j < i ==> #[trigger] accounts[j].account != name,
    ensures
        i < accounts.len() && accounts[i].account == name ==> find(accounts, name) == Some(i),
        i == accounts.len() ==> find(accounts, name) is None,
    decreases accounts.len(),
{
    if i > 0 {
        assert(accounts[0].account != name);
        assert forall|j: int| 0 <= j < i - 1 implies #[trigger] accounts.skip(1)[j].account
            != name by {
            assert(accounts.skip(1)[j] == accounts[j + 1]);
        }
        law_found(accounts.skip(1), name, i - 1);
    }
}

/// Setting up an account that is there changes nothing, and one that is not comes last, with the
/// configuration for new ones. Removing one takes it out and leaves the others in their order.
pub proof fn law_set_up_and_removed(state: AccountsState, name: Seq<char>, i: int)
    requires
        0 <= i <= state.accounts.len(),
        forall|j: int| 0 <= j < i ==> #[trigger] state.accounts[j].account != name,
    ensures
        i < state.accounts.len() && state.accounts[i].account == name ==> state.ensured(name)
            == state && state.dropped(name).accounts == state.accounts.subrange(0, i)
            + state.accounts.subrange(i + 1, state.accounts.len() as int),
        i == state.accounts.len() ==> state.dropped(name) == state && state.ensured(
            name,
        ).accounts.len() == i + 1 && state.ensured(name).accounts.subrange(0, i) == state.accounts
            && state.ensured(name).accounts[i].account == name && state.ensured(
            name,
        ).accounts[i].config == state.default_config && state.ensured(
            name,
        ).accounts[i].connections.members.len() == 0,
        state.ensured(name).default_config == state.default_config,
        state.ensured(name).config == state.config,
        state.dropped(name).default_config == state.default_config,
        state.dropped(name).config == state.config,
{
    law_found(state.accounts, name, i);
    if i < state.accounts.len() && state.accounts[i].account == name {
        assert(state.accounts.remove(i) =~= state.accounts.subrange(0, i)
            + state.accounts.subrange(i + 1, state.accounts.len() as int));
    }
    if i == state.accounts.len() {
        assert(state.ensured(name).accounts.subrange(0, i) =~= state.accounts);
    }
}

/// A change to one account leaves the others as they are.
pub proof fn law_one_at_a_time(state: AccountsState, at: int, account: AccountState, i: int)
    requires
        0 <= at < state.accounts.len(),
        0 <= i < state.accounts.len(),
    ensures
        state.with(at, account).accounts.len() == state.accounts.len(),
        state.with(at, account).accounts[at] == account,
        i != at ==> state.with(at, account).accounts[i] == state.accounts[i],
        state.with(at, account).default_config == state.default_config,
        state.with(at, account).config == state.config,
{
}

/// Which connections look dead: those in use that were silent for longer than they may be, each
/// with its account's name.
pub proof fn law_who_looks_dead(
    account: AccountState,
    now: u128,
    timeout: u128,
    c: ConnectionState,
)
    requires
        account.connections.members.contains(c),
    ensures
        c.ready && now > c.last_active + timeout ==> dead_of(account, now, timeout).contains(
            (c.id, account.account),
        ),
        forall|i: int|
            0 <= i < dead_of(account, now, timeout).len() ==> (#[trigger] dead_of(
                account,
                now,
                timeout,
            )[i]).1 == account.account,
        (forall|d: ConnectionState|
            account.connections.members.contains(d) ==> !d.ready || now <= d.last_active
                + timeout) ==> dead_of(account, now, timeout).len() == 0,
{
    let late = |c: ConnectionState| c.ready && now - c.last_active > timeout;
    let found = account.connections.members.filter(late);
    if late(c) {
        pool::lemma_kept(account.connections.members, late, c);
        let k = found.index_of(c);
        assert(dead_of(account, now, timeout)[k] == (c.id, account.account));
    }
    if found.len() > 0 {
        pool::lemma_kept(account.connections.members, late, found[0]);
    }
}

/// What looks dead over several accounts, and what is on its way over them, is counted account by
/// account, in order.
pub proof fn law_account_by_account(
    accounts: Seq<AccountState>,
    account: AccountState,
    now: u128,
    timeout: u128,
)
    ensures
        dead(Seq::empty(), now, timeout).len() == 0,
        dead(accounts.push(account), now, timeout) == dead(accounts, now, timeout) + dead_of(
            account,
            now,
            timeout,
        ),
        inflight_sum(Seq::empty()) == 0,
        inflight_sum(accounts.push(account)) == inflight_sum(accounts) + account.inflight,
{
    assert(accounts.push(account).drop_last() =~= accounts);
}

} // verus!
