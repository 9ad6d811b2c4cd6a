//! Connections side by side: which of them is used next, and which has to go.

use crate::error::RsmsError;
use crate::session::SessionState;
use vstd::prelude::*;

verus! {

/// What a pool knows of a connection.
#[derive(Debug, Clone, Copy, PartialEq, Eq, Structural)]
pub struct ConnectionState {
    pub id: u64,
    /// Whether it is in use.
    pub ready: bool,
    pub session: SessionState,
    /// When something last went over it, in nanoseconds.
    pub last_active: u128,
}

/// Whether messages can go over a connection: it is in use, and somebody has logged in.
pub open spec fn usable(c: ConnectionState) -> bool {
    c.ready && c.session == SessionState::Logined
}

impl ConnectionState {
    pub fn is_usable(&self) -> (yes: bool)
        ensures
            yes == usable(*self),
    {
        self.ready && self.session == SessionState::Logined
    }
}

/// The first usable connection from the `i`-th behind `start` on, round and round.
pub open spec fn next_usable(members: Seq<ConnectionState>, start: int, i: int) -> Option<
    ConnectionState,
>
    decreases members.len() - i,
{
    if i < 0 || i >= members.len() {
        None
    } else if usable(members[(start + i) % (members.len() as int)]) {
        Some(members[(start + i) % (members.len() as int)])
    } else {
        next_usable(members, start, i + 1)
    }
}

/// Where a connection stands, if it is there.
pub open spec fn position(members: Seq<ConnectionState>, id: u64) -> Option<int>
    decreases members.len(),
{
    if members.len() == 0 {
        None
    } else if members[0].id == id {
        Some(0)
    } else {
        match position(members.skip(1), id) {
            Some(at) => Some(at + 1),
            None => None,
        }
    }
}

/// The connections but those with an id.
pub open spec fn without(members: Seq<ConnectionState>, id: u64) -> Seq<ConnectionState> {
    members.filter(|c: ConnectionState| c.id != id)
}

/// The connections but those with one of the ids.
pub open spec fn without_all(members: Seq<ConnectionState>, ids: Seq<u64>) -> Seq<
    ConnectionState,
> {
    members.filter(|c: ConnectionState| !ids.contains(c.id))
}

/// The connections, with what is known of one of them now.
pub open spec fn refreshed(members: Seq<ConnectionState>, state: ConnectionState) -> Seq<
    ConnectionState,
> {
    members.map_values(
        |c: ConnectionState|
            if c.id == state.id {
                state
            } else {
                c
            },
    )
}

/// Whether no two connections have the same id.
pub open spec fn distinct(members: Seq<ConnectionState>) -> bool {
    forall|i: int, j: int|
        0 <= i < j < members.len() ==> #[trigger] members[i].id != #[trigger] members[j].id
}

/// An order of connections.
#[derive(Debug, Clone, Copy, PartialEq, Eq, Structural)]
pub enum ConnectionOrder {
    /// Those that are not in use first, and among equals the one that was active last.
    Eviction,
    /// The one that was active last first.
    Activity,
}

/// Whether one connection comes before another.
pub open spec fn precedes(order: ConnectionOrder, a: ConnectionState, b: ConnectionState) -> bool {
    match order {
        ConnectionOrder::Eviction => if a.ready != b.ready {
            !a.ready
        } else {
            a.last_active > b.last_active
        },
        ConnectionOrder::Activity => a.last_active > b.last_active,
    }
}

/// An ordered sequence with one more connection, behind those that it does not come before.
pub open spec fn placed(
    order: ConnectionOrder,
    sorted: Seq<ConnectionState>,
    c: ConnectionState,
) -> Seq<ConnectionState>
    decreases sorted.len(),
{
    if sorted.len() > 0 && precedes(order, c, sorted.last()) {
        placed(order, sorted.drop_last(), c).push(sorted.last())
    } else {
        sorted.push(c)
    }
}

/// The connections in order; those that are equal stay as they are.
pub open spec fn ordered(order: ConnectionOrder, members: Seq<ConnectionState>) -> Seq<
    ConnectionState,
>
    decreases members.len(),
{
    if members.len() == 0 {
        Seq::empty()
    } else {
        placed(order, ordered(order, members.drop_last()), members.last())
    }
}

/// The ids of connections.
pub open spec fn ids(members: Seq<ConnectionState>) -> Seq<u64> {
    members.map_values(|c: ConnectionState| c.id)
}

fn comes_before(order: ConnectionOrder, a: &ConnectionState, b: &ConnectionState) -> (yes: bool)
    ensures
        yes == precedes(order, *a, *b),
{
    match order {
        ConnectionOrder::Eviction => if a.ready != b.ready {
            !a.ready
        } else {
            a.last_active > b.last_active
        },
        ConnectionOrder::Activity => a.last_active > b.last_active,
    }
}

proof fn lemma_placed_at(
    order: ConnectionOrder,
    sorted: Seq<ConnectionState>,
    c: ConnectionState,
    at: int,
)
    requires
        0 <= at <= sorted.len(),
        forall|j: int| at <= j < sorted.len() ==> precedes(order, c, #[trigger] sorted[j]),
        at > 0 ==> !precedes(order, c, sorted[at - 1]),
    ensures
        placed(order, sorted, c) == sorted.insert(at, c),
    decreases sorted.len() - at,
{
    if at < sorted.len() {
        lemma_placed_at(order, sorted.drop_last(), c, at);
        assert(precedes(order, c, sorted[sorted.len() - 1]));
        assert(sorted.drop_last().insert(at, c).push(sorted.last()) =~= sorted.insert(at, c));
    } else {
        assert(sorted.push(c) =~= sorted.insert(at, c));
    }
}

/// The connections in order; those that are equal stay as they are.
pub fn sort(order: ConnectionOrder, members: &Vec<ConnectionState>) -> (sorted: Vec<
    ConnectionState,
>)
    ensures
        sorted@ == ordered(order, members@),
{
    let mut sorted: Vec<ConnectionState> = Vec::new();
    let mut i: usize = 0;
    assert(sorted@ =~= ordered(order, members@.take(0)));
    while i < members.len()
        invariant
            i <= members@.len(),
            sorted@ == ordered(order, members@.take(i as int)),
        decreases members@.len() - i,
    {
        let c = members[i];
        let mut at: usize = sorted.len();
        while at > 0 && comes_before(order, &c, &sorted[at - 1])
            invariant
                at <= sorted@.len(),
                forall|j: int| at <= j < sorted@.len() ==> precedes(order, c, #[trigger] sorted@[j]),
            decreases at,
        {
            at = at - 1;
        }
        proof {
            lemma_placed_at(order, sorted@, c, at as int);
            assert(members@.take(i + 1).drop_last() =~= members@.take(i as int));
        }
        sorted.insert(at, c);
        i = i + 1;
    }
    assert(members@.take(i as int) =~= members@);
    sorted
}

/// Whether an id is among others.
pub(crate) fn holds_id(all: &Vec<u64>, id: u64) -> (yes: bool)
    ensures
        yes == all@.contains(id),
{
    let mut i: usize = 0;
    while i < all.len()
        invariant
            i <= all@.len(),
            forall|j: int| 0 <= j < i ==> all@[j] != id,
        decreases all@.len() - i,
    {
        if all[i] == id {
            assert(all@.contains(id));
            return true;
        }
        i = i + 1;
    }
    false
}

/// Connections that are used in turn.
#[derive(Debug)]
pub struct ConnectionPool {
    members: Vec<ConnectionState>,
    cursor: usize,
}

/// Connections that are used in turn, as a mathematical value. `cursor` counts the turns.
#[verifier::ext_equal]
pub struct PoolState {
    pub members: Seq<ConnectionState>,
    pub cursor: usize,
}

impl View for ConnectionPool {
    type V = PoolState;

    closed spec fn view(&self) -> PoolState {
        PoolState { members: self.members@, cursor: self.cursor }
    }
}

impl PoolState {
    /// The connection whose turn it is: the first usable one from the cursor on.
    pub open spec fn pick(self) -> Option<ConnectionState> {
        next_usable(self.members, self.cursor as int, 0)
    }

    /// After a turn. Without connections it is nobody's turn.
    pub open spec fn turned(self) -> PoolState {
        if self.members.len() == 0 {
            self
        } else {
            PoolState {
                members: self.members,
                cursor: if self.cursor == usize::MAX {
                    0
                } else {
                    (self.cursor + 1) as usize
                },
            }
        }
    }
}

impl ConnectionPool {
    pub fn new() -> (pool: Self)
        ensures
            pool@ == (PoolState { members: Seq::empty(), cursor: 0 }),
    {
        ConnectionPool { members: Vec::new(), cursor: 0 }
    }

    pub fn add(&mut self, c: ConnectionState)
        ensures
            final(self)@ == (PoolState { members: old(self)@.members.push(c), ..old(self)@ }),
    {
        self.members.push(c);
    }

    /// Removes the connection with an id.
    pub fn remove(&mut self, id: u64)
        ensures
            final(self)@ == (PoolState { members: without(old(self)@.members, id), ..old(self)@ }),
    {
        let mut ids: Vec<u64> = Vec::new();
        ids.push(id);
        self.remove_all(&ids);
        proof {
            let members = old(self)@.members;
            assert(ids@ =~= seq![id]);
            assert(ids@[0] == id);
            assert forall|c: ConnectionState| ids@.contains(c.id) == (c.id == id) by {
            }
            lemma_same_filter(
                members,
                |c: ConnectionState| !ids@.contains(c.id),
                |c: ConnectionState| c.id != id,
            );
        }
    }

    /// Removes the connections with one of the ids.
    pub fn remove_all(&mut self, ids: &Vec<u64>)
        ensures
            final(self)@ == (PoolState {
                members: without_all(old(self)@.members, ids@),
                ..old(self)@
            }),
    {
        let mut kept: Vec<ConnectionState> = Vec::new();
        let mut i: usize = 0;
        let ghost stays = |c: ConnectionState| !ids@.contains(c.id);
        assert(kept@ =~= self.members@.take(0).filter(stays)) by {
            reveal(Seq::filter);
        }
        while i < self.members.len()
            invariant
                i <= self.members@.len(),
                stays == (|c: ConnectionState| !ids@.contains(c.id)),
                self@ == old(self)@,
                kept@ == self.members@.take(i as int).filter(stays),
            decreases self.members@.len() - i,
        {
            let c = self.members[i];
            proof {
                reveal(Seq::filter);
                assert(self.members@.take(i + 1).drop_last() =~= self.members@.take(i as int));
            }
            if !holds_id(ids, c.id) {
                kept.push(c);
            }
            i = i + 1;
        }
        assert(self.members@.take(i as int) =~= self.members@);
        self.members = kept;
    }

    /// Notes what is known of a connection now.
    pub fn refresh(&mut self, state: ConnectionState)
        ensures
            final(self)@ == (PoolState { members: refreshed(old(self)@.members, state), ..old(
                self,
            )@ }),
    {
        let mut i: usize = 0;
        let ghost before = self.members@;
        while i < self.members.len()
            invariant
                i <= before.len(),
                self.members@.len() == before.len(),
                self.cursor == old(self).cursor,
                self.members@ =~= refreshed(before.take(i as int), state) + before.skip(i as int),
            decreases before.len() - i,
        {
            if self.members[i].id == state.id {
                self.members.set(i, state);
            }
            i = i + 1;
        }
        assert(before.take(i as int) =~= before);
        assert(self.members@ =~= refreshed(before, state));
    }

    /// The connection with an id.
    pub fn get(&self, id: u64) -> (c: Option<ConnectionState>)
        ensures
            match position(self@.members, id) {
                Some(at) => 0 <= at < self@.members.len() && c == Some(self@.members[at]),
                None => c is None,
            },
    {
        let mut i: usize = 0;
        assert(self.members@.skip(0) =~= self.members@);
        while i < self.members.len()
            invariant
                i <= self.members@.len(),
                position(self.members@, id) == (match position(self.members@.skip(i as int), id) {
                    Some(at) => Some(at + i),
                    None => None,
                }),
            decreases self.members@.len() - i,
        {
            if self.members[i].id == id {
                return Some(self.members[i]);
            }
            assert(self.members@.skip(i as int).skip(1) =~= self.members@.skip(i + 1));
            i = i + 1;
        }
        None
    }

    /// The connection that came first.
    pub fn first(&self) -> (c: Option<ConnectionState>)
        ensures
            c == (if self@.members.len() == 0 {
                None
            } else {
                Some(self@.members[0])
            }),
    {
        if self.members.len() == 0 {
            None
        } else {
            Some(self.members[0])
        }
    }

    pub fn len(&self) -> (len: usize)
        ensures
            len == self@.members.len(),
    {
        self.members.len()
    }

    pub fn is_empty(&self) -> (empty: bool)
        ensures
            empty == (self@.members.len() == 0),
    {
        self.members.len() == 0
    }

    /// All connections.
    pub fn all(&self) -> (all: Vec<ConnectionState>)
        ensures
            all@ == self@.members,
    {
        let mut all: Vec<ConnectionState> = Vec::new();
        let mut i: usize = 0;
        while i < self.members.len()
            invariant
                i <= self.members@.len(),
                all@ == self.members@.take(i as int),
            decreases self.members@.len() - i,
        {
            all.push(self.members[i]);
            assert(self.members@.take(i + 1) =~= self.members@.take(i as int).push(
                self.members@[i as int],
            ));
            i = i + 1;
        }
        assert(self.members@.take(i as int) =~= self.members@);
        all
    }

    /// The connection whose turn it is: from turn to turn the search starts one further on.
    pub fn fetch(&mut self) -> (res: Result<ConnectionState, RsmsError>)
        ensures
            final(self)@ == old(self)@.turned(),
            match old(self)@.pick() {
                Some(c) => res matches Ok(found) && found == c,
                None => res matches Err(RsmsError::NoReadyConnection),
            },
    {
        let n: usize = self.members.len();
        if n == 0 {
            return Err(RsmsError::NoReadyConnection);
        }
        let start: usize = self.cursor;
        self.cursor = if start == usize::MAX { 0 } else { start + 1 };
        let mut at: usize = start % n;
        let mut i: usize = 0;
        while i < n
            invariant
                i <= n,
                n == self.members@.len(),
                0 < n,
                self.members@ == old(self)@.members,
                self@ == old(self)@.turned(),
                start == old(self)@.cursor,
                i < n ==> at == (start + i) % (n as int),
                next_usable(self.members@, start as int, i as int) == old(self)@.pick(),
            decreases n - i,
        {
            if self.members[at].is_usable() {
                return Ok(self.members[at]);
            }
            proof {
                lemma_step(start as int, i as int, n as int);
            }
            at = if at + 1 == n { 0 } else { at + 1 };
            i = i + 1;
        }
        Err(RsmsError::NoReadyConnection)
    }

    /// The ids of the connections that have to go so that `max` are left: those not in use
    /// first, then those that were active last.
    pub fn excess(&self, max: usize) -> (gone: Vec<u64>)
        ensures
            gone@ == excess_ids(self@.members, max as int),
    {
        let mut gone: Vec<u64> = Vec::new();
        if self.members.len() <= max {
            return gone;
        }
        let excess: usize = self.members.len() - max;
        let sorted = sort(ConnectionOrder::Eviction, &self.members);
        proof {
            lemma_ordered_len(ConnectionOrder::Eviction, self.members@);
        }
        let mut i: usize = 0;
        while i < excess
            invariant
                i <= excess <= sorted@.len(),
                gone@ == ids(sorted@.take(i as int)),
            decreases excess - i,
        {
            gone.push(sorted[i].id);
            assert(ids(sorted@.take(i + 1)) =~= ids(sorted@.take(i as int)).push(
                sorted@[i as int].id,
            ));
            i = i + 1;
        }
        gone
    }

    /// The connections that were active last, at most `count` of them.
    pub fn most_recent(&self, count: usize) -> (found: Vec<ConnectionState>)
        ensures
            found@ == recent(self@.members, count as int),
    {
        let mut sorted = sort(ConnectionOrder::Activity, &self.members);
        proof {
            lemma_ordered_len(ConnectionOrder::Activity, self.members@);
        }
        let n: usize = if count < sorted.len() { count } else { sorted.len() };
        sorted.truncate(n);
        assert(sorted@ =~= ordered(ConnectionOrder::Activity, self.members@).take(n as int));
        sorted
    }
}

impl Default for ConnectionPool {
    fn default() -> (pool: Self)
        ensures
            pool@ == (PoolState { members: Seq::empty(), cursor: 0 }),
    {
        Self::new()
    }
}

/// The ids of the connections that have to go so that `max` are left.
pub open spec fn excess_ids(members: Seq<ConnectionState>, max: int) -> Seq<u64> {
    if members.len() <= max {
        Seq::empty()
    } else {
        ids(ordered(ConnectionOrder::Eviction, members).take(members.len() - max))
    }
}

/// The connections that were active last, at most `count` of them.
pub open spec fn recent(members: Seq<ConnectionState>, count: int) -> Seq<ConnectionState> {
    ordered(ConnectionOrder::Activity, members).take(
        if count < members.len() {
            count
        } else {
            members.len() as int
        },
    )
}

proof fn lemma_step(start: int, i: int, n: int)
    requires
        0 <= start,
        0 <= i < n,
    ensures
        (start + i + 1) % n == (if (start + i) % n + 1 == n {
            0
        } else {
            (start + i) % n + 1
        }),
{
    let a = start + i;
    vstd::arithmetic::div_mod::lemma_fundamental_div_mod(a, n);
    let q = a / n;
    let r = a % n;
    assert(a == n * q + r);
    assert(0 <= r < n) by {
        vstd::arithmetic::div_mod::lemma_mod_bound(a, n);
    }
    if r + 1 == n {
        assert(a + 1 == (q + 1) * n + 0) by (nonlinear_arith)
            requires
                a == n * q + r,
                r + 1 == n,
        ;
        vstd::arithmetic::div_mod::lemma_fundamental_div_mod_converse(a + 1, n, q + 1, 0);
    } else {
        assert(a + 1 == q * n + (r + 1)) by (nonlinear_arith)
            requires
                a == n * q + r,
        ;
        vstd::arithmetic::div_mod::lemma_fundamental_div_mod_converse(a + 1, n, q, r + 1);
    }
}

proof fn lemma_same_filter(
    members: Seq<ConnectionState>,
    p: spec_fn(ConnectionState) -> bool,
    q: spec_fn(ConnectionState) -> bool,
)
    requires
        forall|c: ConnectionState| #[trigger] p(c) == q(c),
    ensures
        members.filter(p) == members.filter(q),
    decreases members.len(),
{
    reveal(Seq::filter);
    if members.len() > 0 {
        lemma_same_filter(members.drop_last(), p, q);
        assert(p(members.last()) == q(members.last()));
    }
}

proof fn lemma_placed_len(order: ConnectionOrder, sorted: Seq<ConnectionState>, c: ConnectionState)
    ensures
        placed(order, sorted, c).len() == sorted.len() + 1,
    decreases sorted.len(),
{
    if sorted.len() > 0 && precedes(order, c, sorted.last()) {
        lemma_placed_len(order, sorted.drop_last(), c);
    }
}

pub(crate) proof fn lemma_ordered_len(order: ConnectionOrder, members: Seq<ConnectionState>)
    ensures
        ordered(order, members).len() == members.len(),
    decreases members.len(),
{
    if members.len() > 0 {
        lemma_ordered_len(order, members.drop_last());
        lemma_placed_len(order, ordered(order, members.drop_last()), members.last());
    }
}

/// A turn finds a usable connection if there is one, and never any other.
pub proof fn law_turn_finds_usable(state: PoolState)
    ensures
        state.pick() matches Some(c) ==> usable(c) && state.members.contains(c),
        state.pick() is None ==> forall|i: int|
            0 <= i < state.members.len() ==> !usable(#[trigger] state.members[i]),
{
    let n = state.members.len() as int;
    let start = state.cursor as int;
    if n > 0 {
        lemma_next_usable(state.members, start, 0);
        if state.pick() is None {
            assert forall|i: int| 0 <= i < n implies !usable(#[trigger] state.members[i]) by {
                let k = (i - start) % n;
                vstd::arithmetic::div_mod::lemma_mod_bound(i - start, n);
                assert((start + k) % n == i) by {
                    vstd::arithmetic::div_mod::lemma_add_mod_noop_right(start, i - start, n);
                    vstd::arithmetic::div_mod::lemma_small_mod(i as nat, n as nat);
                }
                assert(!usable(state.members[(start + k) % n]));
            }
        }
    }
}

proof fn lemma_next_usable(members: Seq<ConnectionState>, start: int, i: int)
    requires
        0 <= i <= members.len(),
        0 <= start,
        members.len() > 0,
    ensures
        next_usable(members, start, i) matches Some(c) ==> usable(c) && members.contains(c),
        next_usable(members, start, i) is None ==> forall|k: int|
            i <= k < members.len() ==> !usable(
                #[trigger] members[(start + k) % (members.len() as int)],
            ),
    decreases members.len() - i,
{
    if i < members.len() {
        let n = members.len() as int;
        vstd::arithmetic::div_mod::lemma_mod_bound(start + i, n);
        if usable(members[(start + i) % n]) {
            assert(members.contains(members[(start + i) % n]));
        } else {
            lemma_next_usable(members, start, i + 1);
        }
    }
}

/// The state after `n` turns.
pub open spec fn after_turns(state: PoolState, n: nat) -> PoolState
    decreases n,
{
    if n == 0 {
        state
    } else {
        after_turns(state, (n - 1) as nat).turned()
    }
}

/// Usable connections are used in turn: the n-th turn is that of the connection n places behind
/// the cursor, so in as many turns as there are connections each is used once.
pub proof fn law_turns_are_fair(state: PoolState, n: nat)
    requires
        state.members.len() > 0,
        forall|i: int| 0 <= i < state.members.len() ==> usable(#[trigger] state.members[i]),
        state.cursor + n <= usize::MAX,
    ensures
        after_turns(state, n).members == state.members,
        after_turns(state, n).cursor == state.cursor + n,
        after_turns(state, n).pick() == Some(
            state.members[(state.cursor + n) % (state.members.len() as int)],
        ),
    decreases n,
{
    if n > 0 {
        law_turns_are_fair(state, (n - 1) as nat);
    }
    vstd::arithmetic::div_mod::lemma_mod_bound(
        (state.cursor + n) as int,
        state.members.len() as int,
    );
}

proof fn lemma_placed_multiset(
    order: ConnectionOrder,
    sorted: Seq<ConnectionState>,
    c: ConnectionState,
)
    ensures
        placed(order, sorted, c).to_multiset() == sorted.to_multiset().insert(c),
    decreases sorted.len(),
{
    broadcast use vstd::seq_lib::group_to_multiset_ensures;

    if sorted.len() > 0 && precedes(order, c, sorted.last()) {
        let front = sorted.drop_last();
        lemma_placed_multiset(order, front, c);
        assert(front.push(sorted.last()) =~= sorted);
        assert(placed(order, sorted, c).to_multiset() =~= front.to_multiset().insert(c).insert(
            sorted.last(),
        ));
        assert(sorted.to_multiset() =~= front.to_multiset().insert(sorted.last()));
        assert(placed(order, sorted, c).to_multiset() =~= sorted.to_multiset().insert(c));
    }
}

/// Whether no connection comes behind one that it precedes.
pub open spec fn in_order(order: ConnectionOrder, sorted: Seq<ConnectionState>) -> bool {
    forall|i: int, j: int|
        0 <= i < j < sorted.len() ==> !precedes(
            order,
            #[trigger] sorted[j],
            #[trigger] sorted[i],
        )
}

proof fn lemma_placed_in_order(
    order: ConnectionOrder,
    sorted: Seq<ConnectionState>,
    c: ConnectionState,
)
    requires
        in_order(order, sorted),
    ensures
        in_order(order, placed(order, sorted, c)),
        forall|i: int|
            0 <= i <= sorted.len() ==> #[trigger] placed(order, sorted, c)[i] == c
                || sorted.contains(placed(order, sorted, c)[i]),
    decreases sorted.len(),
{
    let all = placed(order, sorted, c);
    lemma_placed_len(order, sorted, c);
    if sorted.len() > 0 && precedes(order, c, sorted.last()) {
        let front = sorted.drop_last();
        let last = sorted.last();
        assert forall|i: int, j: int| 0 <= i < j < front.len() implies !precedes(
            order,
            #[trigger] front[j],
            #[trigger] front[i],
        ) by {
            assert(front[i] == sorted[i] && front[j] == sorted[j]);
        }
        lemma_placed_in_order(order, front, c);
        lemma_placed_len(order, front, c);
        let p = placed(order, front, c);
        assert(all =~= p.push(last));
        assert forall|i: int| 0 <= i <= sorted.len() implies #[trigger] all[i] == c
            || sorted.contains(all[i]) by {
            if i < sorted.len() {
                assert(all[i] == p[i]);
                if p[i] != c {
                    let k = choose|k: int| 0 <= k < front.len() && front[k] == p[i];
                    assert(sorted[k] == p[i]);
                }
            } else {
                assert(sorted[sorted.len() - 1] == last);
            }
        }
        assert forall|i: int, j: int| 0 <= i < j < all.len() implies !precedes(
            order,
            #[trigger] all[j],
            #[trigger] all[i],
        ) by {
            if j < p.len() {
                assert(all[i] == p[i] && all[j] == p[j]);
            } else {
                assert(all[j] == last && all[i] == p[i]);
                if p[i] != c {
                    assert(front.contains(p[i]));
                    let k = choose|k: int| 0 <= k < front.len() && front[k] == p[i];
                    assert(sorted[k] == p[i]);
                    assert(!precedes(order, sorted[sorted.len() - 1], sorted[k]));
                }
            }
        }
    } else {
        assert forall|i: int| 0 <= i <= sorted.len() implies #[trigger] all[i] == c
            || sorted.contains(all[i]) by {
            if i < sorted.len() {
                assert(all[i] == sorted[i]);
            }
        }
        assert forall|i: int, j: int| 0 <= i < j < all.len() implies !precedes(
            order,
            #[trigger] all[j],
            #[trigger] all[i],
        ) by {
            if j < sorted.len() {
                assert(all[i] == sorted[i] && all[j] == sorted[j]);
            } else {
                let last = sorted[sorted.len() - 1];
                assert(!precedes(order, c, last));
                assert(all[i] == sorted[i]);
                if i < sorted.len() - 1 {
                    assert(!precedes(order, last, sorted[i]));
                }
            }
        }
    }
}

/// Ordering connections loses none and adds none, and none comes behind one that it precedes.
pub proof fn law_ordered(order: ConnectionOrder, members: Seq<ConnectionState>)
    ensures
        ordered(order, members).to_multiset() == members.to_multiset(),
        in_order(order, ordered(order, members)),
    decreases members.len(),
{
    broadcast use vstd::seq_lib::group_to_multiset_ensures;

    if members.len() > 0 {
        let front = members.drop_last();
        law_ordered(order, front);
        lemma_placed_multiset(order, ordered(order, front), members.last());
        lemma_placed_in_order(order, ordered(order, front), members.last());
        assert(front.push(members.last()) =~= members);
    } else {
        assert(ordered(order, members) =~= members);
    }
}

proof fn lemma_placed_filter(
    order: ConnectionOrder,
    sorted: Seq<ConnectionState>,
    c: ConnectionState,
    p: spec_fn(ConnectionState) -> bool,
)
    ensures
        placed(order, sorted, c).filter(p).len() == sorted.filter(p).len() + if p(c) {
            1int
        } else {
            0int
        },
    decreases sorted.len(),
{
    reveal(Seq::filter);
    if sorted.len() > 0 && precedes(order, c, sorted.last()) {
        lemma_placed_filter(order, sorted.drop_last(), c, p);
        assert(placed(order, sorted, c).drop_last() =~= placed(order, sorted.drop_last(), c));
    } else {
        assert(placed(order, sorted, c).drop_last() =~= sorted);
    }
}

proof fn lemma_ordered_filter(
    order: ConnectionOrder,
    members: Seq<ConnectionState>,
    p: spec_fn(ConnectionState) -> bool,
)
    ensures
        ordered(order, members).filter(p).len() == members.filter(p).len(),
    decreases members.len(),
{
    reveal(Seq::filter);
    if members.len() > 0 {
        lemma_ordered_filter(order, members.drop_last(), p);
        lemma_placed_filter(order, ordered(order, members.drop_last()), members.last(), p);
    }
}

proof fn lemma_split_filter(
    sorted: Seq<ConnectionState>,
    n: int,
    p: spec_fn(ConnectionState) -> bool,
)
    requires
        0 <= n <= sorted.len(),
        forall|i: int| 0 <= i < n ==> !p(#[trigger] sorted[i]),
        forall|i: int| n <= i < sorted.len() ==> p(#[trigger] sorted[i]),
    ensures
        sorted.filter(p).len() == sorted.len() - n,
    decreases sorted.len(),
{
    reveal(Seq::filter);
    if sorted.len() > 0 {
        let front = sorted.drop_last();
        let m = if n < sorted.len() {
            n
        } else {
            n - 1
        };
        assert forall|i: int| 0 <= i < m implies !p(#[trigger] front[i]) by {
            assert(front[i] == sorted[i]);
        }
        assert forall|i: int| m <= i < front.len() implies p(#[trigger] front[i]) by {
            assert(front[i] == sorted[i]);
        }
        lemma_split_filter(front, m, p);
        assert(p(sorted[sorted.len() - 1]) == (n < sorted.len()));
    }
}

proof fn lemma_ordered_distinct(order: ConnectionOrder, members: Seq<ConnectionState>)
    requires
        distinct(members),
    ensures
        distinct(ordered(order, members)),
{
    law_ordered(order, members);
    lemma_ordered_len(order, members);
    let sorted = ordered(order, members);
    assert forall|i: int, j: int| 0 <= i < j < sorted.len() implies #[trigger] sorted[i].id
        != #[trigger] sorted[j].id by {
        if sorted[i].id == sorted[j].id {
            let p = |c: ConnectionState| c.id == sorted[i].id;
            lemma_ordered_filter(order, members, p);
            lemma_at_most_one(members, p, sorted[i].id);
            lemma_at_least_two(sorted, p, i, j);
        }
    }
}

proof fn lemma_at_most_one(
    members: Seq<ConnectionState>,
    p: spec_fn(ConnectionState) -> bool,
    id: u64,
)
    requires
        distinct(members),
        forall|c: ConnectionState| #[trigger] p(c) == (c.id == id),
    ensures
        members.filter(p).len() <= 1,
        (forall|i: int| 0 <= i < members.len() ==> #[trigger] members[i].id != id)
            ==> members.filter(p).len() == 0,
    decreases members.len(),
{
    reveal(Seq::filter);
    if members.len() > 0 {
        let front = members.drop_last();
        assert forall|i: int, j: int| 0 <= i < j < front.len() implies #[trigger] front[i].id
            != #[trigger] front[j].id by {
            assert(front[i] == members[i] && front[j] == members[j]);
        }
        lemma_at_most_one(front, p, id);
        assert(p(members.last()) == (members.last().id == id));
        if members.last().id == id {
            assert forall|i: int| 0 <= i < front.len() implies #[trigger] front[i].id != id by {
                assert(members[i].id != members[members.len() - 1].id);
            }
        }
        if forall|i: int| 0 <= i < members.len() ==> #[trigger] members[i].id != id {
            assert forall|i: int| 0 <= i < front.len() implies #[trigger] front[i].id != id by {
                assert(members[i].id != id);
            }
            assert(members[members.len() - 1].id != id);
        }
    }
}

proof fn lemma_at_least_two(
    members: Seq<ConnectionState>,
    p: spec_fn(ConnectionState) -> bool,
    i: int,
    j: int,
)
    requires
        0 <= i < members.len(),
        i <= j < members.len(),
        p(members[i]),
        p(members[j]),
    ensures
        members.filter(p).len() >= if i < j {
            2int
        } else {
            1int
        },
    decreases members.len(),
{
    reveal(Seq::filter);
    let front = members.drop_last();
    if j < members.len() - 1 {
        lemma_at_least_two(front, p, i, j);
    } else if i < j {
        lemma_at_least_two(front, p, i, i);
    }
}

/// Eviction leaves as many connections as there may be, and takes no more than it has to.
pub proof fn law_eviction_leaves_max(members: Seq<ConnectionState>, max: int)
    requires
        distinct(members),
        0 <= max,
    ensures
        without_all(members, excess_ids(members, max)).len() == (if members.len() <= max {
            members.len() as int
        } else {
            max
        }),
{
    let gone = excess_ids(members, max);
    let p = |c: ConnectionState| !gone.contains(c.id);
    if members.len() <= max {
        lemma_split_filter(members, 0, p);
    } else {
        let n = members.len() - max;
        let order = ConnectionOrder::Eviction;
        let sorted = ordered(order, members);
        lemma_ordered_len(order, members);
        lemma_ordered_distinct(order, members);
        assert forall|i: int| 0 <= i < n implies !p(#[trigger] sorted[i]) by {
            assert(gone[i] == sorted[i].id);
        }
        assert forall|i: int| n <= i < sorted.len() implies p(#[trigger] sorted[i]) by {
            if gone.contains(sorted[i].id) {
                let k = choose|k: int| 0 <= k < gone.len() && gone[k] == sorted[i].id;
                assert(sorted[k].id == sorted[i].id);
            }
        }
        lemma_split_filter(sorted, n, p);
        lemma_ordered_filter(order, members, p);
    }
}

/// A connection in use only has to go when all those not in use have to go too.
pub proof fn law_unused_go_first(members: Seq<ConnectionState>, max: int, i: int, j: int)
    requires
        0 <= max < members.len(),
        0 <= i < members.len() - max,
        members.len() - max <= j < members.len(),
        ordered(ConnectionOrder::Eviction, members)[i].ready,
    ensures
        ordered(ConnectionOrder::Eviction, members)[j].ready,
{
    let order = ConnectionOrder::Eviction;
    law_ordered(order, members);
    lemma_ordered_len(order, members);
    let sorted = ordered(order, members);
    assert(!precedes(order, sorted[j], sorted[i]));
}

/// Whether messages can go over a connection: only in use and logged in.
pub proof fn law_usable(c: ConnectionState)
    ensures
        usable(c) <==> c.ready && c.session == SessionState::Logined,
{
}

/// Whose turn it is: the `k`-th connection from the cursor on, round and round, if it is the first
/// one that can be used. The cursor goes on by one, and starts again at 0.
pub proof fn law_whose_turn(state: PoolState, k: int)
    requires
        0 <= k < state.members.len(),
        forall|i: int|
            0 <= i < k ==> !usable(
                #[trigger] state.members[(state.cursor + i) % (state.members.len() as int)],
            ),
        usable(state.members[(state.cursor + k) % (state.members.len() as int)]),
    ensures
        state.pick() == Some(state.members[(state.cursor + k) % (state.members.len() as int)]),
        state.turned().members == state.members,
        state.cursor < usize::MAX ==> state.turned().cursor == state.cursor + 1,
        state.cursor == usize::MAX ==> state.turned().cursor == 0,
{
    lemma_skips_unusable(state.members, state.cursor as int, 0, k);
}

proof fn lemma_skips_unusable(members: Seq<ConnectionState>, start: int, from: int, k: int)
    requires
        0 <= from <= k < members.len(),
        forall|i: int|
            from <= i < k ==> !usable(#[trigger] members[(start + i) % (members.len() as int)]),
        usable(members[(start + k) % (members.len() as int)]),
    ensures
        next_usable(members, start, from) == Some(members[(start + k) % (members.len() as int)]),
    decreases k - from,
{
    if from < k {
        lemma_skips_unusable(members, start, from + 1, k);
    }
}

/// Without connections there is no turn.
pub proof fn law_nobodys_turn(state: PoolState)
    requires
        state.members.len() == 0,
    ensures
        state.pick() is None,
        state.turned() == state,
{
}

/// A connection is found at the first place where its id stands, and nowhere if it stands nowhere.
pub proof fn law_position(members: Seq<ConnectionState>, id: u64, i: int)
    requires
        0 <= i <= members.len(),
        forall|j: int| 0 <= j < i ==> #[trigger] members[j].id != id,
    ensures
        i < members.len() && members[i].id == id ==> position(members, id) == Some(i),
        i == members.len() ==> position(members, id) is None,
    decreases members.len(),
{
    if i > 0 {
        assert(members[0].id != id);
        assert forall|j: int| 0 <= j < i - 1 implies #[trigger] members.skip(1)[j].id != id by {
            assert(members.skip(1)[j] == members[j + 1]);
        }
        law_position(members.skip(1), id, i - 1);
    }
}

/// Who stays: without an id, those with other ids, and without several, those with none of them.
pub proof fn law_who_stays(
    members: Seq<ConnectionState>,
    id: u64,
    gone: Seq<u64>,
    c: ConnectionState,
)
    ensures
        without(members, id).contains(c) <==> members.contains(c) && c.id != id,
        without_all(members, gone).contains(c) <==> members.contains(c) && !gone.contains(c.id),
{
    lemma_kept(members, |c: ConnectionState| c.id != id, c);
    lemma_kept(members, |c: ConnectionState| !gone.contains(c.id), c);
}

/// What a filter keeps.
pub(crate) proof fn lemma_kept<A>(s: Seq<A>, keep: spec_fn(A) -> bool, x: A)
    ensures
        s.filter(keep).contains(x) <==> s.contains(x) && keep(x),
{
    if s.contains(x) && keep(x) {
        let i = s.index_of(x);
        s.lemma_filter_contains(keep, i);
    }
    if s.filter(keep).contains(x) {
        let i = s.filter(keep).index_of(x);
        s.lemma_filter_pred(keep, i);
        s.lemma_filter_contains_rev(keep, x);
    }
}

/// What is known of a connection is noted where its id stands, and nowhere else.
pub proof fn law_refreshed(members: Seq<ConnectionState>, state: ConnectionState, i: int)
    requires
        0 <= i < members.len(),
    ensures
        refreshed(members, state).len() == members.len(),
        members[i].id == state.id ==> refreshed(members, state)[i] == state,
        members[i].id != state.id ==> refreshed(members, state)[i] == members[i],
{
}

/// What comes first: for eviction a connection that is not in use before one that is, and among
/// equals the one that was active last; otherwise the one that was active last.
pub proof fn law_precedes(a: ConnectionState, b: ConnectionState)
    ensures
        !a.ready && b.ready ==> precedes(ConnectionOrder::Eviction, a, b),
        a.ready && !b.ready ==> !precedes(ConnectionOrder::Eviction, a, b),
        a.ready == b.ready ==> (precedes(ConnectionOrder::Eviction, a, b) <==> a.last_active
            > b.last_active),
        precedes(ConnectionOrder::Activity, a, b) <==> a.last_active > b.last_active,
{
}

/// A connection that comes before none of those in front of it stays behind all of them, so equal
/// ones stay as they are.
pub proof fn law_order_is_stable(
    order: ConnectionOrder,
    members: Seq<ConnectionState>,
    c: ConnectionState,
)
    requires
        forall|i: int| 0 <= i < members.len() ==> !precedes(order, c, #[trigger] members[i]),
    ensures
        ordered(order, members.push(c)) == ordered(order, members).push(c),
{
    let sorted = ordered(order, members);
    assert(members.push(c).drop_last() =~= members);
    if sorted.len() > 0 {
        law_ordered(order, members);
        sorted.to_multiset_ensures();
        members.to_multiset_ensures();
        assert(sorted.contains(sorted.last()));
        assert(members.to_multiset().count(sorted.last()) > 0);
        assert(members.contains(sorted.last()));
        let i = members.index_of(sorted.last());
        assert(!precedes(order, c, members[i]));
    }
}

/// How many go, and which: so many that `max` are left, the first ones in the order of eviction.
pub proof fn law_who_goes(members: Seq<ConnectionState>, max: int, i: int)
    requires
        0 <= max,
    ensures
        members.len() <= max ==> excess_ids(members, max).len() == 0,
        members.len() > max ==> excess_ids(members, max).len() == members.len() - max && (0 <= i
            < members.len() - max ==> excess_ids(members, max)[i] == ordered(
            ConnectionOrder::Eviction,
            members,
        )[i].id),
{
    lemma_ordered_len(ConnectionOrder::Eviction, members);
}

/// Which connections were active last: at most as many as are asked for, none active before the
/// one behind it.
pub proof fn law_who_was_active(members: Seq<ConnectionState>, count: int, i: int)
    requires
        0 <= count,
    ensures
        count <= members.len() ==> recent(members, count).len() == count,
        count > members.len() ==> recent(members, count).len() == members.len(),
        0 <= i < recent(members, count).len() ==> recent(members, count)[i] == ordered(
            ConnectionOrder::Activity,
            members,
        )[i],
        0 < i < recent(members, count).len() ==> recent(members, count)[i - 1].last_active
            >= recent(members, count)[i].last_active,
{
    lemma_ordered_len(ConnectionOrder::Activity, members);
    law_ordered(ConnectionOrder::Activity, members);
}

} // verus!
