//! A client's connections to one endpoint: how many there are, and how many there should be.

use crate::connector::client::ConnectionEvent;
use vstd::prelude::*;

verus! {

/// The connections of a client, by their ids, the oldest first.
#[derive(Debug)]
pub struct ClientPool {
    connections: Vec<u64>,
    max_channels: u16,
}

/// The connections of a client as a mathematical value.
#[verifier::ext_equal]
pub struct ClientPoolState {
    pub connections: Seq<u64>,
    pub max_channels: u16,
}

impl View for ClientPool {
    type V = ClientPoolState;

    closed spec fn view(&self) -> ClientPoolState {
        ClientPoolState { connections: self.connections@, max_channels: self.max_channels }
    }
}

/// Without the first connection that has the id.
pub open spec fn removed(connections: Seq<u64>, id: u64) -> Seq<u64>
    decreases connections.len(),
{
    if connections.len() == 0 {
        connections
    } else if connections[0] == id {
        connections.skip(1)
    } else {
        seq![connections[0]] + removed(connections.skip(1), id)
    }
}

/// What to do so that there are as many connections as there should be.
#[derive(Debug)]
pub enum Adjustment {
    Nothing,
    /// Open that many.
    Open(usize),
    /// Close these; they are no longer in the pool.
    Close(Vec<u64>),
}

impl ClientPool {
    pub fn new(max_channels: u16) -> (pool: Self)
        ensures
            pool@ == (ClientPoolState { connections: Seq::empty(), max_channels }),
    {
        ClientPool { connections: Vec::new(), max_channels }
    }

    /// How many connections to open at the start.
    pub fn start(&self) -> (count: usize)
        ensures
            count == self@.max_channels,
    {
        self.max_channels as usize
    }

    pub fn max_channels(&self) -> (max: u16)
        ensures
            max == self@.max_channels,
    {
        self.max_channels
    }

    pub fn set_max_channels(&mut self, n: u16)
        ensures
            final(self)@ == (ClientPoolState { max_channels: n, ..old(self)@ }),
    {
        self.max_channels = n;
    }

    pub fn add_connection(&mut self, id: u64)
        ensures
            final(self)@ == (ClientPoolState {
                connections: old(self)@.connections.push(id),
                ..old(self)@
            }),
    {
        self.connections.push(id);
    }

    /// Removes a connection, and tells whether it was there.
    pub fn remove_connection(&mut self, id: u64) -> (found: bool)
        ensures
            found == old(self)@.connections.contains(id),
            final(self)@ == (ClientPoolState {
                connections: removed(old(self)@.connections, id),
                ..old(self)@
            }),
    {
        let ghost all = self.connections@;
        let mut i: usize = 0;
        assert(all.skip(0) =~= all);
        assert(all.take(0) + removed(all, id) =~= removed(all, id));
        while i < self.connections.len()
            invariant
                i <= all.len(),
                self.connections@ == all,
                self@ == old(self)@,
                forall|j: int| 0 <= j < i ==> all[j] != id,
                removed(all, id) == all.take(i as int) + removed(all.skip(i as int), id),
            decreases all.len() - i,
        {
            let ghost here = all.skip(i as int);
            if self.connections[i] == id {
                let gone = self.connections.remove(i);
                assert(here.skip(1) =~= all.skip(i + 1));
                assert(self.connections@ =~= all.take(i as int) + all.skip(i + 1));
                assert(all.contains(id));
                return true;
            }
            assert(here.skip(1) =~= all.skip(i + 1));
            assert(all.take(i + 1) + removed(all.skip(i + 1), id) =~= all.take(i as int) + (seq![
                all[i as int],
            ] + removed(all.skip(i + 1), id)));
            i = i + 1;
        }
        assert(removed(all, id) =~= all);
        false
    }

    pub fn connection_count(&self) -> (count: usize)
        ensures
            count == self@.connections.len(),
    {
        self.connections.len()
    }

    /// All connections, the oldest first.
    pub fn get_connections(&self) -> (ids: Vec<u64>)
        ensures
            ids@ == self@.connections,
    {
        let mut ids: Vec<u64> = Vec::new();
        ids.extend_from_slice(self.connections.as_slice());
        assert(ids@ =~= self.connections@);
        ids
    }

    /// Brings the pool to its size: too few connections are filled up, and of too many the
    /// oldest go.
    pub fn adjust_connections(&mut self) -> (step: Adjustment)
        ensures
            ({
                let current = old(self)@.connections.len() as int;
                let max = old(self)@.max_channels as int;
                if current < max {
                    (step matches Adjustment::Open(n) && n == max - current) && final(self)@
                        == old(self)@
                } else if current > max {
                    (step matches Adjustment::Close(ids) && ids@ == old(self)@.connections.take(
                        current - max,
                    )) && final(self)@ == (ClientPoolState {
                        connections: old(self)@.connections.skip(current - max),
                        ..old(self)@
                    })
                } else {
                    step is Nothing && final(self)@ == old(self)@
                }
            }),
    {
        let current: usize = self.connections.len();
        let max: usize = self.max_channels as usize;
        if current < max {
            Adjustment::Open(max - current)
        } else if current > max {
            let ghost all = self.connections@;
            let kept = self.connections.split_off(current - max);
            let mut gone = kept;
            std::mem::swap(&mut gone, &mut self.connections);
            assert(gone@ =~= all.take(current - max));
            assert(self.connections@ =~= all.skip(current - max));
            Adjustment::Close(gone)
        } else {
            Adjustment::Nothing
        }
    }

    /// A connection that is gone leaves the pool; the id is that of the connection that the
    /// application is told of.
    pub fn on_connection_event(&mut self, event: ConnectionEvent) -> (id: u64)
        ensures
            event == ConnectionEvent::Disconnected(id) || event
                == ConnectionEvent::HeartbeatTimeout(id),
            final(self)@ == (ClientPoolState {
                connections: removed(old(self)@.connections, id),
                ..old(self)@
            }),
    {
        let id: u64 = match event {
            ConnectionEvent::Disconnected(id) => id,
            ConnectionEvent::HeartbeatTimeout(id) => id,
        };
        let found = self.remove_connection(id);
        id
    }
}

/// Removing the oldest connections one by one, by their ids, leaves those behind them.
pub proof fn law_removing_the_oldest(connections: Seq<u64>, n: int)
    requires
        0 <= n < connections.len(),
    ensures
        removed(connections.skip(n), connections[n]) == connections.skip(n + 1),
{
    let rest = connections.skip(n);
    assert(rest[0] == connections[n]);
    assert(rest.skip(1) =~= connections.skip(n + 1));
}

/// A connection that is removed is gone, and no other is added.
pub proof fn law_removed_is_gone(connections: Seq<u64>, id: u64)
    requires
        connections.no_duplicates(),
    ensures
        !removed(connections, id).contains(id),
        forall|other: u64|
            removed(connections, id).contains(other) ==> connections.contains(other),
    decreases connections.len(),
{
    if connections.len() > 0 {
        let tail = connections.skip(1);
        if connections[0] == id {
            if tail.contains(id) {
                let k = choose|k: int| 0 <= k < tail.len() && tail[k] == id;
                assert(connections[k + 1] == connections[0]);
            }
            assert forall|other: u64| tail.contains(other) implies connections.contains(other) by {
                let k = choose|k: int| 0 <= k < tail.len() && tail[k] == other;
                assert(connections[k + 1] == other);
            }
        } else {
            assert forall|i: int, j: int|
                0 <= i < tail.len() && 0 <= j < tail.len() && i != j implies tail[i] != tail[j] by {
                assert(connections[i + 1] != connections[j + 1]);
            }
            law_removed_is_gone(tail, id);
            let all = removed(connections, id);
            let rest = removed(tail, id);
            assert forall|other: u64| all.contains(other) implies connections.contains(other)
                && other != id by {
                let k = choose|k: int| 0 <= k < all.len() && all[k] == other;
                if k > 0 {
                    assert(all[k] == rest[k - 1]);
                    assert(rest.contains(other));
                    assert(tail.contains(other));
                    let l = choose|l: int| 0 <= l < tail.len() && tail[l] == other;
                    assert(connections[l + 1] == other);
                } else {
                    assert(connections[0] == other);
                }
            }
        }
    }
}

/// A connection that is removed leaves its first place, and the others stay in their order.
pub proof fn law_removed_at(connections: Seq<u64>, id: u64, i: int)
    requires
        0 <= i <= connections.len(),
        forall|j: int| 0 <= j < i ==> #[trigger] connections[j] != id,
    ensures
        i < connections.len() && connections[i] == id ==> removed(connections, id)
            == connections.subrange(0, i) + connections.subrange(i + 1, connections.len() as int),
        i == connections.len() ==> removed(connections, id) == connections,
    decreases connections.len(),
{
    if i > 0 {
        let tail = connections.skip(1);
        assert(connections[0] != id);
        assert forall|j: int| 0 <= j < i - 1 implies #[trigger] tail[j] != id by {
            assert(tail[j] == connections[j + 1]);
        }
        law_removed_at(tail, id, i - 1);
        if i < connections.len() && connections[i] == id {
            assert(seq![connections[0]] + (tail.subrange(0, i - 1) + tail.subrange(
                i,
                tail.len() as int,
            )) =~= connections.subrange(0, i) + connections.subrange(
                i + 1,
                connections.len() as int,
            ));
        } else if i == connections.len() {
            assert(seq![connections[0]] + tail =~= connections);
        }
    } else if connections.len() > 0 && connections[0] == id {
        assert(connections.skip(1) =~= connections.subrange(0, 0) + connections.subrange(
            1,
            connections.len() as int,
        ));
    }
}

} // verus!
