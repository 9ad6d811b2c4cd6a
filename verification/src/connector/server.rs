//! What a server decides: whom it accepts, how many fetch messages for an account, and when it
//! is done.

use crate::connector::pool;
use crate::connector::protocol::{batch, MessageItem};
use crate::connector::protocol;
use crate::encoded_pdu::RawPdu;
use crate::error::RsmsError;
use crate::text;
use vstd::prelude::*;
use vstd::string::*;

verus! {

/// What a server does about its listener.
#[derive(Debug, Clone, Copy, PartialEq, Eq, Structural)]
pub enum AcceptTurn {
    /// No more connections are accepted.
    Stop,
    /// Try again.
    Retry,
    /// Close the new connection: there are too many.
    Refuse,
    /// Serve the new connection.
    Serve,
}

/// Whether there is room for one more connection. A limit of 0 stands for none.
pub open spec fn has_room(current: int, max_channels: u16) -> bool {
    max_channels == 0 || current < max_channels
}

/// What a server does about a new connection, or about one that failed to come.
pub fn accept_turn(accepted: bool, shutdown: bool, current: usize, max_channels: u16) -> (turn:
    AcceptTurn)
    ensures
        turn == (if !accepted {
            if shutdown {
                AcceptTurn::Stop
            } else {
                AcceptTurn::Retry
            }
        } else if has_room(current as int, max_channels) {
            AcceptTurn::Serve
        } else {
            AcceptTurn::Refuse
        }),
{
    if !accepted {
        if shutdown {
            AcceptTurn::Stop
        } else {
            AcceptTurn::Retry
        }
    } else if max_channels > 0 && current >= max_channels as usize {
        AcceptTurn::Refuse
    } else {
        AcceptTurn::Serve
    }
}

/// With a limit, a server never has more connections than it allows.
pub proof fn law_limit_of_connections(current: int, max_channels: u16)
    requires
        max_channels > 0,
        current <= max_channels,
        has_room(current, max_channels),
    ensures
        current + 1 <= max_channels,
{
}

/// How many tasks fetch messages for an account.
#[derive(Debug)]
pub struct FetcherCount {
    pub account: String,
    pub count: u8,
}

/// The tasks that fetch messages, by account.
#[derive(Debug)]
pub struct FetcherTable {
    counts: Vec<FetcherCount>,
}

/// How many tasks there are for an account; no account stands in the table twice.
#[verifier::ext_equal]
pub struct FetcherRow {
    pub account: Seq<char>,
    pub count: u8,
}

/// The table as a mathematical value.
pub open spec fn rows(counts: Seq<FetcherCount>) -> Seq<FetcherRow> {
    Seq::new(
        counts.len(),
        |i: int| FetcherRow { account: counts[i].account@, count: counts[i].count },
    )
}

impl View for FetcherTable {
    type V = Seq<FetcherRow>;

    closed spec fn view(&self) -> Seq<FetcherRow> {
        rows(self.counts@)
    }
}

/// How many tasks there are for an account.
pub open spec fn count_of(table: Seq<FetcherRow>, account: Seq<char>) -> u8
    decreases table.len(),
{
    if table.len() == 0 {
        0
    } else if table[0].account == account {
        table[0].count
    } else {
        count_of(table.skip(1), account)
    }
}

/// The table with one more task for an account.
pub open spec fn counted(table: Seq<FetcherRow>, account: Seq<char>) -> Seq<FetcherRow>
    decreases table.len(),
{
    if table.len() == 0 {
        seq![FetcherRow { account, count: 1 }]
    } else if table[0].account == account {
        seq![FetcherRow { account, count: (table[0].count + 1) as u8 }] + table.skip(1)
    } else {
        seq![table[0]] + counted(table.skip(1), account)
    }
}

/// The rows of the accounts that are still there.
pub open spec fn retained(table: Seq<FetcherRow>, active: Seq<Seq<char>>) -> Seq<FetcherRow> {
    table.filter(|row: FetcherRow| active.contains(row.account) && row.count > 0)
}

/// Texts as mathematical values.
pub open spec fn names(texts: Seq<String>) -> Seq<Seq<char>> {
    Seq::new(texts.len(), |i: int| texts[i]@)
}

fn is_among(texts: &Vec<String>, name: &str) -> (yes: bool)
    ensures
        yes == names(texts@).contains(name@),
{
    let mut i: usize = 0;
    while i < texts.len()
        invariant
            i <= texts@.len(),
            forall|j: int| 0 <= j < i ==> names(texts@)[j] != name@,
        decreases texts@.len() - i,
    {
        if text::same_text(texts[i].as_str(), name) {
            assert(names(texts@)[i as int] == name@);
            assert(names(texts@).contains(name@));
            return true;
        }
        i = i + 1;
    }
    false
}

impl FetcherTable {
    pub fn new() -> (table: Self)
        ensures
            table@ == Seq::<FetcherRow>::empty(),
    {
        let table = FetcherTable { counts: Vec::new() };
        assert(rows(table.counts@) =~= Seq::empty());
        table
    }

    /// Counts one more task for an account, if there are fewer than there may be, and tells
    /// whether to start one.
    pub fn start_one(&mut self, account: &str, max_fetch_threads: u8) -> (start: bool)
        ensures
            start == (count_of(old(self)@, account@) < max_fetch_threads),
            final(self)@ == (if start {
                counted(old(self)@, account@)
            } else {
                old(self)@
            }),
    {
        let ghost all = rows(self.counts@);
        let mut i: usize = 0;
        assert(all.skip(0) =~= all);
        assert(all.take(0) + counted(all, account@) =~= counted(all, account@));
        while i < self.counts.len()
            invariant
                i <= all.len(),
                rows(self.counts@) == all,
                self@ == old(self)@,
                all == old(self)@,
                count_of(all, account@) == count_of(all.skip(i as int), account@),
                counted(all, account@) == all.take(i as int) + counted(
                    all.skip(i as int),
                    account@,
                ),
            decreases all.len() - i,
        {
            let ghost here = all.skip(i as int);
            assert(here[0] == all[i as int]);
            assert(here.skip(1) =~= all.skip(i + 1));
            if text::same_text(self.counts[i].account.as_str(), account) {
                let count: u8 = self.counts[i].count;
                if count < max_fetch_threads {
                    let row = FetcherCount { account: account.to_owned(), count: count + 1 };
                    self.counts.set(i, row);
                    assert(rows(self.counts@) =~= all.take(i as int) + (seq![
                        FetcherRow { account: account@, count: (count + 1) as u8 },
                    ] + all.skip(i + 1)));
                    return true;
                }
                return false;
            }
            assert(all.take(i + 1) + counted(all.skip(i + 1), account@) =~= all.take(i as int) + (
            seq![all[i as int]] + counted(all.skip(i + 1), account@)));
            i = i + 1;
        }
        if max_fetch_threads > 0 {
            self.counts.push(FetcherCount { account: account.to_owned(), count: 1 });
            assert(rows(self.counts@) =~= all.take(i as int) + seq![
                FetcherRow { account: account@, count: 1 },
            ]);
            true
        } else {
            false
        }
    }

    /// Forgets the accounts that are gone.
    pub fn retain(&mut self, active: &Vec<String>)
        ensures
            final(self)@ == retained(old(self)@, names(active@)),
    {
        let ghost all = rows(self.counts@);
        let ghost stays = |row: FetcherRow| names(active@).contains(row.account) && row.count > 0;
        let mut kept: Vec<FetcherCount> = Vec::new();
        let mut i: usize = 0;
        assert(rows(kept@) =~= all.take(0).filter(stays)) by {
            reveal(Seq::filter);
        }
        while i < self.counts.len()
            invariant
                i <= all.len(),
                rows(self.counts@) == all,
                stays == (|row: FetcherRow|
                    names(active@).contains(row.account) && row.count > 0),
                rows(kept@) == all.take(i as int).filter(stays),
            decreases all.len() - i,
        {
            let ghost so_far = rows(kept@);
            proof {
                reveal(Seq::filter);
                assert(all.take(i + 1).drop_last() =~= all.take(i as int));
            }
            let row = &self.counts[i];
            if is_among(active, row.account.as_str()) && row.count > 0 {
                kept.push(FetcherCount { account: row.account.clone(), count: row.count });
                assert(rows(kept@) =~= so_far.push(all[i as int]));
            }
            i = i + 1;
        }
        assert(all.take(i as int) =~= all);
        self.counts = kept;
    }
}

/// No account ever has more tasks than it may: one is only started below the limit, and counts.
pub proof fn law_tasks_within_limit(table: Seq<FetcherRow>, account: Seq<char>, max: u8)
    requires
        count_of(table, account) < max,
    ensures
        count_of(counted(table, account), account) == count_of(table, account) + 1,
        count_of(counted(table, account), account) <= max,
        forall|other: Seq<char>|
            other != account ==> #[trigger] count_of(counted(table, account), other) == count_of(
                table,
                other,
            ),
    decreases table.len(),
{
    reveal_with_fuel(count_of, 2);
    let after = counted(table, account);
    if table.len() == 0 {
        assert(after.skip(1) =~= Seq::empty());
    } else if table[0].account == account {
        assert(after.skip(1) =~= table.skip(1));
    } else {
        law_tasks_within_limit(table.skip(1), account, max);
        assert(after.skip(1) =~= counted(table.skip(1), account));
        assert forall|other: Seq<char>| other != account implies #[trigger] count_of(after, other)
            == count_of(table, other) by {
            assert(count_of(counted(table.skip(1), account), other) == count_of(
                table.skip(1),
                other,
            ));
        }
    }
}

/// What a task that fetches messages for an account does next.
#[derive(Debug, Clone, Copy, PartialEq, Eq, Structural)]
pub enum InboundTurn {
    /// Nothing: no connection is ready, or too many batches are on their way.
    Skip,
    /// Ask the message source for that many items; `counted` tells whether the batch counts as
    /// on its way until it is sent.
    Fetch { batch_size: usize, counted: bool },
}

/// How many items a server asks its message source for at a time.
pub const INBOUND_BATCH: usize = 10;

/// Whether one more batch may be on its way. A window of 0 stands for any number of batches.
pub open spec fn window_open(window_size: u16, inflight: int) -> bool {
    window_size == 0 || inflight < window_size
}

/// What a task that fetches messages for an account does next.
pub fn inbound_turn(ready: bool, window_size: u16, inflight: usize) -> (turn: InboundTurn)
    ensures
        turn == (if ready && window_open(window_size, inflight as int) {
            InboundTurn::Fetch { batch_size: INBOUND_BATCH, counted: window_size > 0 }
        } else {
            InboundTurn::Skip
        }),
{
    if !ready {
        return InboundTurn::Skip;
    }
    if window_size > 0 && inflight >= window_size as usize {
        return InboundTurn::Skip;
    }
    InboundTurn::Fetch { batch_size: INBOUND_BATCH, counted: window_size > 0 }
}

/// The PDUs to send of what the message source handed out; none if it failed.
pub fn inbound_batch(fetched: Result<Vec<MessageItem>, RsmsError>) -> (pdus: Option<Vec<RawPdu>>)
    ensures
        match fetched {
            Ok(items) => pdus matches Some(p) && protocol::pdu_views(p@) == protocol::batch_pdus(
                items@,
            ),
            Err(_) => pdus is None,
        },
{
    match fetched {
        Ok(items) => Some(batch(items)),
        Err(_) => None,
    }
}

/// With a window, no more batches are on their way than it allows.
pub proof fn law_window_is_kept(window_size: u16, inflight: int)
    requires
        window_size > 0,
        window_open(window_size, inflight),
    ensures
        inflight + 1 <= window_size,
{
}

/// Whether to wait on for what is under way.
#[derive(Debug, Clone, Copy, PartialEq, Eq, Structural)]
pub enum DrainTurn {
    /// Everything is done.
    Done,
    /// Time is up.
    TimedOut,
    /// Look again in that many milliseconds.
    Wait { ms: u64 },
}

/// Whether to wait on for what is under way.
pub fn drain_turn(under_way: u128, now_nanos: u128, deadline_nanos: u128) -> (turn: DrainTurn)
    ensures
        turn == (if under_way == 0 {
            DrainTurn::Done
        } else if now_nanos >= deadline_nanos {
            DrainTurn::TimedOut
        } else {
            DrainTurn::Wait { ms: 20 }
        }),
{
    if under_way == 0 {
        DrainTurn::Done
    } else if now_nanos >= deadline_nanos {
        DrainTurn::TimedOut
    } else {
        DrainTurn::Wait { ms: 20 }
    }
}

/// Whom a server accepts: without a limit everybody, and with one as many as it says.
pub proof fn law_whom_to_accept(
    accepted: bool,
    shutdown: bool,
    current: usize,
    max_channels: u16,
    turn: AcceptTurn,
)
    requires
        call_ensures(accept_turn, (accepted, shutdown, current, max_channels), turn),
    ensures
        turn is Serve <==> accepted && (max_channels == 0 || current < max_channels),
        turn is Refuse <==> accepted && max_channels > 0 && current >= max_channels,
        turn is Stop <==> !accepted && shutdown,
        turn is Retry <==> !accepted && !shutdown,
{
}

/// How many tasks there are for an account stands in its row; without a row there are none.
pub proof fn law_count_is_looked_up(table: Seq<FetcherRow>, account: Seq<char>, i: int)
    requires
        0 <= i <= table.len(),
        forall|j: int| 0 <= j < i ==> #[trigger] table[j].account != account,
    ensures
        i < table.len() && table[i].account == account ==> count_of(table, account)
            == table[i].count,
        i == table.len() ==> count_of(table, account) == 0,
    decreases table.len(),
{
    if i > 0 {
        assert(table[0].account != account);
        assert forall|j: int| 0 <= j < i - 1 implies #[trigger] table.skip(1)[j].account
            != account by {
            assert(table.skip(1)[j] == table[j + 1]);
        }
        law_count_is_looked_up(table.skip(1), account, i - 1);
    }
}

/// What is forgotten: the accounts that are gone, and those without tasks. Every other row stays.
pub proof fn law_who_is_forgotten(
    table: Seq<FetcherRow>,
    active: Seq<Seq<char>>,
    row: FetcherRow,
)
    ensures
        retained(table, active).contains(row) <==> table.contains(row) && active.contains(
            row.account,
        ) && row.count > 0,
{
    pool::lemma_kept(
        table,
        |row: FetcherRow| active.contains(row.account) && row.count > 0,
        row,
    );
}

/// A server fetches ten items at a time for an account with a connection, as long as its window is
/// open; without a window batches are not counted.
pub proof fn law_inbound_turns(ready: bool, window_size: u16, inflight: usize, turn: InboundTurn)
    requires
        call_ensures(inbound_turn, (ready, window_size, inflight), turn),
    ensures
        turn is Fetch <==> ready && (window_size == 0 || inflight < window_size),
        turn matches InboundTurn::Fetch { batch_size, counted } ==> batch_size == 10 && (counted
            <==> window_size > 0),
{
}

/// How long a server waits for what is under way: until nothing is, or time is up, with a look
/// every twenty milliseconds.
pub proof fn law_draining(under_way: u128, now: u128, deadline: u128, turn: DrainTurn)
    requires
        call_ensures(drain_turn, (under_way, now, deadline), turn),
    ensures
        turn is Done <==> under_way == 0,
        turn is TimedOut <==> under_way > 0 && now >= deadline,
        turn matches DrainTurn::Wait { ms } ==> ms == 20,
{
}

} // verus!
