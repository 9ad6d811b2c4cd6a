//! The transactions of an account. A message is known by its sequence number until the response
//! brings its id, and by that id until the report.

use crate::clock;
use crate::connector::transaction::info;
use crate::connector::transaction::info::{
    Callback, Mo, MoInfo, Notice, Report, ReportInfo, Submission, SubmitInfo, Transaction,
    TransactionEntry, TransactionStatus,
};
use crate::connector::transaction::table;
use crate::text;
use dashmap::DashMap;
use std::time::{Duration, Instant};
use vstd::prelude::*;
use vstd::string::*;

verus! {

/// The transactions of an account.
#[derive(Debug)]
pub struct TransactionManager {
    transactions: DashMap<String, TransactionEntry>,
    seq_to_msg_id: DashMap<u32, String>,
    resp_timeout: Duration,
}

/// The transactions of an account as a mathematical value.
#[verifier::ext_equal]
pub struct Transactions {
    /// By the sequence number in decimal, or by the message id once it is known.
    pub by_key: Map<Seq<char>, Transaction>,
    /// The message ids by sequence numbers.
    pub msg_ids: Map<u32, Seq<char>>,
    /// How many nanoseconds a response may take.
    pub resp_timeout: int,
}

impl View for TransactionManager {
    type V = Transactions;

    closed spec fn view(&self) -> Transactions {
        Transactions {
            by_key: table::transactions_in(self.transactions),
            msg_ids: table::ids_in(self.seq_to_msg_id),
            resp_timeout: clock::duration_nanos(self.resp_timeout) as int,
        }
    }
}

/// The key of a message whose id is not known yet.
pub open spec fn sequence_key(sequence_id: u32) -> Seq<char> {
    text::decimal_chars(sequence_id as nat)
}

impl Transaction {
    /// After the response, which may bring an id.
    pub open spec fn answered(self, msg_id: Option<Seq<char>>) -> Transaction {
        Transaction {
            info: match msg_id {
                Some(id) => Submission { msg_id: Some(id), ..self.info },
                None => self.info,
            },
            status: TransactionStatus::RespReceived,
        }
    }

    /// Whether the response is overdue.
    pub open spec fn overdue(self, now: Instant, resp_timeout: int) -> bool {
        self.status == TransactionStatus::Pending && clock::duration_nanos(
            clock::duration_between(now, self.info.submit_time),
        ) > resp_timeout
    }
}

impl Transactions {
    /// With a message that was just sent.
    pub open spec fn submitted(self, info: Submission) -> Transactions {
        Transactions {
            by_key: self.by_key.insert(
                sequence_key(info.sequence_id),
                Transaction { info, status: TransactionStatus::Pending },
            ),
            ..self
        }
    }

    /// After the response to a message. One that nobody waits for changes nothing.
    pub open spec fn answered(self, sequence_id: u32, msg_id: Option<Seq<char>>) -> Transactions {
        let key = sequence_key(sequence_id);
        if !self.by_key.contains_key(key) {
            self
        } else {
            let after = self.by_key[key].answered(msg_id);
            match msg_id {
                Some(id) => Transactions {
                    by_key: self.by_key.insert(id, after).remove(key),
                    msg_ids: self.msg_ids.insert(sequence_id, id),
                    ..self
                },
                None => Transactions { by_key: self.by_key.insert(key, after), ..self },
            }
        }
    }

    /// What the application is told of a response.
    pub open spec fn answer_notice(
        self,
        sequence_id: u32,
        msg_id: Option<Seq<char>>,
        result: u32,
    ) -> Option<Notice> {
        let key = sequence_key(sequence_id);
        if !self.by_key.contains_key(key) {
            None
        } else {
            let info = self.by_key[key].answered(msg_id).info;
            Some(
                if result == 0 {
                    Notice::SubmitOk(info)
                } else {
                    Notice::SubmitError(info, result)
                },
            )
        }
    }

    /// After a message could not be sent.
    pub open spec fn send_failed(self, sequence_id: u32) -> Transactions {
        Transactions { by_key: self.by_key.remove(sequence_key(sequence_id)), ..self }
    }

    /// Whether a transaction is the one that a report is about: the one under the id, or else
    /// one with the id that stands under an id that a response brought.
    pub open spec fn matches_report(self, id: Seq<char>, tx: Transaction) -> bool {
        if self.by_key.contains_key(id) {
            tx == self.by_key[id]
        } else {
            exists|sequence_id: u32| #[trigger]
                self.msg_ids.contains_key(sequence_id) && self.by_key.contains_key(
                    self.msg_ids[sequence_id],
                ) && self.by_key[self.msg_ids[sequence_id]] == tx && tx.info.msg_id == Some(id)
        }
    }

    /// After the report on a message, which is then forgotten.
    pub open spec fn reported(self, tx: Transaction) -> Transactions {
        Transactions {
            by_key: match tx.info.msg_id {
                Some(id) => self.by_key.remove(id),
                None => self.by_key,
            },
            msg_ids: self.msg_ids.remove(tx.info.sequence_id),
            ..self
        }
    }

    /// What a report may lead to: the application is told of the message that it is about, and
    /// the message is forgotten. A report on a message that nobody knows changes nothing.
    pub open spec fn handles_report(
        self,
        report: Report,
        after: Transactions,
        notice: Option<Notice>,
    ) -> bool {
        match notice {
            Some(n) => exists|tx: Transaction| #[trigger]
                self.matches_report(report.msg_id, tx) && n == Notice::Report(report, tx.info)
                    && after == self.reported(tx),
            None => (forall|tx: Transaction| !#[trigger] self.matches_report(report.msg_id, tx))
                && after == self,
        }
    }

    /// The keys of the messages whose responses are overdue.
    pub open spec fn overdue_keys(self, now: Instant) -> Set<Seq<char>> {
        self.by_key.dom().filter(
            |key: Seq<char>| self.by_key[key].overdue(now, self.resp_timeout),
        )
    }

    /// Without the messages whose responses are overdue.
    pub open spec fn expired(self, now: Instant) -> Transactions {
        Transactions { by_key: self.by_key.remove_keys(self.overdue_keys(now)), ..self }
    }

    /// The keys of the messages that wait for their responses.
    pub open spec fn pending_keys(self) -> Set<Seq<char>> {
        self.by_key.dom().filter(
            |key: Seq<char>| self.by_key[key].status == TransactionStatus::Pending,
        )
    }
}

/// Whether messages are those under some keys, each once, in any order.
pub open spec fn infos_under(
    infos: Seq<SubmitInfo>,
    by_key: Map<Seq<char>, Transaction>,
    keys: Seq<Seq<char>>,
) -> bool {
    &&& infos.len() == keys.len()
    &&& forall|i: int| 0 <= i < infos.len() ==> (#[trigger] infos[i])@ == by_key[keys[i]].info
}

fn key_of(sequence_id: u32) -> (key: String)
    ensures
        key@ == sequence_key(sequence_id),
{
    text::decimal(sequence_id as u64)
}

impl TransactionManager {
    /// No transactions; a response may take that many seconds.
    pub fn new(resp_timeout_secs: u64) -> (tm: Self)
        ensures
            tm@ == (Transactions {
                by_key: Map::empty(),
                msg_ids: Map::empty(),
                resp_timeout: resp_timeout_secs * 1_000_000_000,
            }),
    {
        TransactionManager {
            transactions: table::new_transactions(),
            seq_to_msg_id: table::new_ids(),
            resp_timeout: clock::from_secs(resp_timeout_secs),
        }
    }

    /// A message is about to be sent.
    pub fn add_submit_transaction(&mut self, info: SubmitInfo)
        ensures
            final(self)@ == old(self)@.submitted(info@),
    {
        let key = key_of(info.sequence_id);
        let entry = TransactionEntry { info, status: TransactionStatus::Pending };
        table::put_transaction(&mut self.transactions, key, entry);
    }

    /// The response to a message came in. The message goes from its sequence number to its id,
    /// if the response brings one.
    pub fn on_submit_resp(&mut self, sequence_id: u32, msg_id: Option<String>, result: u32) -> (
        callback: Option<Callback>)
        ensures
            final(self)@ == old(self)@.answered(sequence_id, info::id_view(msg_id)),
            info::notice_view(callback) == old(self)@.answer_notice(
                sequence_id,
                info::id_view(msg_id),
                result,
            ),
    {
        let key = key_of(sequence_id);
        let mut tx = match table::get_transaction(&self.transactions, key.as_str()) {
            Some(tx) => tx,
            None => {
                return None;
            },
        };
        tx.status = TransactionStatus::RespReceived;
        let info = match msg_id {
            Some(mid) => {
                tx.info.msg_id = Some(mid.clone());
                let info = tx.info.clone();
                table::put_id(&mut self.seq_to_msg_id, sequence_id, mid.clone());
                table::put_transaction(&mut self.transactions, mid, tx);
                let gone = table::take_transaction(&mut self.transactions, key.as_str());
                info
            },
            None => {
                let info = tx.info.clone();
                table::put_transaction(&mut self.transactions, key, tx);
                info
            },
        };
        Some(
            if result == 0 {
                Callback::SubmitOk(info)
            } else {
                Callback::SubmitError(info, result)
            },
        )
    }

    /// A message could not be sent.
    pub fn on_send_failed(&mut self, sequence_id: u32, error: &str) -> (callback: Option<Callback>)
        ensures
            final(self)@ == old(self)@.send_failed(sequence_id),
            info::notice_view(callback) == (if old(self)@.by_key.contains_key(
                sequence_key(sequence_id),
            ) {
                Some(
                    Notice::SendFailed {
                        sequence_id: old(self)@.by_key[sequence_key(sequence_id)].info.sequence_id,
                        error: error@,
                    },
                )
            } else {
                None
            }),
    {
        let key = key_of(sequence_id);
        match table::take_transaction(&mut self.transactions, key.as_str()) {
            Some(tx) => Some(
                Callback::SendFailed {
                    sequence_id: tx.info.sequence_id,
                    error: error.to_owned(),
                },
            ),
            None => None,
        }
    }

    /// The transaction that a report is about. If none stands under the id, those under the ids
    /// that responses brought are looked through.
    fn find_reported(&self, id: &str) -> (found: Option<TransactionEntry>)
        ensures
            found matches Some(tx) ==> self@.matches_report(id@, tx@),
            found is None ==> forall|tx: Transaction| !self@.matches_report(id@, tx),
    {
        match table::get_transaction(&self.transactions, id) {
            Some(tx) => {
                return Some(tx);
            },
            None => {},
        }
        let ids = table::list_ids(&self.seq_to_msg_id);
        let mut i: usize = 0;
        while i < ids.len()
            invariant
                i <= ids@.len(),
                !self@.by_key.contains_key(id@),
                table::lists_ids(ids@, self@.msg_ids),
                forall|j: int|
                    0 <= j < i ==> {
                        let key = (#[trigger] ids@[j])@;
                        self@.by_key.contains_key(key) ==> self@.by_key[key].info.msg_id != Some(
                            id@,
                        )
                    },
            decreases ids@.len() - i,
        {
            match table::get_transaction(&self.transactions, ids[i].as_str()) {
                Some(tx) => {
                    let same = match &tx.info.msg_id {
                        Some(mid) => text::same_text(mid.as_str(), id),
                        None => false,
                    };
                    if same {
                        proof {
                            let sequence_id = choose|sequence_id: u32| #[trigger]
                                self@.msg_ids.contains_key(sequence_id)
                                    && self@.msg_ids[sequence_id] == ids@[i as int]@;
                            assert(self@.msg_ids.contains_key(sequence_id));
                        }
                        return Some(tx);
                    }
                },
                None => {},
            }
            i = i + 1;
        }
        assert forall|tx: Transaction| !self@.matches_report(id@, tx) by {
            if self@.matches_report(id@, tx) {
                let sequence_id = choose|sequence_id: u32| #[trigger]
                    self@.msg_ids.contains_key(sequence_id) && self@.by_key.contains_key(
                        self@.msg_ids[sequence_id],
                    ) && self@.by_key[self@.msg_ids[sequence_id]] == tx && tx.info.msg_id == Some(
                        id@,
                    );
                let j = choose|j: int|
                    0 <= j < ids@.len() && (#[trigger] ids@[j])@ == self@.msg_ids[sequence_id];
                assert(self@.by_key.contains_key(ids@[j]@));
            }
        }
        None
    }

    /// The report on a message came in; the message is then forgotten. A report on a message
    /// that nobody knows changes nothing.
    pub fn on_report(&mut self, report: ReportInfo) -> (callback: Option<Callback>)
        ensures
            old(self)@.handles_report(report@, final(self)@, info::notice_view(callback)),
    {
        match self.find_reported(report.msg_id.as_str()) {
            Some(entry) => {
                let ghost tx = entry@;
                match &entry.info.msg_id {
                    Some(mid) => {
                        let gone = table::take_transaction(&mut self.transactions, mid.as_str());
                    },
                    None => {},
                }
                table::take_id(&mut self.seq_to_msg_id, entry.info.sequence_id);
                assert(self@ =~= old(self)@.reported(tx));
                assert(old(self)@.matches_report(report@.msg_id, tx));
                let callback = Callback::Report(report, entry.info);
                assert(callback@ == Notice::Report(report@, tx.info));
                Some(callback)
            },
            None => None,
        }
    }

    /// A message came from a phone.
    pub fn on_mo(&self, mo: MoInfo) -> (callback: Callback)
        ensures
            callback@ == Notice::Mo(mo@),
    {
        Callback::Mo(mo)
    }

    /// Forgets the messages whose responses are overdue, and hands them out, in any order.
    pub fn check_timeouts(&mut self, now: Instant) -> (timed_out: Vec<SubmitInfo>)
        ensures
            final(self)@ == old(self)@.expired(now),
            exists|keys: Seq<Seq<char>>|
                keys.no_duplicates() && keys.to_set() == old(self)@.overdue_keys(now)
                    && #[trigger] infos_under(timed_out@, old(self)@.by_key, keys),
    {
        let pairs = table::list_transactions(&self.transactions);
        let timeout: u128 = clock::as_nanos(self.resp_timeout);
        let ghost before = self@;
        let mut timed_out: Vec<SubmitInfo> = Vec::new();
        let mut keys: Ghost<Seq<Seq<char>>> = Ghost(Seq::empty());
        let mut i: usize = 0;
        assert(before.by_key.remove_keys(keys@.to_set()) =~= before.by_key);
        while i < pairs.len()
            invariant
                i <= pairs@.len(),
                timeout == before.resp_timeout,
                table::lists_transactions(pairs@, before.by_key),
                self@.msg_ids == before.msg_ids,
                self@.resp_timeout == before.resp_timeout,
                self@.by_key == before.by_key.remove_keys(keys@.to_set()),
                infos_under(timed_out@, before.by_key, keys@),
                keys@.no_duplicates(),
                forall|k: int|
                    0 <= k < keys@.len() ==> exists|j: int|
                        0 <= j < i && (#[trigger] pairs@[j]).0@ == #[trigger] keys@[k],
                forall|j: int|
                    0 <= j < i ==> (keys@.contains((#[trigger] pairs@[j]).0@)
                        <==> before.by_key[pairs@[j].0@].overdue(now, before.resp_timeout)),
            decreases pairs@.len() - i,
        {
            let (key, entry) = &pairs[i];
            assert(before.by_key.contains_key(pairs@[i as int].0@));
            let late = entry.status == TransactionStatus::Pending && clock::as_nanos(
                clock::duration_since(&now, &entry.info.submit_time),
            ) > timeout;
            proof {
                if keys@.contains(key@) {
                    let k = choose|k: int| 0 <= k < keys@.len() && keys@[k] == key@;
                    let j = choose|j: int| 0 <= j < i && (#[trigger] pairs@[j]).0@ == keys@[k];
                    assert(pairs@[j].0@ != pairs@[i as int].0@);
                }
            }
            if late {
                let ghost old_keys = keys@;
                let ghost old_infos = timed_out@;
                match table::take_transaction(&mut self.transactions, key.as_str()) {
                    Some(tx) => {
                        timed_out.push(tx.info);
                        proof {
                            keys@ = keys@.push(key@);
                            assert(keys@.to_set() =~= old_keys.to_set().insert(key@)) by {
                                assert forall|a: Seq<char>| keys@.contains(a) == (
                                old_keys.contains(a) || a == key@) by {
                                    if old_keys.contains(a) {
                                        let k = choose|k: int|
                                            0 <= k < old_keys.len() && old_keys[k] == a;
                                        assert(keys@[k] == a);
                                    }
                                    assert(keys@[old_keys.len() as int] == key@);
                                }
                            }
                            assert(self@.by_key =~= before.by_key.remove_keys(keys@.to_set()));
                            assert forall|n: int| 0 <= n < timed_out@.len() implies (
                            #[trigger] timed_out@[n])@ == before.by_key[keys@[n]].info by {
                                if n < old_infos.len() {
                                    assert(timed_out@[n] == old_infos[n]);
                                }
                            }
                            assert forall|k: int| 0 <= k < keys@.len() implies exists|j: int|
                                0 <= j < i + 1 && (#[trigger] pairs@[j]).0@ == #[trigger] keys@[k] by {
                                if k < old_keys.len() {
                                    let j = choose|j: int|
                                        0 <= j < i && (#[trigger] pairs@[j]).0@ == old_keys[k];
                                    assert(pairs@[j].0@ == keys@[k]);
                                } else {
                                    assert(pairs@[i as int].0@ == keys@[k]);
                                }
                            }
                            assert forall|j: int| 0 <= j < i + 1 implies (keys@.contains(
                                (#[trigger] pairs@[j]).0@,
                            ) <==> before.by_key[pairs@[j].0@].overdue(now, before.resp_timeout)) by {
                                assert(keys@.to_set().contains(pairs@[j].0@) == (
                                old_keys.to_set().contains(pairs@[j].0@) || pairs@[j].0@ == key@));
                            }
                        }
                    },
                    None => {
                        assert(false);
                    },
                }
            }
            i = i + 1;
        }
        proof {
            assert forall|key: Seq<char>| keys@.to_set().contains(key) == before.overdue_keys(
                now,
            ).contains(key) by {
                if keys@.contains(key) {
                    let k = choose|k: int| 0 <= k < keys@.len() && keys@[k] == key;
                    let j = choose|j: int|
                        0 <= j < pairs@.len() && (#[trigger] pairs@[j]).0@ == keys@[k];
                    assert(before.by_key.contains_key(pairs@[j].0@));
                }
                if before.overdue_keys(now).contains(key) {
                    assert(before.by_key.contains_key(key));
                    let j = choose|j: int|
                        0 <= j < pairs@.len() && (#[trigger] pairs@[j]).0@ == key;
                    assert(keys@.contains(pairs@[j].0@));
                }
            }
            assert(keys@.to_set() =~= before.overdue_keys(now));
            assert(infos_under(timed_out@, before.by_key, keys@));
        }
        timed_out
    }

    /// How many transactions there are.
    pub fn transaction_count(&self) -> (count: usize)
        ensures
            count == self@.by_key.len(),
    {
        table::transactions_len(&self.transactions)
    }

    /// How many messages wait for their responses.
    pub fn pending_count(&self) -> (count: usize)
        ensures
            count == self@.pending_keys().len(),
    {
        let pairs = table::list_transactions(&self.transactions);
        let ghost all = self@;
        let mut keys: Ghost<Seq<Seq<char>>> = Ghost(Seq::empty());
        let mut count: usize = 0;
        let mut i: usize = 0;
        while i < pairs.len()
            invariant
                count <= i <= pairs@.len(),
                count == keys@.len(),
                all == self@,
                table::lists_transactions(pairs@, all.by_key),
                keys@.no_duplicates(),
                forall|k: int|
                    0 <= k < keys@.len() ==> exists|j: int|
                        0 <= j < i && (#[trigger] pairs@[j]).0@ == #[trigger] keys@[k],
                forall|j: int|
                    0 <= j < i ==> (keys@.contains((#[trigger] pairs@[j]).0@)
                        <==> all.by_key[pairs@[j].0@].status == TransactionStatus::Pending),
            decreases pairs@.len() - i,
        {
            let (key, entry) = &pairs[i];
            assert(all.by_key.contains_key(pairs@[i as int].0@));
            proof {
                if keys@.contains(key@) {
                    let k = choose|k: int| 0 <= k < keys@.len() && keys@[k] == key@;
                    let j = choose|j: int| 0 <= j < i && (#[trigger] pairs@[j]).0@ == keys@[k];
                    assert(pairs@[j].0@ != pairs@[i as int].0@);
                }
            }
            if entry.status == TransactionStatus::Pending {
                count = count + 1;
                proof {
                    let old_keys = keys@;
                    keys@ = keys@.push(key@);
                    assert forall|a: Seq<char>| keys@.contains(a) == (old_keys.contains(a) || a
                        == key@) by {
                        if old_keys.contains(a) {
                            let k = choose|k: int| 0 <= k < old_keys.len() && old_keys[k] == a;
                            assert(keys@[k] == a);
                        }
                        assert(keys@[old_keys.len() as int] == key@);
                    }
                    assert forall|k: int| 0 <= k < keys@.len() implies exists|j: int|
                        0 <= j < i + 1 && (#[trigger] pairs@[j]).0@ == #[trigger] keys@[k] by {
                        if k < old_keys.len() {
                            let j = choose|j: int|
                                0 <= j < i && (#[trigger] pairs@[j]).0@ == old_keys[k];
                            assert(pairs@[j].0@ == keys@[k]);
                        } else {
                            assert(pairs@[i as int].0@ == keys@[k]);
                        }
                    }
                }
            }
            i = i + 1;
        }
        proof {
            assert forall|key: Seq<char>| keys@.to_set().contains(key)
                == all.pending_keys().contains(key) by {
                if keys@.contains(key) {
                    let k = choose|k: int| 0 <= k < keys@.len() && keys@[k] == key;
                    let j = choose|j: int|
                        0 <= j < pairs@.len() && (#[trigger] pairs@[j]).0@ == keys@[k];
                    assert(all.by_key.contains_key(pairs@[j].0@));
                }
                if all.pending_keys().contains(key) {
                    assert(all.by_key.contains_key(key));
                    let j = choose|j: int|
                        0 <= j < pairs@.len() && (#[trigger] pairs@[j]).0@ == key;
                    assert(keys@.contains(pairs@[j].0@));
                }
            }
            assert(keys@.to_set() =~= all.pending_keys());
            keys@.unique_seq_to_set();
        }
        count
    }
}

/// Messages with different sequence numbers have different keys.
pub proof fn law_keys_differ(a: u32, b: u32)
    requires
        a != b,
    ensures
        sequence_key(a) != sequence_key(b),
{
    if sequence_key(a) == sequence_key(b) {
        text::law_decimal_differs(a as nat, b as nat);
    }
}

/// A message that is submitted, answered with an id and reported on under that id goes all the
/// way: the application is told of the response and of the report, each with the message, and
/// nothing is left of it. The id must not be the sequence number in decimal, which would make
/// the response remove the message.
pub proof fn law_submit_to_report(state: Transactions, info: Submission, id: Seq<char>)
    requires
        id != sequence_key(info.sequence_id),
    ensures
        ({
            let key = sequence_key(info.sequence_id);
            let known = Submission { msg_id: Some(id), ..info };
            let tx = Transaction { info: known, status: TransactionStatus::RespReceived };
            let sent = state.submitted(info);
            let answered = sent.answered(info.sequence_id, Some(id));
            &&& sent.answer_notice(info.sequence_id, Some(id), 0) == Some(Notice::SubmitOk(known))
            &&& forall|other: Transaction| #[trigger]
                answered.matches_report(id, other) <==> other == tx
            &&& answered.reported(tx) == (Transactions {
                by_key: state.by_key.remove(key).remove(id),
                msg_ids: state.msg_ids.remove(info.sequence_id),
                ..state
            })
        }),
{
    let key = sequence_key(info.sequence_id);
    let known = Submission { msg_id: Some(id), ..info };
    let tx = Transaction { info: known, status: TransactionStatus::RespReceived };
    let sent = state.submitted(info);
    let answered = sent.answered(info.sequence_id, Some(id));
    assert(sent.by_key[key].answered(Some(id)) == tx);
    assert(answered.by_key.contains_key(id));
    assert(answered.by_key[id] == tx);
    assert(answered.reported(tx).by_key =~= state.by_key.remove(key).remove(id));
    assert(answered.reported(tx).msg_ids =~= state.msg_ids.remove(info.sequence_id));
}

/// What happens to one message leaves the transactions under all other keys as they are.
pub proof fn law_transactions_apart(
    state: Transactions,
    info: Submission,
    id: Option<Seq<char>>,
    tx: Transaction,
    key: Seq<char>,
)
    requires
        key != sequence_key(info.sequence_id),
        id != Some(key),
        tx.info.msg_id != Some(key),
    ensures
        same_under(state, state.submitted(info), key),
        same_under(state, state.answered(info.sequence_id, id), key),
        same_under(state, state.send_failed(info.sequence_id), key),
        same_under(state, state.reported(tx), key),
{
}

/// Whether two states have the same transaction under a key.
pub open spec fn same_under(a: Transactions, b: Transactions, key: Seq<char>) -> bool {
    &&& a.by_key.contains_key(key) == b.by_key.contains_key(key)
    &&& a.by_key.contains_key(key) ==> a.by_key[key] == b.by_key[key]
}

/// A message that has its response is never timed out, and one that has none is as soon as the
/// response is overdue.
pub proof fn law_only_overdue_expire(state: Transactions, now: Instant, key: Seq<char>)
    requires
        state.by_key.contains_key(key),
    ensures
        state.expired(now).by_key.contains_key(key) <==> !state.by_key[key].overdue(
            now,
            state.resp_timeout,
        ),
        state.by_key[key].status == TransactionStatus::RespReceived ==> same_under(
            state,
            state.expired(now),
            key,
        ),
{
}

/// A response takes the message from those that wait, and so does a failure to send it.
pub proof fn law_pending_until_answered(state: Transactions, info: Submission, id: Option<Seq<char>>)
    ensures
        ({
            let key = sequence_key(info.sequence_id);
            let sent = state.submitted(info);
            &&& sent.pending_keys().contains(key)
            &&& !sent.answered(info.sequence_id, id).pending_keys().contains(key)
            &&& !sent.send_failed(info.sequence_id).pending_keys().contains(key)
        }),
{
}

/// A response to a message that nobody waits for changes nothing, and the application is told
/// nothing. A failure to send such a message changes nothing either.
pub proof fn law_unknown_changes_nothing(
    state: Transactions,
    sequence_id: u32,
    id: Option<Seq<char>>,
    result: u32,
)
    requires
        !state.by_key.contains_key(sequence_key(sequence_id)),
    ensures
        state.answered(sequence_id, id) == state,
        state.answer_notice(sequence_id, id, result) is None,
        state.send_failed(sequence_id) == state,
{
    assert(state.send_failed(sequence_id).by_key =~= state.by_key);
}

/// There are no transactions at first, and a response may take as many seconds as asked for.
pub proof fn law_starts_empty(secs: u64, tm: TransactionManager)
    requires
        call_ensures(TransactionManager::new, (secs,), tm),
    ensures
        tm@.by_key.dom() == Set::<Seq<char>>::empty(),
        tm@.msg_ids.dom() == Set::<u32>::empty(),
        tm@.resp_timeout == secs * 1_000_000_000,
{
    assert(tm@.by_key.dom() =~= Set::<Seq<char>>::empty());
    assert(tm@.msg_ids.dom() =~= Set::<u32>::empty());
}

/// A message that is about to be sent is known under its number in decimal and waits for its
/// response. One that could not be sent is forgotten. Neither touches another message.
pub proof fn law_sent_and_failed(state: Transactions, info: SubmitInfo, other: Seq<char>)
    ensures
        ({
            let key = text::decimal_chars(info.sequence_id as nat);
            let sent = state.submitted(info@);
            let failed = state.send_failed(info.sequence_id);
            &&& sent.by_key.contains_key(key)
            &&& sent.by_key[key].status == TransactionStatus::Pending
            &&& sent.by_key[key].info.sequence_id == info.sequence_id
            &&& sent.by_key[key].info.content == info.content@
            &&& sent.by_key[key].info.dest_id == info.dest_id@
            &&& sent.by_key[key].info.src_id == info.src_id@
            &&& sent.by_key[key].info.submit_time == info.submit_time
            &&& sent.msg_ids == state.msg_ids
            &&& sent.resp_timeout == state.resp_timeout
            &&& !failed.by_key.contains_key(key)
            &&& failed.msg_ids == state.msg_ids
            &&& other != key ==> same_under(state, sent, other) && same_under(state, failed, other)
        }),
{
}

/// A response without an id leaves the message under its number, but it no longer waits.
pub proof fn law_answer_without_id(state: Transactions, sequence_id: u32, result: u32)
    requires
        state.by_key.contains_key(text::decimal_chars(sequence_id as nat)),
    ensures
        ({
            let key = text::decimal_chars(sequence_id as nat);
            let after = state.answered(sequence_id, None);
            &&& after.by_key.contains_key(key)
            &&& after.by_key[key].status == TransactionStatus::RespReceived
            &&& after.by_key[key].info == state.by_key[key].info
            &&& after.msg_ids == state.msg_ids
            &&& result == 0 ==> state.answer_notice(sequence_id, None, result) == Some(
                Notice::SubmitOk(state.by_key[key].info),
            )
            &&& result != 0 ==> state.answer_notice(sequence_id, None, result) == Some(
                Notice::SubmitError(state.by_key[key].info, result),
            )
        }),
{
}

/// A message is given up if it still waits and was sent longer ago than a response may take, and
/// only then; the ids that responses brought are kept.
pub proof fn law_given_up(state: Transactions, now: Instant, key: Seq<char>)
    ensures
        state.expired(now).by_key.contains_key(key) <==> state.by_key.contains_key(key) && !(
        state.by_key[key].status == TransactionStatus::Pending && clock::duration_nanos(
            clock::duration_between(now, state.by_key[key].info.submit_time),
        ) > state.resp_timeout),
        state.expired(now).by_key.contains_key(key) ==> state.expired(now).by_key[key]
            == state.by_key[key],
        state.expired(now).msg_ids == state.msg_ids,
        state.expired(now).resp_timeout == state.resp_timeout,
        state.overdue_keys(now).contains(key) <==> state.by_key.contains_key(key)
            && !state.expired(now).by_key.contains_key(key),
        state.pending_keys().contains(key) <==> state.by_key.contains_key(key)
            && state.by_key[key].status == TransactionStatus::Pending,
{
}

/// Which messages wait: those that are noted as pending, and no others.
pub proof fn law_who_is_pending(state: Transactions, key: Seq<char>)
    ensures
        state.pending_keys().contains(key) <==> state.by_key.contains_key(key)
            && state.by_key[key].status is Pending,
{
}

/// What a report leads to: the application is told of the report and of a message that it is about,
/// and that message is forgotten; if nothing is told, nothing changes.
pub proof fn law_report_is_told(
    before: Transactions,
    report: Report,
    after: Transactions,
    notice: Option<Notice>,
)
    requires
        before.handles_report(report, after, notice),
    ensures
        notice is None ==> after == before && !before.by_key.contains_key(report.msg_id),
        notice matches Some(n) ==> (n matches Notice::Report(told, info) && told == report
            && !after.msg_ids.contains_key(info.sequence_id) && (info.msg_id matches Some(id)
            ==> !after.by_key.contains_key(id)) && (before.by_key.contains_key(report.msg_id)
            ==> info == before.by_key[report.msg_id].info) && (!before.by_key.contains_key(
            report.msg_id,
        ) ==> info.msg_id == Some(report.msg_id))),
        after.resp_timeout == before.resp_timeout,
{
    if notice is None && before.by_key.contains_key(report.msg_id) {
        assert(before.matches_report(report.msg_id, before.by_key[report.msg_id]));
    }
}

} // verus!
