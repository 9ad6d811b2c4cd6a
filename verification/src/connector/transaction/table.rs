//! Tables of the `dashmap` crate, seen as maps. Every function that changes a table takes it
//! exclusively, so nobody else changes it meanwhile.

use crate::connector::transaction::info::{Transaction, TransactionEntry};
use dashmap::DashMap;
use vstd::prelude::*;

verus! {

/// `dashmap::DashMap`, a concurrent hash map.
#[verifier::external_type_specification]
#[verifier::external_body]
#[verifier::reject_recursive_types(K)]
#[verifier::reject_recursive_types(V)]
#[verifier::reject_recursive_types(S)]
pub struct ExDashMap<K, V, S>(dashmap::DashMap<K, V, S>);

/// The transactions that a table holds, by their keys.
pub uninterp spec fn transactions_in(table: DashMap<String, TransactionEntry>) -> Map<
    Seq<char>,
    Transaction,
>;

/// The message ids that a table holds, by sequence numbers.
pub uninterp spec fn ids_in(table: DashMap<u32, String>) -> Map<u32, Seq<char>>;

/// No transactions.
pub open spec fn no_transactions() -> Map<Seq<char>, Transaction> {
    Map::empty()
}

/// No message ids.
pub open spec fn no_ids() -> Map<u32, Seq<char>> {
    Map::empty()
}

/// `DashMap::new`: an empty table.
#[verifier::external_body]
pub(crate) fn new_transactions() -> (table: DashMap<String, TransactionEntry>)
    ensures
        transactions_in(table) == no_transactions(),
{
    DashMap::new()
}

/// `DashMap::insert`: puts a transaction under a key, in place of the one that stood there.
#[verifier::external_body]
pub(crate) fn put_transaction(
    table: &mut DashMap<String, TransactionEntry>,
    key: String,
    entry: TransactionEntry,
)
    ensures
        transactions_in(*final(table)) == transactions_in(*old(table)).insert(key@, entry@),
{
    table.insert(key, entry);
}

/// `DashMap::get`: a copy of the transaction under a key, if there is one.
#[verifier::external_body]
pub(crate) fn get_transaction(table: &DashMap<String, TransactionEntry>, key: &str) -> (entry:
    Option<TransactionEntry>)
    ensures
        entry is Some <==> transactions_in(*table).contains_key(key@),
        entry matches Some(e) ==> e@ == transactions_in(*table)[key@],
{
    match table.get(key) {
        Some(entry) => Some(entry.value().clone()),
        None => None,
    }
}

/// `DashMap::remove`: takes the transaction under a key out of the table, if there is one.
#[verifier::external_body]
pub(crate) fn take_transaction(table: &mut DashMap<String, TransactionEntry>, key: &str) -> (entry:
    Option<TransactionEntry>)
    ensures
        entry is Some <==> transactions_in(*old(table)).contains_key(key@),
        entry matches Some(e) ==> e@ == transactions_in(*old(table))[key@],
        transactions_in(*final(table)) == transactions_in(*old(table)).remove(key@),
{
    match table.remove(key) {
        Some((_, entry)) => Some(entry),
        None => None,
    }
}

/// `DashMap::len`: how many transactions there are.
#[verifier::external_body]
pub(crate) fn transactions_len(table: &DashMap<String, TransactionEntry>) -> (len: usize)
    ensures
        len == transactions_in(*table).len(),
{
    table.len()
}

/// Whether pairs are the contents of a map, each key once, in any order.
pub open spec fn lists_transactions(
    pairs: Seq<(String, TransactionEntry)>,
    contents: Map<Seq<char>, Transaction>,
) -> bool {
    &&& forall|i: int|
        0 <= i < pairs.len() ==> contents.contains_key((#[trigger] pairs[i]).0@)
            && contents[pairs[i].0@] == pairs[i].1@
    &&& forall|i: int, j: int|
        0 <= i < j < pairs.len() ==> (#[trigger] pairs[i]).0@ != (#[trigger] pairs[j]).0@
    &&& forall|key: Seq<char>| #[trigger]
        contents.contains_key(key) ==> exists|i: int|
            0 <= i < pairs.len() && (#[trigger] pairs[i]).0@ == key
}

/// `DashMap::iter`: copies of all keys and transactions, in an order that is not known.
#[verifier::external_body]
pub(crate) fn list_transactions(table: &DashMap<String, TransactionEntry>) -> (pairs: Vec<
    (String, TransactionEntry),
>)
    ensures
        lists_transactions(pairs@, transactions_in(*table)),
{
    table.iter().map(|pair| (pair.key().clone(), pair.value().clone())).collect()
}

/// `DashMap::new`: an empty table.
#[verifier::external_body]
pub(crate) fn new_ids() -> (table: DashMap<u32, String>)
    ensures
        ids_in(table) == no_ids(),
{
    DashMap::new()
}

/// `DashMap::insert`: puts a message id under a sequence number, in place of the one that stood
/// there.
#[verifier::external_body]
pub(crate) fn put_id(table: &mut DashMap<u32, String>, sequence_id: u32, id: String)
    ensures
        ids_in(*final(table)) == ids_in(*old(table)).insert(sequence_id, id@),
{
    table.insert(sequence_id, id);
}

/// `DashMap::remove`: takes the message id under a sequence number out of the table.
#[verifier::external_body]
pub(crate) fn take_id(table: &mut DashMap<u32, String>, sequence_id: u32)
    ensures
        ids_in(*final(table)) == ids_in(*old(table)).remove(sequence_id),
{
    table.remove(&sequence_id);
}

/// Whether texts are the values of a map, in any order.
pub open spec fn lists_ids(ids: Seq<String>, contents: Map<u32, Seq<char>>) -> bool {
    &&& forall|i: int|
        0 <= i < ids.len() ==> exists|sequence_id: u32| #[trigger]
            contents.contains_key(sequence_id) && contents[sequence_id] == (#[trigger] ids[i])@
    &&& forall|sequence_id: u32| #[trigger]
        contents.contains_key(sequence_id) ==> exists|i: int|
            0 <= i < ids.len() && (#[trigger] ids[i])@ == contents[sequence_id]
}

/// `DashMap::iter`: copies of all message ids, in an order that is not known.
#[verifier::external_body]
pub(crate) fn list_ids(table: &DashMap<u32, String>) -> (ids: Vec<String>)
    ensures
        lists_ids(ids@, ids_in(*table)),
{
    table.iter().map(|pair| pair.value().clone()).collect()
}

} // verus!
