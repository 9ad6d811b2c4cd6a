//! Numbers that count up from 1.

use crate::id_generator::IdGenerator;
use vstd::prelude::*;

verus! {

/// Counts messages and requests, from 1 on. After the largest number comes 0.
#[derive(Debug)]
pub struct SimpleIdGenerator {
    msg_id_counter: u64,
    sequence_id_counter: u32,
}

/// The numbers that come next.
pub struct NextIds {
    pub msg_id: u64,
    pub sequence_id: u32,
}

impl View for SimpleIdGenerator {
    type V = NextIds;

    closed spec fn view(&self) -> NextIds {
        NextIds { msg_id: self.msg_id_counter, sequence_id: self.sequence_id_counter }
    }
}

impl NextIds {
    /// After a message has got its id.
    pub open spec fn after_msg_id(self) -> NextIds {
        NextIds {
            msg_id: if self.msg_id == u64::MAX {
                0
            } else {
                (self.msg_id + 1) as u64
            },
            sequence_id: self.sequence_id,
        }
    }

    /// After a request has got its number.
    pub open spec fn after_sequence_id(self) -> NextIds {
        NextIds {
            msg_id: self.msg_id,
            sequence_id: if self.sequence_id == u32::MAX {
                0
            } else {
                (self.sequence_id + 1) as u32
            },
        }
    }
}

impl SimpleIdGenerator {
    pub fn new() -> (ids: Self)
        ensures
            ids@ == (NextIds { msg_id: 1, sequence_id: 1 }),
    {
        SimpleIdGenerator { msg_id_counter: 1, sequence_id_counter: 1 }
    }
}

impl Default for SimpleIdGenerator {
    fn default() -> (ids: Self)
        ensures
            ids@ == (NextIds { msg_id: 1, sequence_id: 1 }),
    {
        Self::new()
    }
}

impl IdGenerator for SimpleIdGenerator {
    fn next_msg_id(&mut self) -> (id: u64)
        ensures
            id == old(self)@.msg_id,
            final(self)@ == old(self)@.after_msg_id(),
    {
        let id: u64 = self.msg_id_counter;
        self.msg_id_counter = if id == u64::MAX { 0 } else { id + 1 };
        id
    }

    fn next_sequence_id(&mut self) -> (id: u32)
        ensures
            id == old(self)@.sequence_id,
            final(self)@ == old(self)@.after_sequence_id(),
    {
        let id: u32 = self.sequence_id_counter;
        self.sequence_id_counter = if id == u32::MAX { 0 } else { id + 1 };
        id
    }
}

/// The sequence number that comes up `n` requests later.
pub open spec fn nth_sequence_id(ids: NextIds, n: nat) -> u32
    decreases n,
{
    if n == 0 {
        ids.sequence_id
    } else {
        nth_sequence_id(ids.after_sequence_id(), (n - 1) as nat)
    }
}

proof fn lemma_nth_sequence_id(ids: NextIds, n: nat)
    ensures
        nth_sequence_id(ids, n) as int == (ids.sequence_id + n) % 0x1_0000_0000,
    decreases n,
{
    if n > 0 {
        lemma_nth_sequence_id(ids.after_sequence_id(), (n - 1) as nat);
        if ids.sequence_id == u32::MAX {
            let a = n - 1;
            assert((a + 0x1_0000_0000) % 0x1_0000_0000 == a % 0x1_0000_0000) by {
                vstd::arithmetic::div_mod::lemma_mod_add_multiples_vanish(a, 0x1_0000_0000);
            }
        }
    }
}

/// Requests have different sequence numbers unless four thousand million lie between them, so
/// responses find their requests.
pub proof fn law_sequence_ids_differ(ids: NextIds, m: nat, n: nat)
    requires
        m < n,
        n - m < 0x1_0000_0000,
    ensures
        nth_sequence_id(ids, m) != nth_sequence_id(ids, n),
{
    lemma_nth_sequence_id(ids, m);
    lemma_nth_sequence_id(ids, n);
    let a = ids.sequence_id + m;
    let d = n - m;
    if a % 0x1_0000_0000 == (a + d) % 0x1_0000_0000 {
        vstd::arithmetic::div_mod::lemma_fundamental_div_mod(a, 0x1_0000_0000);
        vstd::arithmetic::div_mod::lemma_fundamental_div_mod(a + d, 0x1_0000_0000);
    }
}

/// Numbers count up by one, each in its own row, and start again at 0.
pub proof fn law_counting_up(ids: NextIds)
    ensures
        ids.after_msg_id().msg_id as int == (ids.msg_id + 1) % 0x1_0000_0000_0000_0000,
        ids.after_msg_id().sequence_id == ids.sequence_id,
        ids.after_sequence_id().sequence_id as int == (ids.sequence_id + 1) % 0x1_0000_0000,
        ids.after_sequence_id().msg_id == ids.msg_id,
{
}

} // verus!
