//! Merging the segments of long messages.

use crate::clock;
use crate::error::RsmsError;
use crate::longmsg::frame::{LongMessageFrame, Segment, UdhParser};
use crate::longmsg::segment_bitmap;
use crate::longmsg::segment_bitmap::SegmentBitmap;
use crate::longmsg::split;
use crate::longmsg::split::SmsAlphabet;
use crate::text;
use std::time::{Duration, Instant};
use vstd::prelude::*;
use vstd::string::*;

verus! {

/// What the segments of one long message have in common: who sent it, its reference and its
/// number of segments. References are short and every sender counts for itself, so that two
/// senders often use the same one.
pub struct GroupKey {
    pub sender: Seq<char>,
    pub reference_id: u16,
    pub total_segments: u8,
}

/// The segments of a long message that have arrived, in the order of arrival, and the time of
/// the first one.
#[verifier::ext_equal]
pub struct Group {
    pub segments: Seq<Segment>,
    pub created_at: u128,
}

/// A merger as a mathematical value. Times are nanoseconds on the merger's clock.
#[verifier::ext_equal]
pub struct MergerState {
    pub groups: Map<GroupKey, Group>,
    pub ttl: u128,
    pub last_cleanup: u128,
}

/// The time from one reading to a later one.
pub open spec fn time_between(earlier: u128, later: u128) -> int {
    if later > earlier {
        later - earlier
    } else {
        0
    }
}

/// The key of a segment from a sender.
pub open spec fn key_of(sender: Seq<char>, segment: Segment) -> GroupKey {
    GroupKey {
        sender,
        reference_id: segment.reference_id,
        total_segments: segment.total_segments,
    }
}

/// Whether one of the segments has this number.
pub open spec fn has_number(segments: Seq<Segment>, number: u8) -> bool {
    exists|i: int| 0 <= i < segments.len() && (#[trigger] segments[i]).segment_number == number
}

/// The segment with this number.
pub open spec fn numbered(segments: Seq<Segment>, number: u8) -> Segment {
    segments[choose|i: int|
        0 <= i < segments.len() && (#[trigger] segments[i]).segment_number == number]
}

/// The segments with numbers below `bound`, by number.
pub open spec fn in_order(segments: Seq<Segment>, bound: nat) -> Seq<Segment>
    decreases bound,
{
    if bound == 0 {
        Seq::empty()
    } else if has_number(segments, (bound - 1) as u8) {
        in_order(segments, (bound - 1) as nat).push(numbered(segments, (bound - 1) as u8))
    } else {
        in_order(segments, (bound - 1) as nat)
    }
}

impl MergerState {
    /// Whether a group has been waiting for longer than the limit.
    pub open spec fn is_expired(self, key: GroupKey, now: u128) -> bool {
        time_between(self.groups[key].created_at, now) > self.ttl
    }

    /// Without the groups that have been waiting for too long.
    pub open spec fn cleaned(self, now: u128) -> MergerState {
        MergerState {
            groups: self.groups.restrict(
                Set::new(|key: GroupKey| self.groups.contains_key(key) && !self.is_expired(key, now)),
            ),
            ttl: self.ttl,
            last_cleanup: now,
        }
    }

    /// Cleaned, if the last cleaning is long enough ago.
    pub open spec fn maybe_cleaned(self, now: u128) -> MergerState {
        if time_between(self.last_cleanup, now) >= self.ttl {
            self.cleaned(now)
        } else {
            self
        }
    }

    /// The group of a key, empty if nothing has arrived for it.
    pub open spec fn group(self, key: GroupKey, now: u128) -> Group {
        if self.groups.contains_key(key) {
            self.groups[key]
        } else {
            Group { segments: Seq::empty(), created_at: now }
        }
    }

    /// With a segment put to its group. Complete groups leave.
    pub open spec fn put(self, key: GroupKey, segment: Segment, now: u128) -> MergerState {
        let group = self.group(key, now);
        let more = Group {
            segments: group.segments.push(segment),
            created_at: group.created_at,
        };
        if has_number(group.segments, segment.segment_number) {
            self
        } else if more.segments.len() >= key.total_segments {
            MergerState { groups: self.groups.remove(key), ..self }
        } else {
            MergerState { groups: self.groups.insert(key, more), ..self }
        }
    }

    /// The message that a segment completes.
    pub open spec fn completed(self, key: GroupKey, segment: Segment, now: u128) -> Option<Seq<u8>> {
        let segments = self.group(key, now).segments;
        if has_number(segments, segment.segment_number) {
            None
        } else if segments.len() + 1 >= key.total_segments {
            Some(split::joined(in_order(segments.push(segment), 256)))
        } else {
            None
        }
    }

    /// Whether a segment is a whole message.
    pub open spec fn is_whole(segment: Segment) -> bool {
        segment.total_segments == 1 && !segment.has_udhi
    }

    /// After a segment has come in.
    pub open spec fn after(self, sender: Seq<char>, segment: Segment, now: u128) -> MergerState {
        let state = self.maybe_cleaned(now);
        if Self::is_whole(segment) {
            state
        } else {
            state.put(key_of(sender, segment), segment, now)
        }
    }

    /// The message that comes out when a segment comes in.
    pub open spec fn output(self, sender: Seq<char>, segment: Segment, now: u128) -> Option<
        Seq<u8>,
    > {
        if Self::is_whole(segment) {
            Some(segment.content)
        } else {
            self.maybe_cleaned(now).completed(key_of(sender, segment), segment, now)
        }
    }

    /// Every group waits for more segments than it has, and has no segment twice.
    pub open spec fn wf(self) -> bool {
        forall|key: GroupKey| #[trigger]
            self.groups.contains_key(key) ==> {
                &&& self.groups[key].segments.len() < key.total_segments
                &&& forall|i: int, j: int|
                    0 <= i < j < self.groups[key].segments.len()
                        ==> self.groups[key].segments[i].segment_number
                        != self.groups[key].segments[j].segment_number
            }
    }
}

/// The segments of a long message that have arrived.
#[derive(Debug)]
struct PendingEntry {
    sender: String,
    reference_id: u16,
    total_segments: u8,
    frames: Vec<LongMessageFrame>,
    bitmap: SegmentBitmap,
    created_at: u128,
}

impl PendingEntry {
    spec fn key(&self) -> GroupKey {
        GroupKey {
            sender: self.sender@,
            reference_id: self.reference_id,
            total_segments: self.total_segments,
        }
    }

    spec fn group(&self) -> Group {
        Group { segments: split::views(self.frames@), created_at: self.created_at }
    }

    spec fn wf(&self) -> bool {
        let segments = split::views(self.frames@);
        &&& self.bitmap.total() == self.total_segments
        &&& self.bitmap.received().len() == segments.len()
        &&& forall|n: u8| #[trigger]
            self.bitmap.received().contains(n) <==> has_number(segments, n)
        &&& forall|i: int, j: int|
            0 <= i < j < segments.len() ==> segments[i].segment_number
                != segments[j].segment_number
    }

    fn new(sender: &str, reference_id: u16, total_segments: u8, now: u128) -> (entry: Self)
        ensures
            entry.wf(),
            entry.key() == (GroupKey { sender: sender@, reference_id, total_segments }),
            entry.group() == (Group { segments: Seq::empty(), created_at: now }),
    {
        let entry = PendingEntry {
            sender: sender.to_owned(),
            reference_id,
            total_segments,
            frames: Vec::new(),
            bitmap: SegmentBitmap::new(total_segments),
            created_at: now,
        };
        assert(split::views(entry.frames@) =~= Seq::<Segment>::empty());
        entry
    }

    fn is_expired(&self, ttl: u128, now: u128) -> (yes: bool)
        ensures
            yes == (time_between(self.created_at, now) > ttl),
    {
        now > self.created_at && now - self.created_at > ttl
    }

    /// Adds a segment unless one with its number is there. Says whether it was added.
    fn add_frame(&mut self, frame: LongMessageFrame) -> (added: bool)
        requires
            old(self).wf(),
        ensures
            final(self).wf(),
            final(self).key() == old(self).key(),
            added == !has_number(old(self).group().segments, frame.segment_number),
            final(self).group() == (if added {
                Group {
                    segments: old(self).group().segments.push(frame@),
                    created_at: old(self).group().created_at,
                }
            } else {
                old(self).group()
            }),
    {
        if self.bitmap.is_received(frame.segment_number) {
            return false;
        }
        let ghost before = split::views(self.frames@);
        let ghost number = frame.segment_number;
        let ghost added = frame@;
        self.bitmap.mark_received(frame.segment_number);
        self.frames.push(frame);
        proof {
            segment_bitmap::lemma_finite(old(self).bitmap.received(), 256);
            let after = split::views(self.frames@);
            assert(after =~= before.push(added));
            assert forall|n: u8| #[trigger]
                self.bitmap.received().contains(n) <==> has_number(after, n) by {
                if has_number(before, n) {
                    let i = choose|i: int|
                        0 <= i < before.len() && (#[trigger] before[i]).segment_number == n;
                    assert(after[i].segment_number == n);
                }
                if n == number {
                    assert(after[before.len() as int].segment_number == n);
                }
                if has_number(after, n) {
                    let i = choose|i: int|
                        0 <= i < after.len() && (#[trigger] after[i]).segment_number == n;
                    if i < before.len() {
                        assert(before[i].segment_number == n);
                    }
                }
            }
            assert forall|i: int, j: int| 0 <= i < j < after.len() implies after[i].segment_number
                != after[j].segment_number by {
                if j == before.len() {
                    assert(before[i].segment_number != number);
                }
            }
        }
        true
    }

    fn is_complete(&self) -> (yes: bool)
        requires
            self.wf(),
        ensures
            yes == (self.group().segments.len() >= self.total_segments),
    {
        self.bitmap.is_complete()
    }

    /// The message of the segments, by number.
    fn join(&self) -> (message: Vec<u8>)
        requires
            self.wf(),
        ensures
            message@ == split::joined(in_order(self.group().segments, 256)),
    {
        let ghost segments = split::views(self.frames@);
        let mut message: Vec<u8> = Vec::new();
        let mut n: u16 = 0;
        while n < 256
            invariant
                n <= 256,
                segments == split::views(self.frames@),
                self.wf(),
                message@ == split::joined(in_order(segments, n as nat)),
            decreases 256 - n,
        {
            let number: u8 = n as u8;
            let mut i: usize = 0;
            while i < self.frames.len() && self.frames[i].segment_number != number
                invariant
                    i <= self.frames@.len(),
                    segments == split::views(self.frames@),
                    forall|j: int| 0 <= j < i ==> (#[trigger] segments[j]).segment_number != number,
                decreases self.frames@.len() - i,
            {
                i = i + 1;
            }
            if i < self.frames.len() {
                let payload = UdhParser::strip_udh(self.frames[i].content.as_slice());
                proof {
                    assert(segments[i as int].segment_number == number);
                    let found = choose|j: int|
                        0 <= j < segments.len() && (#[trigger] segments[j]).segment_number
                            == number;
                    assert(found == i);
                    let order = in_order(segments, (n + 1) as nat);
                    assert(order.drop_last() =~= in_order(segments, n as nat));
                }
                message.extend_from_slice(payload.as_slice());
                assert(message@ =~= split::joined(in_order(segments, (n + 1) as nat)));
            }
            n = n + 1;
        }
        message
    }
}

/// Whether one of the entries has this key.
spec fn has_key(entries: Seq<PendingEntry>, key: GroupKey) -> bool {
    exists|i: int| 0 <= i < entries.len() && (#[trigger] entries[i]).key() == key
}

/// The entries by key.
spec fn groups_of(entries: Seq<PendingEntry>) -> Map<GroupKey, Group> {
    Map::new(
        |key: GroupKey| has_key(entries, key),
        |key: GroupKey|
            entries[choose|i: int| 0 <= i < entries.len() && (#[trigger] entries[i]).key() == key].group(),
    )
}

/// Each entry is well formed, waits for more, and has a key of its own.
spec fn entries_wf(entries: Seq<PendingEntry>) -> bool {
    &&& forall|i: int| 0 <= i < entries.len() ==> (#[trigger] entries[i]).wf()
    &&& forall|i: int|
        0 <= i < entries.len() ==> (#[trigger] entries[i]).group().segments.len()
            < entries[i].total_segments
    &&& forall|i: int, j: int|
        0 <= i < j < entries.len() ==> (#[trigger] entries[i]).key() != (
        #[trigger] entries[j]).key()
}

proof fn lemma_group_at(entries: Seq<PendingEntry>, i: int)
    requires
        entries_wf(entries),
        0 <= i < entries.len(),
    ensures
        groups_of(entries).contains_key(entries[i].key()),
        groups_of(entries)[entries[i].key()] == entries[i].group(),
{
    let key = entries[i].key();
    assert(has_key(entries, key));
    let found = choose|j: int| 0 <= j < entries.len() && (#[trigger] entries[j]).key() == key;
    if found < i {
        assert(entries[found].key() != entries[i].key());
    } else if i < found {
        assert(entries[i].key() != entries[found].key());
    }
}

proof fn lemma_groups_remove(entries: Seq<PendingEntry>, i: int)
    requires
        entries_wf(entries),
        0 <= i < entries.len(),
    ensures
        ({
            let left = entries.update(i, entries.last()).drop_last();
            &&& entries_wf(left)
            &&& groups_of(left) == groups_of(entries).remove(entries[i].key())
        }),
{
    let left = entries.update(i, entries.last()).drop_last();
    assert forall|a: int, b: int| 0 <= a < b < left.len() implies (#[trigger] left[a]).key() != (
    #[trigger] left[b]).key() by {
        let a2 = if a == i {
            entries.len() - 1
        } else {
            a
        };
        let b2 = if b == i {
            entries.len() - 1
        } else {
            b
        };
        assert(left[a] == entries[a2] && left[b] == entries[b2]);
        if a2 < b2 {
            assert(entries[a2].key() != entries[b2].key());
        } else {
            assert(entries[b2].key() != entries[a2].key());
        }
    }
    assert(entries_wf(left)) by {
        assert forall|a: int| 0 <= a < left.len() implies (#[trigger] left[a]).wf() && left[a].group().segments.len()
            < left[a].total_segments by {
            let a2 = if a == i {
                entries.len() - 1
            } else {
                a
            };
            assert(left[a] == entries[a2]);
        }
    }
    let gone = entries[i].key();
    assert forall|key: GroupKey| #[trigger]
        groups_of(left).contains_key(key) == groups_of(entries).remove(gone).contains_key(key)
            && (groups_of(left).contains_key(key) ==> groups_of(left)[key] == groups_of(
            entries,
        )[key]) by {
        if has_key(left, key) {
            let a = choose|a: int| 0 <= a < left.len() && (#[trigger] left[a]).key() == key;
            let a2 = if a == i {
                entries.len() - 1
            } else {
                a
            };
            assert(left[a] == entries[a2]);
            lemma_group_at(left, a);
            lemma_group_at(entries, a2);
            if a2 < i {
                assert(entries[a2].key() != entries[i].key());
            } else {
                assert(entries[i].key() != entries[a2].key());
            }
        }
        if has_key(entries, key) && key != gone {
            let a = choose|a: int| 0 <= a < entries.len() && (#[trigger] entries[a]).key() == key;
            let a2 = if a == entries.len() - 1 {
                i
            } else {
                a
            };
            assert(left[a2] == entries[a]);
            assert(left[a2].key() == key);
        }
    }
    assert(groups_of(left) =~= groups_of(entries).remove(gone));
}

proof fn lemma_groups_push(entries: Seq<PendingEntry>, entry: PendingEntry)
    requires
        entries_wf(entries),
        entry.wf(),
        entry.group().segments.len() < entry.total_segments,
        !groups_of(entries).contains_key(entry.key()),
    ensures
        entries_wf(entries.push(entry)),
        groups_of(entries.push(entry)) == groups_of(entries).insert(entry.key(), entry.group()),
{
    let more = entries.push(entry);
    assert forall|a: int, b: int| 0 <= a < b < more.len() implies (#[trigger] more[a]).key() != (
    #[trigger] more[b]).key() by {
        assert(more[a] == entries[a]);
        if b == entries.len() {
            lemma_group_at(entries, a);
        } else {
            assert(more[b] == entries[b]);
        }
    }
    assert(entries_wf(more));
    assert forall|key: GroupKey| #[trigger]
        groups_of(more).contains_key(key) == groups_of(entries).insert(
            entry.key(),
            entry.group(),
        ).contains_key(key) && (groups_of(more).contains_key(key) ==> groups_of(more)[key]
            == groups_of(entries).insert(entry.key(), entry.group())[key]) by {
        if has_key(more, key) {
            let a = choose|a: int| 0 <= a < more.len() && (#[trigger] more[a]).key() == key;
            lemma_group_at(more, a);
            if a < entries.len() {
                assert(entries[a].key() == key);
                lemma_group_at(entries, a);
            }
        }
        if has_key(entries, key) {
            let a = choose|a: int| 0 <= a < entries.len() && (#[trigger] entries[a]).key() == key;
            assert(more[a].key() == key);
        }
        if key == entry.key() {
            assert(more[entries.len() as int].key() == key);
        }
    }
    assert(groups_of(more) =~= groups_of(entries).insert(entry.key(), entry.group()));
}

/// Collects the segments of long messages and gives out each message when it is complete.
///
/// A message that never becomes complete is dropped some time after its first segment. That
/// happens when a segment comes in and the last cleaning is at least the waiting time ago, so
/// that the merger stays bounded.
#[derive(Debug)]
pub struct LongMessageMerger {
    pending: Vec<PendingEntry>,
    ttl: u128,
    last_cleanup: u128,
    epoch: Instant,
}

impl View for LongMessageMerger {
    type V = MergerState;

    closed spec fn view(&self) -> MergerState {
        MergerState {
            groups: groups_of(self.pending@),
            ttl: self.ttl,
            last_cleanup: self.last_cleanup,
        }
    }
}

impl LongMessageMerger {
    #[verifier::type_invariant]
    spec fn inv(self) -> bool {
        entries_wf(self.pending@)
    }

    /// The reading of the clock that the merger's times count from.
    pub closed spec fn started(&self) -> Instant {
        self.epoch
    }

    /// A merger that lets incomplete messages wait for 60 seconds.
    pub fn new() -> (merger: Self)
        ensures
            merger@ == (MergerState {
                groups: Map::empty(),
                ttl: 60_000_000_000,
                last_cleanup: 0,
            }),
    {
        Self::with_ttl(clock::from_secs(60))
    }

    /// A merger that lets incomplete messages wait for the given time.
    pub fn with_ttl(ttl: Duration) -> (merger: Self)
        ensures
            merger@ == (MergerState {
                groups: Map::empty(),
                ttl: clock::duration_nanos(ttl),
                last_cleanup: 0,
            }),
    {
        let merger = LongMessageMerger {
            pending: Vec::new(),
            ttl: clock::as_nanos(ttl),
            last_cleanup: 0,
            epoch: clock::now(),
        };
        assert(groups_of(merger.pending@) =~= Map::<GroupKey, Group>::empty());
        merger
    }

    /// The time on the merger's clock, which starts with the merger.
    fn reading(&self) -> (now: u128)
        ensures
            clock::is_time_since(self.started(), now),
    {
        clock::nanos_since(&self.epoch)
    }

    /// Drops the messages that have been incomplete for too long.
    pub fn cleanup_expired(&mut self)
        ensures
            exists|now: u128|
                clock::is_time_since(old(self).started(), now) && final(self)@
                    == #[trigger] old(self)@.cleaned(now),
            final(self).started() == old(self).started(),
    {
        let now: u128 = self.reading();
        self.cleanup_expired_at(now);
    }

    /// Drops the messages that have been incomplete for too long at a time on the merger's
    /// clock.
    pub fn cleanup_expired_at(&mut self, now: u128)
        ensures
            final(self)@ == old(self)@.cleaned(now),
            final(self).started() == old(self).started(),
    {
        proof {
            use_type_invariant(&*self);
        }
        let ghost start = self@;
        let mut entries: Vec<PendingEntry> = Vec::new();
        std::mem::swap(&mut entries, &mut self.pending);
        let ttl: u128 = self.ttl;
        let mut i: usize = 0;
        while i < entries.len()
            invariant
                i <= entries@.len(),
                entries_wf(entries@),
                ttl == start.ttl,
                forall|key: GroupKey| #[trigger]
                    groups_of(entries@).contains_key(key) ==> start.groups.contains_key(key)
                        && groups_of(entries@)[key] == start.groups[key],
                forall|key: GroupKey| #[trigger]
                    start.groups.contains_key(key) && !start.is_expired(key, now) ==> groups_of(
                        entries@,
                    ).contains_key(key),
                forall|j: int|
                    0 <= j < i ==> time_between((#[trigger] entries@[j]).created_at, now) <= ttl,
            decreases entries@.len() - i,
        {
            proof {
                lemma_group_at(entries@, i as int);
            }
            if entries[i].is_expired(ttl, now) {
                proof {
                    lemma_groups_remove(entries@, i as int);
                }
                entries.swap_remove(i);
            } else {
                i = i + 1;
            }
        }
        proof {
            assert forall|key: GroupKey| #[trigger]
                groups_of(entries@).contains_key(key) == start.cleaned(now).groups.contains_key(
                    key,
                ) && (groups_of(entries@).contains_key(key) ==> groups_of(entries@)[key]
                    == start.cleaned(now).groups[key]) by {
                if groups_of(entries@).contains_key(key) {
                    let j = choose|j: int|
                        0 <= j < entries@.len() && (#[trigger] entries@[j]).key() == key;
                    lemma_group_at(entries@, j);
                }
            }
            assert(groups_of(entries@) =~= start.cleaned(now).groups);
        }
        self.pending = entries;
        self.last_cleanup = now;
    }

    /// Puts a segment from a sender to the others of its message. Gives out the message when
    /// the segment completes it, or when it is a whole message by itself.
    pub fn add_frame(&mut self, sender: &str, frame: LongMessageFrame) -> (res: Result<
        Option<Vec<u8>>,
        RsmsError,
    >)
        ensures
            exists|now: u128|
                clock::is_time_since(old(self).started(), now) && final(self)@
                    == #[trigger] old(self)@.after(sender@, frame@, now) && (res matches Ok(message)
                    && match message {
                    Some(bytes) => old(self)@.output(sender@, frame@, now) == Some(bytes@),
                    None => old(self)@.output(sender@, frame@, now) is None,
                }),
            final(self).started() == old(self).started(),
    {
        let now: u128 = self.reading();
        Ok(self.add_frame_at(sender, frame, now))
    }

    /// Puts a segment to the others of its message at a time on the merger's clock.
    pub fn add_frame_at(&mut self, sender: &str, frame: LongMessageFrame, now: u128) -> (message:
        Option<Vec<u8>>)
        ensures
            final(self)@ == old(self)@.after(sender@, frame@, now),
            match message {
                Some(bytes) => old(self)@.output(sender@, frame@, now) == Some(bytes@),
                None => old(self)@.output(sender@, frame@, now) is None,
            },
            final(self).started() == old(self).started(),
    {
        if now > self.last_cleanup && now - self.last_cleanup >= self.ttl {
            self.cleanup_expired_at(now);
        } else if self.ttl == 0 {
            self.cleanup_expired_at(now);
        }
        let ghost state = old(self)@.maybe_cleaned(now);
        assert(self@ == state);
        if frame.total_segments == 1 && !frame.has_udhi {
            return Some(frame.content);
        }
        proof {
            use_type_invariant(&*self);
        }
        let ghost key = key_of(sender@, frame@);
        let ghost segment = frame@;
        let mut entries: Vec<PendingEntry> = Vec::new();
        std::mem::swap(&mut entries, &mut self.pending);
        let mut i: usize = 0;
        while i < entries.len() && !(entries[i].reference_id == frame.reference_id
            && entries[i].total_segments == frame.total_segments && text::same_text(
            entries[i].sender.as_str(),
            sender,
        ))
            invariant
                i <= entries@.len(),
                key == key_of(sender@, frame@),
                forall|j: int| 0 <= j < i ==> (#[trigger] entries@[j]).key() != key,
            decreases entries@.len() - i,
        {
            i = i + 1;
        }
        let found: bool = i < entries.len();
        let mut entry: PendingEntry = if found {
            proof {
                lemma_group_at(entries@, i as int);
                lemma_groups_remove(entries@, i as int);
            }
            entries.swap_remove(i)
        } else {
            assert(!has_key(entries@, key));
            PendingEntry::new(sender, frame.reference_id, frame.total_segments, now)
        };
        proof {
            assert(entry.key() == key);
            assert(entry.group() == state.group(key, now));
            assert(groups_of(entries@) == state.groups.remove(key));
        }
        let added: bool = entry.add_frame(frame);
        let complete: bool = entry.is_complete();
        if added && complete {
            let message = entry.join();
            self.pending = entries;
            return Some(message);
        }
        proof {
            lemma_groups_push(entries@, entry);
            assert(state.groups.remove(key).insert(key, entry.group()) =~= state.groups.insert(
                key,
                entry.group(),
            ));
            if !added {
                assert(state.groups.insert(key, entry.group()) =~= state.groups);
            }
        }
        entries.push(entry);
        self.pending = entries;
        None
    }

    /// How many messages are incomplete.
    pub fn pending_count(&self) -> (count: usize)
        ensures
            count == self@.groups.len(),
    {
        proof {
            use_type_invariant(self);
            lemma_count(self.pending@);
        }
        self.pending.len()
    }

    /// Drops all incomplete messages.
    pub fn clear(&mut self)
        ensures
            final(self)@ == (MergerState { groups: Map::empty(), ..old(self)@ }),
            final(self).started() == old(self).started(),
    {
        self.pending = Vec::new();
        assert(groups_of(self.pending@) =~= Map::<GroupKey, Group>::empty());
    }

    /// Sets how long incomplete messages wait.
    pub fn set_ttl(&mut self, ttl: Duration)
        ensures
            final(self)@ == (MergerState { ttl: clock::duration_nanos(ttl), ..old(self)@ }),
            final(self).started() == old(self).started(),
    {
        proof {
            use_type_invariant(&*self);
        }
        self.ttl = clock::as_nanos(ttl);
    }
}

impl Default for LongMessageMerger {
    fn default() -> (merger: Self)
        ensures
            merger@ == (MergerState {
                groups: Map::empty(),
                ttl: 60_000_000_000,
                last_cleanup: 0,
            }),
    {
        LongMessageMerger::new()
    }
}

proof fn lemma_count(entries: Seq<PendingEntry>)
    requires
        entries_wf(entries),
    ensures
        groups_of(entries).dom().finite(),
        groups_of(entries).len() == entries.len(),
    decreases entries.len(),
{
    if entries.len() == 0 {
        assert(groups_of(entries).dom() =~= Set::<GroupKey>::empty());
    } else {
        let rest = entries.drop_last();
        lemma_groups_remove(entries, entries.len() - 1);
        assert(entries.update(entries.len() - 1, entries.last()).drop_last() =~= rest);
        lemma_count(rest);
        lemma_group_at(entries, entries.len() - 1);
        let key = entries.last().key();
        assert(groups_of(entries).dom() =~= groups_of(rest).dom().insert(key));
    }
}

/// What a segment does to the groups, apart from the cleaning that it may set off, it does to
/// the group of its own sender, reference and number of segments; the groups of other senders
/// stay as they are.
pub proof fn law_groups_apart(
    state: MergerState,
    sender: Seq<char>,
    segment: Segment,
    now: u128,
    other: GroupKey,
)
    requires
        other != key_of(sender, segment),
    ensures
        state.after(sender, segment, now).groups.contains_key(other) == state.maybe_cleaned(
            now,
        ).groups.contains_key(other),
        state.after(sender, segment, now).groups[other] == state.maybe_cleaned(now).groups[other],
{
}

/// What comes out for a segment depends on the group of its own sender, reference and number of
/// segments alone.
pub proof fn law_output_from_own_group(
    a: MergerState,
    b: MergerState,
    sender: Seq<char>,
    segment: Segment,
    now: u128,
)
    requires
        a.maybe_cleaned(now).group(key_of(sender, segment), now) == b.maybe_cleaned(now).group(
            key_of(sender, segment),
            now,
        ),
    ensures
        a.output(sender, segment, now) == b.output(sender, segment, now),
{
}

/// A segment whose number has arrived already changes nothing and gives out nothing.
pub proof fn law_duplicate_ignored(
    state: MergerState,
    sender: Seq<char>,
    segment: Segment,
    now: u128,
)
    requires
        !MergerState::is_whole(segment),
        has_number(
            state.maybe_cleaned(now).group(key_of(sender, segment), now).segments,
            segment.segment_number,
        ),
    ensures
        state.output(sender, segment, now) is None,
        state.after(sender, segment, now) == state.maybe_cleaned(now),
{
}

/// No group ever has all of its segments, nor one of them twice.
pub proof fn law_groups_incomplete(
    state: MergerState,
    sender: Seq<char>,
    segment: Segment,
    now: u128,
)
    requires
        state.wf(),
    ensures
        state.cleaned(now).wf(),
        state.after(sender, segment, now).wf(),
{
    let clean = state.maybe_cleaned(now);
    let key = key_of(sender, segment);
    let after = state.after(sender, segment, now);
    assert(clean.wf());
    assert forall|k: GroupKey| #[trigger] after.groups.contains_key(k) implies {
        &&& after.groups[k].segments.len() < k.total_segments
        &&& forall|i: int, j: int|
            0 <= i < j < after.groups[k].segments.len() ==> after.groups[k].segments[i].segment_number
                != after.groups[k].segments[j].segment_number
    } by {
        if k == key && !MergerState::is_whole(segment) && !has_number(
            clean.group(key, now).segments,
            segment.segment_number,
        ) {
            let before = clean.group(key, now).segments;
            let more = after.groups[k].segments;
            if clean.groups.contains_key(key) {
                assert(before == clean.groups[key].segments);
            }
            assert(more == before.push(segment));
            assert forall|i: int, j: int| 0 <= i < j < more.len() implies more[i].segment_number
                != more[j].segment_number by {
                if j == before.len() {
                    assert(before[i].segment_number != segment.segment_number);
                }
            }
        } else {
            assert(clean.groups.contains_key(k));
            assert(after.groups[k] == clean.groups[k]);
        }
    }
}

/// Cleaning drops every group that has waited for longer than the limit, and no other.
pub proof fn law_cleaning(state: MergerState, now: u128, key: GroupKey)
    ensures
        state.cleaned(now).groups.contains_key(key) <==> state.groups.contains_key(key)
            && !state.is_expired(key, now),
        state.cleaned(now).groups.contains_key(key) ==> state.cleaned(now).groups[key]
            == state.groups[key],
{
}

/// A merger after the first `n` of a series of segments from one sender.
pub open spec fn run(
    state: MergerState,
    sender: Seq<char>,
    segments: Seq<Segment>,
    times: Seq<u128>,
    n: nat,
) -> MergerState
    decreases n,
{
    if n == 0 {
        state
    } else {
        run(state, sender, segments, times, (n - 1) as nat).after(
            sender,
            segments[n - 1],
            times[n - 1],
        )
    }
}

/// The numbers from 0 up to below `n`, each once, in any order.
pub open spec fn is_order(order: Seq<int>, n: nat) -> bool {
    &&& order.len() == n
    &&& forall|k: int| 0 <= k < n ==> 0 <= #[trigger] order[k] < n
    &&& forall|j: int, k: int| 0 <= j < k < n ==> order[j] != order[k]
    &&& forall|i: int| 0 <= i < n ==> #[trigger] order.contains(i)
}

/// The segments of a message in the order in which they arrive.
pub open spec fn arrivals(segments: Seq<Segment>, order: Seq<int>) -> Seq<Segment> {
    Seq::new(order.len(), |k: int| segments[order[k]])
}

proof fn lemma_in_order(segments: Seq<Segment>, order: Seq<int>, bound: nat)
    requires
        is_order(order, segments.len()),
        segments.len() <= 255,
        forall|i: int|
            0 <= i < segments.len() ==> (#[trigger] segments[i]).segment_number == i + 1,
        1 <= bound <= 256,
    ensures
        in_order(arrivals(segments, order), bound) == segments.take(
            if bound - 1 < segments.len() {
                bound - 1
            } else {
                segments.len() as int
            },
        ),
    decreases bound,
{
    let arrived = arrivals(segments, order);
    let number = (bound - 1) as u8;
    if has_number(arrived, number) {
        let k = choose|k: int| 0 <= k < arrived.len() && (#[trigger] arrived[k]).segment_number
            == number;
        assert(numbered(arrived, number) == segments[order[k]]);
        assert(segments[order[k]].segment_number == order[k] + 1);
    } else if 1 <= number <= segments.len() {
        assert(order.contains(number - 1));
        let k = order.index_of(number - 1);
        assert(arrived[k].segment_number == number);
    }
    if bound == 1 {
        assert(in_order(arrived, 0) =~= segments.take(0));
        assert(!has_number(arrived, 0));
    } else {
        lemma_in_order(segments, order, (bound - 1) as nat);
        if number <= segments.len() {
            assert(segments.take(number as int) =~= segments.take(number - 1).push(
                segments[number - 1],
            ));
        }
    }
}

proof fn lemma_run(
    state: MergerState,
    sender: Seq<char>,
    segments: Seq<Segment>,
    order: Seq<int>,
    times: Seq<u128>,
    key: GroupKey,
    k: nat,
)
    requires
        is_order(order, segments.len()),
        2 <= segments.len() <= 255,
        forall|i: int|
            0 <= i < segments.len() ==> {
                &&& (#[trigger] segments[i]).segment_number == i + 1
                &&& segments[i].has_udhi
                &&& key_of(sender, segments[i]) == key
            },
        key.total_segments == segments.len(),
        !state.groups.contains_key(key),
        times.len() == segments.len(),
        forall|i: int|
            0 <= i < times.len() ==> time_between(times[0], #[trigger] times[i]) <= state.ttl,
        k < segments.len(),
    ensures
        ({
            let arrived = arrivals(segments, order);
            let now = run(state, sender, arrived, times, k);
            &&& now.ttl == state.ttl
            &&& k == 0 ==> !now.groups.contains_key(key)
            &&& k > 0 ==> now.groups.contains_key(key) && now.groups[key] == (Group {
                segments: arrived.take(k as int),
                created_at: times[0],
            })
            &&& !has_number(
                now.maybe_cleaned(times[k as int]).group(key, times[k as int]).segments,
                arrived[k as int].segment_number,
            )
            &&& now.maybe_cleaned(times[k as int]).group(key, times[k as int]).segments
                == arrived.take(k as int)
        }),
    decreases k,
{
    let arrived = arrivals(segments, order);
    let now = run(state, sender, arrived, times, k);
    if k > 0 {
        lemma_run(state, sender, segments, order, times, key, (k - 1) as nat);
        let before = run(state, sender, arrived, times, (k - 1) as nat);
        let at = times[k - 1];
        assert(arrived[k - 1] == segments[order[k - 1]]);
        assert(key_of(sender, arrived[k - 1]) == key);
        assert(now == before.maybe_cleaned(at).put(key, arrived[k - 1], at));
        assert(arrived.take(k - 1).push(arrived[k - 1]) =~= arrived.take(k as int));
        assert(time_between(times[0], times[k - 1]) <= state.ttl);
    }
    assert(time_between(times[0], times[k as int]) <= state.ttl);
    let group = now.maybe_cleaned(times[k as int]).group(key, times[k as int]);
    assert(group.segments =~= arrived.take(k as int));
    let number = arrived[k as int].segment_number;
    assert(number == order[k as int] + 1) by {
        assert(arrived[k as int] == segments[order[k as int]]);
    }
    if has_number(group.segments, number) {
        let j = choose|j: int|
            0 <= j < group.segments.len() && (#[trigger] group.segments[j]).segment_number
                == number;
        assert(group.segments[j] == segments[order[j]]);
        assert(order[j] != order[k as int]);
    }
}

/// The segments of a long message of at most 255 segments, put to a merger in any order, each
/// within the waiting time of the first, give out nothing until the last one has arrived, and
/// then the message; nothing of it is left waiting.
pub proof fn law_split_then_merge(
    state: MergerState,
    sender: Seq<char>,
    content: Seq<u8>,
    alphabet: SmsAlphabet,
    reference: u16,
    order: Seq<int>,
    times: Seq<u128>,
    k: nat,
)
    requires
        content.len() > split::segment_limit(alphabet),
        split::piece_count(content.len(), split::piece_size(alphabet, reference)) <= 255,
        is_order(order, split::segments(content, alphabet, reference).len()),
        times.len() == order.len(),
        forall|i: int|
            0 <= i < times.len() ==> time_between(times[0], #[trigger] times[i]) <= state.ttl,
        !state.groups.contains_key(
            GroupKey {
                sender,
                reference_id: reference,
                total_segments: split::total_of(content, alphabet, reference),
            },
        ),
        k < order.len(),
    ensures
        ({
            let arrived = arrivals(split::segments(content, alphabet, reference), order);
            let key = GroupKey {
                sender,
                reference_id: reference,
                total_segments: split::total_of(content, alphabet, reference),
            };
            &&& run(state, sender, arrived, times, k).output(
                sender,
                arrived[k as int],
                times[k as int],
            ) == (if k + 1 == order.len() {
                Some(content)
            } else {
                None
            })
            &&& !run(state, sender, arrived, times, order.len()).groups.contains_key(key)
        }),
{
    let segments = split::segments(content, alphabet, reference);
    let total = split::total_of(content, alphabet, reference);
    let key = GroupKey { sender, reference_id: reference, total_segments: total };
    let arrived = arrivals(segments, order);
    split::law_long_message_is_split(content, alphabet, reference);
    assert forall|i: int| 0 <= i < segments.len() implies {
        &&& (#[trigger] segments[i]).segment_number == i + 1
        &&& segments[i].has_udhi
        &&& key_of(sender, segments[i]) == key
    } by {
        split::law_segments_numbered(content, alphabet, reference, i);
    }
    lemma_run(state, sender, segments, order, times, key, k);
    let n = segments.len();
    lemma_run(state, sender, segments, order, times, key, (n - 1) as nat);
    assert(arrived.take(n - 1).push(arrived[n - 1]) =~= arrived);
    assert(arrived[k as int] == segments[order[k as int]]);
    assert(arrived[n - 1] == segments[order[n - 1]]);
    assert(key_of(sender, arrived[n - 1]) == key);
    assert(key_of(sender, arrived[k as int]) == key);
    if k + 1 == order.len() {
        lemma_in_order(segments, order, 256);
        assert(segments.take(n as int) =~= segments);
        split::law_split_then_join(content, alphabet, reference);
    }
}

/// What a group is known by: who sent it, the reference and the number of segments.
pub proof fn law_key(sender: Seq<char>, segment: Segment)
    ensures
        key_of(sender, segment).sender == sender,
        key_of(sender, segment).reference_id == segment.reference_id,
        key_of(sender, segment).total_segments == segment.total_segments,
{
}

/// A group stays as long as its waiting time has not passed since its first segment. Cleaning
/// happens when the waiting time has passed since the last cleaning, and changes nothing else.
pub proof fn law_waiting_time(state: MergerState, now: u128, key: GroupKey)
    ensures
        state.cleaned(now).groups.contains_key(key) <==> state.groups.contains_key(key) && now
            <= state.groups[key].created_at + state.ttl,
        state.cleaned(now).last_cleanup == now,
        state.cleaned(now).ttl == state.ttl,
        now >= state.last_cleanup + state.ttl ==> state.maybe_cleaned(now) == state.cleaned(now),
        now < state.last_cleanup + state.ttl && state.ttl > 0 ==> state.maybe_cleaned(now) == state,
{
}

/// A segment that is a whole message comes out at once, and nothing is kept of it.
pub proof fn law_whole_message(state: MergerState, sender: Seq<char>, segment: Segment, now: u128)
    requires
        segment.total_segments == 1,
        !segment.has_udhi,
    ensures
        state.output(sender, segment, now) == Some(segment.content),
        state.after(sender, segment, now) == state.maybe_cleaned(now),
{
}

/// A segment that does not complete its message waits behind those that came before it, and nothing
/// comes out. The message waits from its first segment on.
pub proof fn law_segment_waits(state: MergerState, sender: Seq<char>, segment: Segment, now: u128)
    requires
        segment.total_segments != 1 || segment.has_udhi,
    ensures
        ({
            let clean = state.maybe_cleaned(now);
            let key = GroupKey {
                sender,
                reference_id: segment.reference_id,
                total_segments: segment.total_segments,
            };
            let after = state.after(sender, segment, now);
            &&& !clean.groups.contains_key(key) && segment.total_segments > 1 ==> {
                &&& state.output(sender, segment, now) is None
                &&& after.groups.contains_key(key)
                &&& after.groups[key].segments == seq![segment]
                &&& after.groups[key].created_at == now
            }
            &&& clean.groups.contains_key(key) && (forall|i: int|
                0 <= i < clean.groups[key].segments.len() ==> (
                #[trigger] clean.groups[key].segments[i]).segment_number != segment.segment_number)
                && clean.groups[key].segments.len() + 1 < segment.total_segments ==> {
                &&& state.output(sender, segment, now) is None
                &&& after.groups.contains_key(key)
                &&& after.groups[key].segments == clean.groups[key].segments.push(segment)
                &&& after.groups[key].created_at == clean.groups[key].created_at
            }
        }),
{
    let clean = state.maybe_cleaned(now);
    let key = key_of(sender, segment);
    let group = clean.group(key, now);
    assert(group.segments.push(segment).len() == group.segments.len() + 1);
    if !clean.groups.contains_key(key) {
        assert(Seq::<Segment>::empty().push(segment) =~= seq![segment]);
    }
}

/// The segment that completes its message takes the message out of the merger, and what comes out
/// is what the segments hold, by their numbers.
pub proof fn law_last_segment(state: MergerState, sender: Seq<char>, segment: Segment, now: u128)
    requires
        segment.total_segments != 1 || segment.has_udhi,
    ensures
        ({
            let clean = state.maybe_cleaned(now);
            let key = GroupKey {
                sender,
                reference_id: segment.reference_id,
                total_segments: segment.total_segments,
            };
            clean.groups.contains_key(key) && (forall|i: int|
                0 <= i < clean.groups[key].segments.len() ==> (
                #[trigger] clean.groups[key].segments[i]).segment_number != segment.segment_number)
                && clean.groups[key].segments.len() + 1 >= segment.total_segments ==> {
                &&& !state.after(sender, segment, now).groups.contains_key(key)
                &&& state.output(sender, segment, now) == Some(
                    split::joined(in_order(clean.groups[key].segments.push(segment), 256)),
                )
            }
        }),
{
}

/// Segments by number: those below the bound, each number once, the smaller one first.
pub proof fn law_by_number(segments: Seq<Segment>, bound: nat)
    requires
        bound <= 256,
    ensures
        forall|i: int, j: int|
            0 <= i < j < in_order(segments, bound).len() ==> (#[trigger] in_order(
                segments,
                bound,
            )[i]).segment_number < (#[trigger] in_order(segments, bound)[j]).segment_number,
        forall|i: int|
            0 <= i < in_order(segments, bound).len() ==> segments.contains(
                #[trigger] in_order(segments, bound)[i],
            ) && in_order(segments, bound)[i].segment_number < bound,
        forall|i: int|
            0 <= i < segments.len() && (#[trigger] segments[i]).segment_number < bound
                ==> has_number(in_order(segments, bound), segments[i].segment_number),
    decreases bound,
{
    if bound > 0 {
        law_by_number(segments, (bound - 1) as nat);
        let front = in_order(segments, (bound - 1) as nat);
        let number = (bound - 1) as u8;
        let all = in_order(segments, bound);
        if has_number(segments, number) {
            assert(all == front.push(numbered(segments, number)));
            assert(all.last().segment_number == number);
            assert(segments.contains(all.last()));
        }
        assert forall|i: int|
            0 <= i < segments.len() && (#[trigger] segments[i]).segment_number
                < bound implies has_number(all, segments[i].segment_number) by {
            if segments[i].segment_number < bound - 1 {
                assert(has_number(front, segments[i].segment_number));
                let k = choose|k: int|
                    0 <= k < front.len() && (#[trigger] front[k]).segment_number
                        == segments[i].segment_number;
                assert(all[k] == front[k]);
            } else {
                assert(has_number(segments, number));
                assert(all[all.len() - 1].segment_number == segments[i].segment_number);
            }
        }
        assert forall|i: int, j: int| 0 <= i < j < all.len() implies (
        #[trigger] all[i]).segment_number < (#[trigger] all[j]).segment_number by {
            if j < front.len() {
                assert(all[i] == front[i] && all[j] == front[j]);
            } else {
                assert(all[i] == front[i]);
            }
        }
        assert forall|i: int| 0 <= i < all.len() implies segments.contains(#[trigger] all[i])
            && all[i].segment_number < bound by {
            if i < front.len() {
                assert(all[i] == front[i]);
            }
        }
    }
}

} // verus!
