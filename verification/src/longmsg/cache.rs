//! Segments put aside under a key, until they are fetched or forgotten.

use crate::clock;
use crate::longmsg::frame::{LongMessageFrame, Segment};
use crate::longmsg::merge;
use crate::longmsg::split;
use crate::text;
use std::time::Instant;
use vstd::prelude::*;
use vstd::string::*;

verus! {

/// Segments put aside under a key.
pub trait FrameCache: Send + Sync {
    fn put(&mut self, key: &str, frame: LongMessageFrame);

    fn get(&self, key: &str) -> Option<Vec<LongMessageFrame>>;

    fn remove(&mut self, key: &str);

    fn cleanup(&mut self);
}

/// The segments under a key, in the order in which they came, and when the last one came.
#[verifier::ext_equal]
pub struct Cached {
    pub segments: Seq<Segment>,
    pub last_update: u128,
}

/// A cache as a mathematical value. Times are nanoseconds on the cache's clock.
#[verifier::ext_equal]
pub struct CacheState {
    pub contents: Map<Seq<char>, Cached>,
    pub ttl: int,
}

impl CacheState {
    /// With a segment behind the others under its key.
    pub open spec fn put(self, key: Seq<char>, segment: Segment, now: u128) -> CacheState {
        let before = if self.contents.contains_key(key) {
            self.contents[key].segments
        } else {
            Seq::empty()
        };
        CacheState {
            contents: self.contents.insert(
                key,
                Cached { segments: before.push(segment), last_update: now },
            ),
            ttl: self.ttl,
        }
    }

    /// Without what stands under a key.
    pub open spec fn removed(self, key: Seq<char>) -> CacheState {
        CacheState { contents: self.contents.remove(key), ttl: self.ttl }
    }

    /// Whether the last segment under a key came too long ago.
    pub open spec fn stale(self, key: Seq<char>, now: u128) -> bool {
        merge::time_between(self.contents[key].last_update, now) >= self.ttl
    }

    /// Without the keys whose last segments came too long ago.
    pub open spec fn cleaned(self, now: u128) -> CacheState {
        CacheState {
            contents: self.contents.restrict(
                Set::new(
                    |key: Seq<char>| self.contents.contains_key(key) && !self.stale(key, now),
                ),
            ),
            ttl: self.ttl,
        }
    }
}

#[derive(Debug)]
struct CacheEntry {
    key: String,
    frames: Vec<LongMessageFrame>,
    last_update: u128,
}

impl CacheEntry {
    spec fn cached(&self) -> Cached {
        Cached { segments: split::views(self.frames@), last_update: self.last_update }
    }
}

spec fn has_key(entries: Seq<CacheEntry>, key: Seq<char>) -> bool {
    exists|i: int| 0 <= i < entries.len() && (#[trigger] entries[i]).key@ == key
}

spec fn contents_of(entries: Seq<CacheEntry>) -> Map<Seq<char>, Cached> {
    Map::new(
        |key: Seq<char>| has_key(entries, key),
        |key: Seq<char>|
            entries[choose|i: int|
                0 <= i < entries.len() && (#[trigger] entries[i]).key@ == key].cached(),
    )
}

spec fn keys_differ(entries: Seq<CacheEntry>) -> bool {
    forall|i: int, j: int|
        0 <= i < j < entries.len() ==> (#[trigger] entries[i]).key@ != (#[trigger] entries[j]).key@
}

proof fn lemma_at(entries: Seq<CacheEntry>, i: int)
    requires
        keys_differ(entries),
        0 <= i < entries.len(),
    ensures
        contents_of(entries).contains_key(entries[i].key@),
        contents_of(entries)[entries[i].key@] == entries[i].cached(),
{
    let key = entries[i].key@;
    assert(has_key(entries, key));
    let found = choose|j: int| 0 <= j < entries.len() && (#[trigger] entries[j]).key@ == key;
    if found < i {
        assert(entries[found].key@ != entries[i].key@);
    } else if i < found {
        assert(entries[i].key@ != entries[found].key@);
    }
}

proof fn lemma_push(entries: Seq<CacheEntry>, entry: CacheEntry)
    requires
        keys_differ(entries),
        !has_key(entries, entry.key@),
    ensures
        keys_differ(entries.push(entry)),
        contents_of(entries.push(entry)) == contents_of(entries).insert(
            entry.key@,
            entry.cached(),
        ),
{
    let more = entries.push(entry);
    assert forall|i: int, j: int| 0 <= i < j < more.len() implies (#[trigger] more[i]).key@ != (
    #[trigger] more[j]).key@ by {
        assert(more[i] == entries[i]);
        if j < entries.len() {
            assert(more[j] == entries[j]);
        }
    }
    assert forall|key: Seq<char>| has_key(more, key) == (has_key(entries, key) || key
        == entry.key@) by {
        if has_key(entries, key) {
            let i = choose|i: int| 0 <= i < entries.len() && (#[trigger] entries[i]).key@ == key;
            assert(more[i].key@ == key);
        }
        assert(more[entries.len() as int].key@ == entry.key@);
    }
    assert forall|key: Seq<char>| has_key(more, key) implies contents_of(more)[key] == contents_of(
        entries,
    ).insert(entry.key@, entry.cached())[key] by {
        let i = choose|i: int| 0 <= i < more.len() && (#[trigger] more[i]).key@ == key;
        lemma_at(more, i);
        if i < entries.len() {
            assert(entries[i].key@ == key);
            lemma_at(entries, i);
        }
    }
    assert(contents_of(more) =~= contents_of(entries).insert(entry.key@, entry.cached()));
}

proof fn lemma_update(entries: Seq<CacheEntry>, i: int, entry: CacheEntry)
    requires
        keys_differ(entries),
        0 <= i < entries.len(),
        entries[i].key@ == entry.key@,
    ensures
        keys_differ(entries.update(i, entry)),
        contents_of(entries.update(i, entry)) == contents_of(entries).insert(
            entry.key@,
            entry.cached(),
        ),
{
    let other = entries.update(i, entry);
    assert forall|a: int| 0 <= a < other.len() implies (#[trigger] other[a]).key@
        == entries[a].key@ by {
    }
    assert forall|a: int, b: int| 0 <= a < b < other.len() implies (#[trigger] other[a]).key@ != (
    #[trigger] other[b]).key@ by {
        assert(entries[a].key@ != entries[b].key@);
    }
    assert forall|key: Seq<char>| has_key(other, key) == (has_key(entries, key)) by {
        if has_key(entries, key) {
            let a = choose|a: int| 0 <= a < entries.len() && (#[trigger] entries[a]).key@ == key;
            assert(other[a].key@ == key);
        }
        if has_key(other, key) {
            let a = choose|a: int| 0 <= a < other.len() && (#[trigger] other[a]).key@ == key;
            assert(entries[a].key@ == key);
        }
    }
    assert(has_key(entries, entry.key@));
    assert forall|key: Seq<char>| has_key(other, key) implies contents_of(other)[key]
        == contents_of(entries).insert(entry.key@, entry.cached())[key] by {
        let a = choose|a: int| 0 <= a < other.len() && (#[trigger] other[a]).key@ == key;
        lemma_at(other, a);
        lemma_at(entries, a);
        if a != i && key == entry.key@ {
            if a < i {
                assert(entries[a].key@ != entries[i].key@);
            } else {
                assert(entries[i].key@ != entries[a].key@);
            }
        }
    }
    assert(contents_of(other) =~= contents_of(entries).insert(entry.key@, entry.cached()));
}

proof fn lemma_remove(entries: Seq<CacheEntry>, i: int)
    requires
        keys_differ(entries),
        0 <= i < entries.len(),
    ensures
        keys_differ(entries.remove(i)),
        contents_of(entries.remove(i)) == contents_of(entries).remove(entries[i].key@),
{
    let left = entries.remove(i);
    let gone = entries[i].key@;
    assert forall|a: int, b: int| 0 <= a < b < left.len() implies (#[trigger] left[a]).key@ != (
    #[trigger] left[b]).key@ by {
        let c = if a < i {
            a
        } else {
            a + 1
        };
        let d = if b < i {
            b
        } else {
            b + 1
        };
        assert(entries[c].key@ != entries[d].key@);
    }
    assert forall|key: Seq<char>| has_key(left, key) == (has_key(entries, key) && key != gone) by {
        if has_key(left, key) {
            let a = choose|a: int| 0 <= a < left.len() && (#[trigger] left[a]).key@ == key;
            let c = if a < i {
                a
            } else {
                a + 1
            };
            assert(entries[c].key@ == key);
            if c < i {
                assert(entries[c].key@ != entries[i].key@);
            } else {
                assert(entries[i].key@ != entries[c].key@);
            }
        }
        if has_key(entries, key) && key != gone {
            let c = choose|c: int| 0 <= c < entries.len() && (#[trigger] entries[c]).key@ == key;
            let a = if c < i {
                c
            } else {
                c - 1
            };
            assert(left[a].key@ == key);
        }
    }
    assert forall|key: Seq<char>| has_key(left, key) implies contents_of(left)[key] == contents_of(
        entries,
    )[key] by {
        let a = choose|a: int| 0 <= a < left.len() && (#[trigger] left[a]).key@ == key;
        let c = if a < i {
            a
        } else {
            a + 1
        };
        assert(entries[c] == left[a]);
        lemma_at(left, a);
        lemma_at(entries, c);
    }
    assert(contents_of(left) =~= contents_of(entries).remove(gone));
}

/// Segments put aside in memory. What got no new segment for too long is forgotten when the
/// cache is cleaned up.
#[derive(Debug)]
pub struct InMemoryFrameCache {
    entries: Vec<CacheEntry>,
    ttl: u128,
    epoch: Instant,
}

impl View for InMemoryFrameCache {
    type V = CacheState;

    closed spec fn view(&self) -> CacheState {
        CacheState { contents: contents_of(self.entries@), ttl: self.ttl as int }
    }
}

impl InMemoryFrameCache {
    #[verifier::type_invariant]
    spec fn inv(self) -> bool {
        keys_differ(self.entries@)
    }

    /// The reading of the clock that the cache's times count from.
    pub closed spec fn started(&self) -> Instant {
        self.epoch
    }

    /// An empty cache that keeps segments for that many seconds.
    pub fn new(ttl_secs: u64) -> (cache: Self)
        ensures
            cache@ == (CacheState {
                contents: Map::empty(),
                ttl: ttl_secs * 1_000_000_000,
            }),
    {
        let cache = InMemoryFrameCache {
            entries: Vec::new(),
            ttl: ttl_secs as u128 * 1_000_000_000,
            epoch: clock::now(),
        };
        assert(contents_of(cache.entries@) =~= Map::empty());
        cache
    }

    /// The time on the cache's clock, which starts with the cache.
    fn reading(&self) -> (now: u128)
        ensures
            clock::is_time_since(self.started(), now),
    {
        clock::nanos_since(&self.epoch)
    }

    fn find(&self, key: &str) -> (at: Option<usize>)
        ensures
            match at {
                Some(i) => i < self.entries@.len() && self.entries@[i as int].key@ == key@,
                None => !has_key(self.entries@, key@),
            },
    {
        let mut i: usize = 0;
        while i < self.entries.len()
            invariant
                i <= self.entries@.len(),
                forall|j: int| 0 <= j < i ==> (#[trigger] self.entries@[j]).key@ != key@,
            decreases self.entries@.len() - i,
        {
            if text::same_text(self.entries[i].key.as_str(), key) {
                return Some(i);
            }
            i = i + 1;
        }
        None
    }

    /// Puts a segment aside at a time on the cache's clock.
    pub fn put_at(&mut self, key: &str, frame: LongMessageFrame, now: u128)
        ensures
            final(self)@ == old(self)@.put(key@, frame@, now),
            final(self).started() == old(self).started(),
    {
        proof {
            use_type_invariant(&*self);
        }
        let ghost before = self.entries@;
        let at = self.find(key);
        let mut entries: Vec<CacheEntry> = Vec::new();
        std::mem::swap(&mut entries, &mut self.entries);
        let mut frames: Vec<LongMessageFrame> = Vec::new();
        match at {
            Some(i) => {
                proof {
                    lemma_at(before, i as int);
                }
                let ghost old_frames = before[i as int].frames@;
                let mut j: usize = 0;
                assert(split::views(frames@) =~= split::views(old_frames).take(0));
                while j < entries[i].frames.len()
                    invariant
                        i < entries@.len(),
                        entries@ == before,
                        old_frames == before[i as int].frames@,
                        j <= old_frames.len(),
                        split::views(frames@) == split::views(old_frames).take(j as int),
                    decreases old_frames.len() - j,
                {
                    let ghost so_far = split::views(frames@);
                    frames.push(entries[i].frames[j].clone());
                    assert(split::views(frames@) =~= so_far.push(old_frames[j as int]@));
                    assert(split::views(old_frames).take(j + 1) =~= split::views(old_frames).take(
                        j as int,
                    ).push(old_frames[j as int]@));
                    j = j + 1;
                }
                assert(split::views(old_frames).take(j as int) =~= split::views(old_frames));
                let ghost so_far = split::views(frames@);
                frames.push(frame);
                assert(split::views(frames@) =~= so_far.push(frame@));
                let entry = CacheEntry { key: key.to_owned(), frames, last_update: now };
                proof {
                    lemma_update(before, i as int, entry);
                }
                entries.set(i, entry);
            },
            None => {
                frames.push(frame);
                assert(split::views(frames@) =~= Seq::empty().push(frame@));
                let entry = CacheEntry { key: key.to_owned(), frames, last_update: now };
                proof {
                    lemma_push(before, entry);
                }
                entries.push(entry);
            },
        }
        self.entries = entries;
    }

    /// Forgets what got no new segment for too long, at a time on the cache's clock.
    pub fn cleanup_at(&mut self, now: u128)
        ensures
            final(self)@ == old(self)@.cleaned(now),
            final(self).started() == old(self).started(),
    {
        proof {
            use_type_invariant(&*self);
        }
        let ghost start = self@;
        let mut entries: Vec<CacheEntry> = Vec::new();
        std::mem::swap(&mut entries, &mut self.entries);
        let ttl: u128 = self.ttl;
        let mut i: usize = 0;
        while i < entries.len()
            invariant
                i <= entries@.len(),
                keys_differ(entries@),
                ttl == start.ttl,
                forall|key: Seq<char>| #[trigger]
                    contents_of(entries@).contains_key(key) ==> start.contents.contains_key(key)
                        && contents_of(entries@)[key] == start.contents[key],
                forall|key: Seq<char>| #[trigger]
                    start.contents.contains_key(key) && !contents_of(entries@).contains_key(key)
                        ==> start.stale(key, now),
                forall|j: int|
                    0 <= j < i ==> !start.stale((#[trigger] entries@[j]).key@, now),
            decreases entries@.len() - i,
        {
            let last: u128 = entries[i].last_update;
            let age: u128 = if now > last { now - last } else { 0 };
            proof {
                lemma_at(entries@, i as int);
            }
            if age >= ttl {
                proof {
                    lemma_remove(entries@, i as int);
                }
                let ghost before = entries@;
                let gone = entries.remove(i);
                assert forall|j: int| 0 <= j < i implies !start.stale(
                    (#[trigger] entries@[j]).key@,
                    now,
                ) by {
                    assert(entries@[j] == before[j]);
                }
            } else {
                i = i + 1;
            }
        }
        proof {
            assert forall|key: Seq<char>| contents_of(entries@).contains_key(key) == start.cleaned(
                now,
            ).contents.contains_key(key) by {
                if contents_of(entries@).contains_key(key) {
                    let j = choose|j: int|
                        0 <= j < entries@.len() && (#[trigger] entries@[j]).key@ == key;
                    assert(!start.stale(entries@[j].key@, now));
                }
            }
            assert(contents_of(entries@) =~= start.cleaned(now).contents);
        }
        self.entries = entries;
    }
}

impl Default for InMemoryFrameCache {
    /// Segments are kept for five minutes.
    fn default() -> (cache: Self)
        ensures
            cache@ == (CacheState { contents: Map::empty(), ttl: 300_000_000_000 }),
    {
        Self::new(300)
    }
}

impl FrameCache for InMemoryFrameCache {
    /// Puts a segment aside, behind the others under its key.
    fn put(&mut self, key: &str, frame: LongMessageFrame)
        ensures
            exists|now: u128|
                clock::is_time_since(old(self).started(), now) && final(self)@
                    == #[trigger] old(self)@.put(key@, frame@, now),
            final(self).started() == old(self).started(),
    {
        let now: u128 = self.reading();
        self.put_at(key, frame, now);
    }

    /// The segments under a key, in the order in which they came.
    fn get(&self, key: &str) -> (frames: Option<Vec<LongMessageFrame>>)
        ensures
            frames is Some <==> self@.contents.contains_key(key@),
            frames matches Some(f) ==> split::views(f@) == self@.contents[key@].segments,
    {
        proof {
            use_type_invariant(self);
        }
        match self.find(key) {
            Some(i) => {
                proof {
                    lemma_at(self.entries@, i as int);
                }
                let ghost all = self.entries@[i as int].frames@;
                let mut frames: Vec<LongMessageFrame> = Vec::new();
                let mut j: usize = 0;
                assert(split::views(frames@) =~= split::views(all).take(0));
                while j < self.entries[i].frames.len()
                    invariant
                        i < self.entries@.len(),
                        all == self.entries@[i as int].frames@,
                        j <= all.len(),
                        split::views(frames@) == split::views(all).take(j as int),
                    decreases all.len() - j,
                {
                    let ghost so_far = split::views(frames@);
                    frames.push(self.entries[i].frames[j].clone());
                    assert(split::views(frames@) =~= so_far.push(all[j as int]@));
                    assert(split::views(all).take(j + 1) =~= split::views(all).take(j as int).push(
                        all[j as int]@,
                    ));
                    j = j + 1;
                }
                assert(split::views(all).take(j as int) =~= split::views(all));
                Some(frames)
            },
            None => None,
        }
    }

    /// Forgets what stands under a key.
    fn remove(&mut self, key: &str)
        ensures
            final(self)@ == old(self)@.removed(key@),
            final(self).started() == old(self).started(),
    {
        proof {
            use_type_invariant(&*self);
        }
        let ghost before = self.entries@;
        let at = self.find(key);
        let mut entries: Vec<CacheEntry> = Vec::new();
        std::mem::swap(&mut entries, &mut self.entries);
        match at {
            Some(i) => {
                proof {
                    lemma_remove(before, i as int);
                }
                let gone = entries.remove(i);
            },
            None => {
                assert(contents_of(before) =~= contents_of(before).remove(key@));
            },
        }
        self.entries = entries;
    }

    /// Forgets what got no new segment for too long.
    fn cleanup(&mut self)
        ensures
            exists|now: u128|
                clock::is_time_since(old(self).started(), now) && final(self)@
                    == #[trigger] old(self)@.cleaned(now),
            final(self).started() == old(self).started(),
    {
        let now: u128 = self.reading();
        self.cleanup_at(now);
    }
}

/// What is put aside is there, behind what was there before, and other keys are not touched.
pub proof fn law_put_then_get(state: CacheState, key: Seq<char>, segment: Segment, now: u128)
    ensures
        state.put(key, segment, now).contents.contains_key(key),
        state.put(key, segment, now).contents[key].segments.last() == segment,
        state.contents.contains_key(key) ==> state.put(key, segment, now).contents[key].segments
            == state.contents[key].segments.push(segment),
        forall|other: Seq<char>|
            other != key && #[trigger] state.contents.contains_key(other) ==> state.put(
                key,
                segment,
                now,
            ).contents.contains_key(other) && state.put(key, segment, now).contents[other]
                == state.contents[other],
{
}

/// What got a segment within the time is still there after a cleaning.
pub proof fn law_fresh_survives(
    state: CacheState,
    key: Seq<char>,
    segment: Segment,
    earlier: u128,
    now: u128,
)
    requires
        merge::time_between(earlier, now) < state.ttl,
    ensures
        state.put(key, segment, earlier).cleaned(now).contents.contains_key(key),
{
}

/// The first segment under a key stands alone, every segment makes its key count as touched now, and
/// what is removed is gone, and nothing else.
pub proof fn law_put_and_removed(
    state: CacheState,
    key: Seq<char>,
    segment: Segment,
    now: u128,
    other: Seq<char>,
)
    ensures
        !state.contents.contains_key(key) ==> state.put(key, segment, now).contents[key].segments
            == seq![segment],
        state.put(key, segment, now).contents[key].last_update == now,
        state.put(key, segment, now).ttl == state.ttl,
        state.removed(key).contents.contains_key(other) <==> state.contents.contains_key(other)
            && other != key,
        state.removed(key).contents.contains_key(other) ==> state.removed(key).contents[other]
            == state.contents[other],
        state.removed(key).ttl == state.ttl,
{
    assert(Seq::<Segment>::empty().push(segment) =~= seq![segment]);
}

/// A key stays as long as its time has not passed since its last segment came, and is forgotten
/// from then on.
pub proof fn law_forgotten_in_time(state: CacheState, key: Seq<char>, now: u128)
    requires
        state.contents.contains_key(key),
        state.ttl > 0,
    ensures
        state.cleaned(now).contents.contains_key(key) <==> now < state.contents[key].last_update
            + state.ttl,
        state.cleaned(now).contents.contains_key(key) ==> state.cleaned(now).contents[key]
            == state.contents[key],
        state.cleaned(now).ttl == state.ttl,
{
}

} // verus!
