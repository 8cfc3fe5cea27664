//! Client-side suppression of updates that were delivered before.
//!
//! Block-scoped updates are identified by their session and sequence number. The keys of a
//! bounded number of heights are remembered; the oldest height is forgotten first.

use crate::buffer::{bytes_contents, bytes_equal};
use crate::event::{block_height, spec_block_height};
use crate::proto::SubscribeUpdate;
use bytes::Bytes;
use std::collections::{HashMap, VecDeque};
use vstd::prelude::*;

verus! {

/// Number of block heights retained for reconnect duplicate detection.
pub const DEFAULT_HEIGHT_RETENTION: usize = 250;

/// What identifies an update: its session and its sequence number.
pub type KeyView = (Seq<u8>, u64);

/// The remembered keys of one height.
pub struct HeightView {
    pub height: u32,
    pub keys: Seq<KeyView>,
}

/// Whether a key is remembered at one of the heights.
pub open spec fn remembered(heights: Seq<HeightView>, key: KeyView) -> bool {
    exists|i: int| 0 <= i < heights.len() && (#[trigger] heights[i]).keys.contains(key)
}

/// Whether a height has keys.
pub open spec fn has_height(heights: Seq<HeightView>, height: u32) -> bool {
    exists|i: int| 0 <= i < heights.len() && (#[trigger] heights[i]).height == height
}

/// The position of a height.
pub open spec fn height_position(heights: Seq<HeightView>, height: u32) -> int {
    choose|i: int| 0 <= i < heights.len() && (#[trigger] heights[i]).height == height
}

/// The heights with one more key.
pub open spec fn with_key(heights: Seq<HeightView>, height: u32, key: KeyView) -> Seq<HeightView> {
    if has_height(heights, height) {
        let position = height_position(heights, height);
        heights.update(
            position,
            HeightView { height, keys: heights[position].keys.push(key) },
        )
    } else {
        heights.push(HeightView { height, keys: seq![key] })
    }
}

/// The newest heights, as many as are retained.
pub open spec fn retained(heights: Seq<HeightView>, retention: usize) -> Seq<HeightView> {
    if heights.len() > retention {
        heights.skip(heights.len() - retention)
    } else {
        heights
    }
}

/// The heights after an update was observed.
pub open spec fn observed(
    heights: Seq<HeightView>,
    height: u32,
    key: KeyView,
    retention: usize,
) -> Seq<HeightView> {
    if remembered(heights, key) {
        heights
    } else {
        retained(with_key(heights, height, key), retention)
    }
}

/// The key of an update.
pub open spec fn key_of(update: SubscribeUpdate) -> KeyView {
    (bytes_contents(update.session_id), update.sequence)
}

/// The block height that an update belongs to.
pub fn update_height(update: &SubscribeUpdate) -> (height: Option<u32>)
    ensures
        height == spec_block_height(*update),
{
    block_height(update)
}

/// A set of keys.
struct KeySet {
    sessions: HashMap<u64, Vec<Bytes>>,
}

/// Whether a list of sessions holds one.
spec fn lists(sessions: Seq<Bytes>, session: Seq<u8>) -> bool {
    exists|i: int| 0 <= i < sessions.len() && bytes_contents(#[trigger] sessions[i]) == session
}

impl View for KeySet {
    type V = Set<KeyView>;

    closed spec fn view(&self) -> Set<KeyView> {
        Set::new(
            |key: KeyView|
                self.sessions@.contains_key(key.1) && lists(self.sessions@[key.1]@, key.0),
        )
    }
}

impl KeySet {
    fn new() -> (set: Self)
        ensures
            set@ == Set::<KeyView>::empty(),
    {
        let set = KeySet { sessions: HashMap::new() };
        proof {
            assert(set@ =~= Set::<KeyView>::empty());
        }
        set
    }

    fn contains(&self, session: &Bytes, sequence: u64) -> (found: bool)
        ensures
            found == self@.contains((bytes_contents(*session), sequence)),
    {
        match self.sessions.get(&sequence) {
            Some(sessions) => {
                for index in 0..sessions.len()
                    invariant
                        forall|i: int|
                            0 <= i < index ==> bytes_contents(#[trigger] sessions@[i])
                                != bytes_contents(*session),
                        self.sessions@.contains_key(sequence),
                        self.sessions@[sequence] == *sessions,
                {
                    if bytes_equal(&sessions[index], session) {
                        proof {
                            assert(lists(sessions@, bytes_contents(*session)));
                        }
                        return true;
                    }
                }
                false
            },
            None => false,
        }
    }

    fn insert(&mut self, session: Bytes, sequence: u64)
        ensures
            final(self)@ == old(self)@.insert((bytes_contents(session), sequence)),
    {
        let ghost before = self.sessions@;
        let mut sessions: Vec<Bytes> = match self.sessions.remove(&sequence) {
            Some(sessions) => sessions,
            None => Vec::new(),
        };
        let ghost known = sessions@;
        sessions.push(session);
        let ghost listed = sessions@;
        self.sessions.insert(sequence, sessions);
        proof {
            let key = (bytes_contents(session), sequence);
            assert forall|other: KeyView| self@.contains(other) == old(self)@.insert(key).contains(
                other,
            ) by {
                if other.1 == sequence {
                    assert(lists(listed, other.0) == (lists(known, other.0) || other.0 == key.0)) by {
                        assert(bytes_contents(listed[known.len() as int]) == key.0);
                        if lists(known, other.0) {
                            let i = choose|i: int|
                                0 <= i < known.len() && bytes_contents(#[trigger] known[i])
                                    == other.0;
                            assert(listed[i] == known[i]);
                        }
                        if lists(listed, other.0) {
                            let i = choose|i: int|
                                0 <= i < listed.len() && bytes_contents(#[trigger] listed[i])
                                    == other.0;
                            if i < known.len() {
                                assert(known[i] == listed[i]);
                            }
                        }
                    }
                    if before.contains_key(sequence) {
                        assert(known == before[sequence]@);
                    } else {
                        assert(!lists(known, other.0));
                    }
                } else {
                    assert(self.sessions@.contains_key(other.1) == before.contains_key(other.1));
                }
            }
            assert(self@ =~= old(self)@.insert(key));
        }
    }

    fn remove(&mut self, session: &Bytes, sequence: u64)
        ensures
            final(self)@ == old(self)@.remove((bytes_contents(*session), sequence)),
    {
        let ghost before = self.sessions@;
        let sessions: Vec<Bytes> = match self.sessions.remove(&sequence) {
            Some(sessions) => sessions,
            None => Vec::new(),
        };
        let mut others: Vec<Bytes> = Vec::new();
        for index in 0..sessions.len()
            invariant
                forall|s: Seq<u8>| #[trigger]
                    lists(others@, s) == (s != bytes_contents(*session) && lists(
                        sessions@.take(index as int),
                        s,
                    )),
        {
            let ghost kept = others@;
            let ghost earlier = sessions@.take(index as int);
            let ghost now = sessions@.take(index + 1);
            let ghost current = bytes_contents(sessions@[index as int]);
            if !bytes_equal(&sessions[index], session) {
                others.push(sessions[index].clone());
            }
            proof {
                assert forall|s: Seq<u8>| #[trigger] lists(now, s) == (lists(earlier, s) || s
                    == current) by {
                    assert(now[index as int] == sessions@[index as int]);
                    if lists(earlier, s) {
                        let i = choose|i: int|
                            0 <= i < earlier.len() && bytes_contents(#[trigger] earlier[i]) == s;
                        assert(now[i] == earlier[i]);
                    }
                    if lists(now, s) {
                        let i = choose|i: int|
                            0 <= i < now.len() && bytes_contents(#[trigger] now[i]) == s;
                        if i < index {
                            assert(earlier[i] == now[i]);
                        }
                    }
                }
                assert forall|s: Seq<u8>| #[trigger] lists(others@, s) == (lists(kept, s) || (
                current != bytes_contents(*session) && s == current)) by {
                    if current != bytes_contents(*session) {
                        assert(bytes_contents(others@[kept.len() as int]) == current);
                        if lists(kept, s) {
                            let i = choose|i: int|
                                0 <= i < kept.len() && bytes_contents(#[trigger] kept[i]) == s;
                            assert(others@[i] == kept[i]);
                        }
                        if lists(others@, s) {
                            let i = choose|i: int|
                                0 <= i < others@.len() && bytes_contents(#[trigger] others@[i])
                                    == s;
                            if i < kept.len() {
                                assert(kept[i] == others@[i]);
                            }
                        }
                    }
                }
            }
        }
        let ghost listed = others@;
        let any = others.len() > 0;
        if any {
            self.sessions.insert(sequence, others);
        }
        proof {
            let key = (bytes_contents(*session), sequence);
            assert(sessions@.take(sessions@.len() as int) =~= sessions@);
            assert forall|other: KeyView| self@.contains(other) == old(self)@.remove(key).contains(
                other,
            ) by {
                if other.1 == sequence {
                    assert(lists(listed, other.0) == (other.0 != key.0 && lists(
                        sessions@,
                        other.0,
                    )));
                    if before.contains_key(sequence) {
                        assert(sessions@ == before[sequence]@);
                    }
                } else {
                    assert(self.sessions@.contains_key(other.1) == before.contains_key(other.1));
                }
            }
            assert(self@ =~= old(self)@.remove(key));
        }
    }
}

/// The keys of one height.
struct HeightBucket {
    height: u32,
    keys: Vec<(Bytes, u64)>,
}

/// The keys of a bucket.
spec fn bucket_keys(keys: Seq<(Bytes, u64)>) -> Seq<KeyView> {
    keys.map_values(|key: (Bytes, u64)| (bytes_contents(key.0), key.1))
}

impl View for HeightBucket {
    type V = HeightView;

    closed spec fn view(&self) -> HeightView {
        HeightView { height: self.height, keys: bucket_keys(self.keys@) }
    }
}

/// Whether every height occurs once.
pub open spec fn distinct_heights(heights: Seq<HeightView>) -> bool {
    forall|i: int, j: int|
        0 <= i < j < heights.len() ==> (#[trigger] heights[i]).height != (
        #[trigger] heights[j]).height
}

/// Whether no key is remembered at two heights.
pub open spec fn disjoint_keys(heights: Seq<HeightView>) -> bool {
    forall|i: int, j: int, key: KeyView|
        0 <= i < j < heights.len() ==> !((#[trigger] heights[i].keys.contains(key))
            && #[trigger] heights[j].keys.contains(key))
}

/// Bounded set of block-scoped events already delivered to the application.
pub struct DedupState {
    seen: KeySet,
    heights: VecDeque<HeightBucket>,
    height_retention: usize,
}

impl View for DedupState {
    type V = Seq<HeightView>;

    closed spec fn view(&self) -> Seq<HeightView> {
        self.heights@.map_values(|bucket: HeightBucket| bucket@)
    }
}

/// A set of keys is what the heights remember.
spec fn is_remembered_set(seen: Set<KeyView>, heights: Seq<HeightView>) -> bool {
    forall|key: KeyView| #[trigger] seen.contains(key) == remembered(heights, key)
}

/// One more key at a height is remembered, besides what was remembered before.
proof fn lemma_with_key(heights: Seq<HeightView>, height: u32, key: KeyView)
    requires
        distinct_heights(heights),
        disjoint_keys(heights),
        !remembered(heights, key),
    ensures
        distinct_heights(with_key(heights, height, key)),
        disjoint_keys(with_key(heights, height, key)),
        with_key(heights, height, key).len() <= heights.len() + 1,
        forall|other: KeyView| #[trigger]
            remembered(with_key(heights, height, key), other) == (remembered(heights, other)
                || other == key),
{
    let after = with_key(heights, height, key);
    if has_height(heights, height) {
        let position = height_position(heights, height);
        let grown = heights[position].keys.push(key);
        assert forall|other: KeyView| grown.contains(other) == (heights[position].keys.contains(
            other,
        ) || other == key) by {
            assert(grown[heights[position].keys.len() as int] == key);
            if heights[position].keys.contains(other) {
                let k = heights[position].keys.index_of(other);
                assert(grown[k] == other);
            }
            if grown.contains(other) {
                let k = grown.index_of(other);
                if k < heights[position].keys.len() {
                    assert(heights[position].keys[k] == other);
                }
            }
        }
        assert forall|other: KeyView| #[trigger]
            remembered(after, other) == (remembered(heights, other) || other == key) by {
            assert(after[position].keys == grown);
            if remembered(heights, other) {
                let i = choose|i: int|
                    0 <= i < heights.len() && (#[trigger] heights[i]).keys.contains(other);
                assert(after[i].keys.contains(other));
            }
            if other == key {
                assert(after[position].keys.contains(other));
            }
            if remembered(after, other) {
                let i = choose|i: int|
                    0 <= i < after.len() && (#[trigger] after[i]).keys.contains(other);
                if i != position {
                    assert(heights[i].keys.contains(other));
                }
            }
        }
        assert forall|i: int, j: int, k: KeyView| 0 <= i < j < after.len() implies !((
        #[trigger] after[i].keys.contains(k)) && #[trigger] after[j].keys.contains(k)) by {
            if after[i].keys.contains(k) && after[j].keys.contains(k) {
                if k == key {
                    let other = if i == position {
                        j
                    } else {
                        i
                    };
                    assert(heights[other].keys.contains(k));
                    assert(remembered(heights, key));
                } else {
                    assert(heights[i].keys.contains(k));
                    assert(heights[j].keys.contains(k));
                }
            }
        }
    } else {
        let last = heights.len() as int;
        assert(after[last].keys =~= seq![key]);
        assert forall|other: KeyView| after[last].keys.contains(other) == (other == key) by {
            assert(after[last].keys[0] == key);
        }
        assert forall|other: KeyView| #[trigger]
            remembered(after, other) == (remembered(heights, other) || other == key) by {
            if remembered(heights, other) {
                let i = choose|i: int|
                    0 <= i < heights.len() && (#[trigger] heights[i]).keys.contains(other);
                assert(after[i].keys.contains(other));
            }
            if other == key {
                assert(after[last].keys.contains(other));
            }
            if remembered(after, other) {
                let i = choose|i: int|
                    0 <= i < after.len() && (#[trigger] after[i]).keys.contains(other);
                if i < last {
                    assert(heights[i].keys.contains(other));
                }
            }
        }
        assert forall|i: int, j: int, k: KeyView| 0 <= i < j < after.len() implies !((
        #[trigger] after[i].keys.contains(k)) && #[trigger] after[j].keys.contains(k)) by {
            if after[i].keys.contains(k) && after[j].keys.contains(k) {
                assert(heights[i].keys.contains(k));
                if j == last {
                    assert(remembered(heights, key));
                } else {
                    assert(heights[j].keys.contains(k));
                }
            }
        }
    }
}

/// Without the oldest height its keys are forgotten, and no others.
proof fn lemma_without_front(heights: Seq<HeightView>)
    requires
        heights.len() > 0,
        distinct_heights(heights),
        disjoint_keys(heights),
    ensures
        distinct_heights(heights.drop_first()),
        disjoint_keys(heights.drop_first()),
        forall|key: KeyView| #[trigger]
            remembered(heights.drop_first(), key) == (remembered(heights, key)
                && !heights[0].keys.contains(key)),
{
    let rest = heights.drop_first();
    assert forall|key: KeyView| #[trigger]
        remembered(rest, key) == (remembered(heights, key) && !heights[0].keys.contains(key)) by {
        if remembered(rest, key) {
            let i = choose|i: int| 0 <= i < rest.len() && (#[trigger] rest[i]).keys.contains(key);
            assert(heights[i + 1].keys.contains(key));
        }
        if remembered(heights, key) && !heights[0].keys.contains(key) {
            let i = choose|i: int|
                0 <= i < heights.len() && (#[trigger] heights[i]).keys.contains(key);
            assert(rest[i - 1].keys.contains(key));
        }
    }
    assert forall|i: int, j: int| 0 <= i < j < rest.len() implies (#[trigger] rest[i]).height != (
    #[trigger] rest[j]).height by {
        assert(heights[i + 1].height != heights[j + 1].height);
    }
    assert forall|i: int, j: int, key: KeyView| 0 <= i < j < rest.len() implies !((
    #[trigger] rest[i].keys.contains(key)) && #[trigger] rest[j].keys.contains(key)) by {
        if rest[i].keys.contains(key) && rest[j].keys.contains(key) {
            assert(heights[i + 1].keys.contains(key));
            assert(heights[j + 1].keys.contains(key));
        }
    }
}

impl DedupState {
    /// The number of heights that are remembered.
    pub closed spec fn spec_retention(self) -> usize {
        self.height_retention
    }

    /// Whether the set of keys agrees with the heights.
    spec fn consistent(self) -> bool {
        &&& distinct_heights(self@)
        &&& disjoint_keys(self@)
        &&& is_remembered_set(self.seen@, self@)
    }

    /// Whether no more heights are remembered than are retained.
    pub closed spec fn well_formed(self) -> bool {
        &&& self.consistent()
        &&& self@.len() <= self.height_retention
    }

    /// Creates deduplication state retaining keys from this many block heights.
    pub fn with_height_retention(height_retention: usize) -> (state: Self)
        ensures
            state.well_formed(),
            state.spec_retention() == height_retention,
            state@ == Seq::<HeightView>::empty(),
    {
        let state = DedupState { seen: KeySet::new(), heights: VecDeque::new(), height_retention };
        proof {
            assert(state@ =~= Seq::<HeightView>::empty());
        }
        state
    }

    /// Adds a key to its height.
    fn remember(&mut self, height: u32, session: Bytes, sequence: u64)
        requires
            old(self).consistent(),
            !remembered(old(self)@, (bytes_contents(session), sequence)),
        ensures
            final(self).consistent(),
            final(self).height_retention == old(self).height_retention,
            final(self)@ == with_key(old(self)@, height, (bytes_contents(session), sequence)),
    {
        let ghost before = self@;
        let ghost key = (bytes_contents(session), sequence);
        proof {
            lemma_with_key(before, height, key);
        }
        self.seen.insert(session.clone(), sequence);
        let count: usize = self.heights.len();
        let mut position: usize = 0;
        while position < count && self.heights[position].height != height
            invariant
                count == self.heights@.len(),
                position <= count,
                before == self.heights@.map_values(|bucket: HeightBucket| bucket@),
                forall|i: int| 0 <= i < position ==> (#[trigger] before[i]).height != height,
            ensures
                position <= count,
                forall|i: int| 0 <= i < position ==> (#[trigger] before[i]).height != height,
                position < count ==> before[position as int].height == height,
            decreases count - position,
        {
            proof {
                assert(before[position as int] == self.heights@[position as int]@);
            }
            position = position + 1;
        }
        if position < count {
            proof {
                assert(has_height(before, height));
                let found = height_position(before, height);
                assert(before[found].height == before[position as int].height);
                assert(found == position);
            }
            let ghost bucket_before = self.heights@[position as int];
            if let Some(bucket) = self.heights.remove(position) {
                let mut bucket = bucket;
                bucket.keys.push((session, sequence));
                let ghost bucket_after = bucket;
                self.heights.insert(position, bucket);
                proof {
                    assert(bucket_keys(bucket_after.keys@) =~= bucket_keys(
                        bucket_before.keys@,
                    ).push(key));
                    assert(self@ =~= with_key(before, height, key));
                }
            }
        } else {
            let mut keys: Vec<(Bytes, u64)> = Vec::new();
            keys.push((session, sequence));
            let ghost listed = keys@;
            self.heights.push_back(HeightBucket { height, keys });
            proof {
                assert(bucket_keys(listed) =~= seq![key]);
                assert(!has_height(before, height));
                assert(self@ =~= with_key(before, height, key));
            }
        }
    }

    /// Forgets the oldest height.
    fn forget_front(&mut self)
        requires
            old(self).consistent(),
            old(self)@.len() > 0,
        ensures
            final(self).consistent(),
            final(self).height_retention == old(self).height_retention,
            final(self)@ == old(self)@.drop_first(),
    {
        let ghost before = self@;
        proof {
            lemma_without_front(before);
            assert(before[0] == self.heights@[0]@);
        }
        if let Some(bucket) = self.heights.pop_front() {
            let ghost keys = bucket_keys(bucket.keys@);
            let ghost seen = self.seen@;
            proof {
                assert(self@ =~= before.drop_first());
                assert(keys == before[0].keys);
            }
            for index in 0..bucket.keys.len()
                invariant
                    keys == bucket_keys(bucket.keys@),
                    self.height_retention == old(self).height_retention,
                    self@ == before.drop_first(),
                    forall|key: KeyView| #[trigger]
                        self.seen@.contains(key) == (seen.contains(key) && !keys.take(
                            index as int,
                        ).contains(key)),
            {
                let entry = &bucket.keys[index];
                proof {
                    assert(keys[index as int] == (bytes_contents(entry.0), entry.1));
                    let earlier = keys.take(index as int);
                    let now = keys.take(index + 1);
                    assert forall|key: KeyView| now.contains(key) == (earlier.contains(key) || key
                        == keys[index as int]) by {
                        assert(now[index as int] == keys[index as int]);
                        if earlier.contains(key) {
                            let i = earlier.index_of(key);
                            assert(now[i] == key);
                        }
                        if now.contains(key) {
                            let i = now.index_of(key);
                            if i < index {
                                assert(earlier[i] == key);
                            }
                        }
                    }
                }
                self.seen.remove(&entry.0, entry.1);
            }
            proof {
                assert(keys.take(keys.len() as int) =~= keys);
            }
        }
    }

    /// Returns `true` once for each block-scoped `(session_id, sequence)` key.
    ///
    /// Non-block events are not replayed by the server and are always accepted.
    pub fn observe(&mut self, update: &SubscribeUpdate) -> (fresh: bool)
        requires
            old(self).well_formed(),
        ensures
            final(self).well_formed(),
            final(self).spec_retention() == old(self).spec_retention(),
            match spec_block_height(*update) {
                Some(height) if old(self).spec_retention() > 0 => {
                    &&& fresh == !remembered(old(self)@, key_of(*update))
                    &&& final(self)@ == observed(
                        old(self)@,
                        height,
                        key_of(*update),
                        old(self).spec_retention(),
                    )
                },
                _ => {
                    &&& fresh
                    &&& final(self)@ == old(self)@
                },
            },
    {
        let height: u32 = match update_height(update) {
            Some(height) => height,
            None => {
                return true;
            },
        };
        if self.height_retention == 0 {
            return true;
        }
        if self.seen.contains(&update.session_id, update.sequence) {
            return false;
        }
        let ghost before = self@;
        let ghost key = key_of(*update);
        proof {
            lemma_with_key(before, height, key);
        }
        self.remember(height, update.session_id.clone(), update.sequence);
        let ghost grown = self@;
        proof {
            assert(grown.skip(0) =~= grown);
        }
        while self.heights.len() > self.height_retention
            invariant
                self.consistent(),
                self.height_retention == old(self).height_retention,
                self.height_retention > 0,
                retained(self@, self.height_retention) == retained(grown, self.height_retention),
            decreases self.heights@.len(),
        {
            proof {
                let here = self@;
                let rest = here.drop_first();
                assert(retained(rest, self.height_retention) =~= retained(
                    here,
                    self.height_retention,
                ));
            }
            self.forget_front();
        }
        true
    }
}

impl Default for DedupState {
    fn default() -> (state: Self)
        ensures
            state.well_formed(),
            state.spec_retention() == DEFAULT_HEIGHT_RETENTION,
            state@ == Seq::<HeightView>::empty(),
    {
        Self::with_height_retention(DEFAULT_HEIGHT_RETENTION)
    }
}

impl DedupState {
    /// The memory is bounded by the configured number of heights; each height occurs once, and
    /// each key at one height only.
    pub proof fn law_memory_is_bounded(&self)
        requires
            self.well_formed(),
        ensures
            self@.len() <= self.spec_retention(),
            distinct_heights(self@),
            disjoint_keys(self@),
    {
    }
}

/// What is retained was there before.
proof fn lemma_retained_is_part(heights: Seq<HeightView>, retention: usize, key: KeyView)
    requires
        remembered(retained(heights, retention), key),
    ensures
        remembered(heights, key),
{
    let kept = retained(heights, retention);
    let i = choose|i: int| 0 <= i < kept.len() && (#[trigger] kept[i]).keys.contains(key);
    assert(heights[i + (heights.len() - kept.len())].keys.contains(key));
}

/// An update that is observed a second time is suppressed.
pub proof fn law_repeated_update_is_suppressed(
    heights: Seq<HeightView>,
    height: u32,
    key: KeyView,
    retention: usize,
)
    requires
        distinct_heights(heights),
        disjoint_keys(heights),
        heights.len() <= retention,
        retention > 0,
    ensures
        remembered(observed(heights, height, key, retention), key),
{
    if !remembered(heights, key) {
        lemma_with_key(heights, height, key);
        let grown = with_key(heights, height, key);
        if grown.len() > retention {
            let kept = retained(grown, retention);
            let last = kept.len() - 1;
            assert(kept[last] == grown[grown.len() - 1]);
            assert(kept[last].keys[0] == key);
            assert(kept[last].keys.contains(key));
        }
    }
}

/// An update with another key is not suppressed on account of this one: the same sequence number
/// from another session is new.
pub proof fn law_other_keys_stay_new(
    heights: Seq<HeightView>,
    height: u32,
    key: KeyView,
    other: KeyView,
    retention: usize,
)
    requires
        distinct_heights(heights),
        disjoint_keys(heights),
        !remembered(heights, other),
        other != key,
    ensures
        !remembered(observed(heights, height, key, retention), other),
{
    if !remembered(heights, key) {
        lemma_with_key(heights, height, key);
        if remembered(observed(heights, height, key, retention), other) {
            lemma_retained_is_part(with_key(heights, height, key), retention, other);
        }
    }
}

/// When a new height pushes the oldest one out, the updates of the oldest height can be observed
/// again.
pub proof fn law_evicted_height_is_forgotten(
    heights: Seq<HeightView>,
    height: u32,
    key: KeyView,
    old_key: KeyView,
    retention: usize,
)
    requires
        distinct_heights(heights),
        disjoint_keys(heights),
        heights.len() == retention,
        retention > 0,
        !has_height(heights, height),
        !remembered(heights, key),
        heights[0].keys.contains(old_key),
    ensures
        !remembered(observed(heights, height, key, retention), old_key),
{
    lemma_with_key(heights, height, key);
    let grown = with_key(heights, height, key);
    assert(grown[0] == heights[0]);
    lemma_without_front(grown);
    assert(retained(grown, retention) =~= grown.drop_first());
}

/// The keys of a height stay remembered until the height is the oldest one and a new height
/// pushes it out.
pub proof fn law_retained_keys_stay(
    heights: Seq<HeightView>,
    height: u32,
    key: KeyView,
    position: int,
    kept_key: KeyView,
    retention: usize,
)
    requires
        distinct_heights(heights),
        disjoint_keys(heights),
        heights.len() <= retention,
        0 <= position < heights.len(),
        heights[position].keys.contains(kept_key),
        position > 0 || heights.len() < retention || has_height(heights, height),
    ensures
        remembered(observed(heights, height, key, retention), kept_key),
{
    assert(remembered(heights, kept_key));
    if !remembered(heights, key) {
        lemma_with_key(heights, height, key);
        let grown = with_key(heights, height, key);
        if grown.len() > retention {
            assert(grown[position] == heights[position]);
            let kept = retained(grown, retention);
            assert(kept[position - 1] == grown[position]);
            assert(kept[position - 1].keys.contains(kept_key));
        }
    }
}

} // verus!
