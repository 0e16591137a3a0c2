//! The always-in-memory database index: per-topic metadata, global
//! tag bookkeeping, and the global statistics derived from them.
//!
//! Each map is an association list with pairwise-distinct keys; that
//! invariant is what a hash-map layout of the same data would
//! guarantee, and it is stated and preserved explicitly here.

use vstd::prelude::*;

verus! {

use vstd::string::StringExecFns;

use crate::models::{Question, Topic};
use crate::timefmt::now_rfc3339;

/// Global database statistics.
#[derive(Clone, Debug, PartialEq)]
pub struct GlobalStats {
    pub total_topics: usize,
    pub total_questions: usize,
}

impl Default for GlobalStats {
    fn default() -> (r: Self)
        ensures
            r.total_topics == 0,
            r.total_questions == 0,
    {
        GlobalStats { total_topics: 0, total_questions: 0 }
    }
}

/// Distribution of a topic's questions by difficulty level.
#[derive(Clone, Debug, PartialEq)]
pub struct DifficultyDistribution {
    pub beginner: usize,
    pub intermediate: usize,
    pub advanced: usize,
}

impl Default for DifficultyDistribution {
    fn default() -> (r: Self)
        ensures
            r.beginner == 0,
            r.intermediate == 0,
            r.advanced == 0,
    {
        DifficultyDistribution { beginner: 0, intermediate: 0, advanced: 0 }
    }
}

/// Metadata the index keeps for one topic.
#[derive(Clone, Debug, PartialEq)]
pub struct TopicIndexEntry {
    pub name: String,
    pub question_count: usize,
    pub file_path: String,
    pub tags: Vec<String>,
    pub difficulty_distribution: DifficultyDistribution,
    pub last_modified: String,
}

/// Information about one tag across the database.
#[derive(Clone, Debug, PartialEq)]
pub struct TagInfo {
    pub count: usize,
    pub topics: Vec<String>,
}

/// One keyed slot of the topic index.
#[derive(Clone, Debug, PartialEq)]
pub struct TopicIndexSlot {
    pub key: String,
    pub entry: TopicIndexEntry,
}

/// One keyed slot of the tag map.
#[derive(Clone, Debug, PartialEq)]
pub struct TagSlot {
    pub key: String,
    pub info: TagInfo,
}

/// Topic-index keys are pairwise distinct.
pub open spec fn ti_unique(s: Seq<TopicIndexSlot>) -> bool {
    forall|i: int, j: int| 0 <= i < j < s.len() ==> s[i].key@ != s[j].key@
}

/// Some slot carries the key.
pub open spec fn ti_has(s: Seq<TopicIndexSlot>, k: Seq<char>) -> bool {
    exists|i: int| 0 <= i < s.len() && (#[trigger] s[i]).key@ == k
}

/// The total question count over all indexed topics.
pub open spec fn ti_sum(s: Seq<TopicIndexSlot>) -> int
    decreases s.len(),
{
    if s.len() == 0 {
        0
    } else {
        ti_sum(s.drop_last()) + s.last().entry.question_count
    }
}

/// Tag-map keys are pairwise distinct.
pub open spec fn tg_unique(s: Seq<TagSlot>) -> bool {
    forall|i: int, j: int| 0 <= i < j < s.len() ==> s[i].key@ != s[j].key@
}

/// The string contents of a string list.
pub open spec fn str_views(v: Seq<String>) -> Seq<Seq<char>> {
    v.map_values(|s: String| s@)
}

/// Spec view of one tag slot.
pub struct TagSlotV {
    pub key: Seq<char>,
    pub count: int,
    pub topics: Seq<Seq<char>>,
}

/// Spec view of the tag map.
pub open spec fn tgv(s: Seq<TagSlot>) -> Seq<TagSlotV> {
    s.map_values(
        |t: TagSlot| TagSlotV {
            key: t.key@,
            count: t.info.count as int,
            topics: str_views(t.info.topics@),
        },
    )
}

/// The position of a tag in the map, or the length when absent.
pub open spec fn tg_index_of(s: Seq<TagSlotV>, tag: Seq<char>) -> int
    decreases s.len(),
{
    if s.len() == 0 {
        0
    } else if s.first().key == tag {
        0
    } else {
        1 + tg_index_of(s.drop_first(), tag)
    }
}

/// One tag scrubbed of one topic: the topic leaves the tag's list, a
/// tag left without topics is dropped, and a missing tag is untouched.
pub open spec fn scrub_one(s: Seq<TagSlotV>, tag: Seq<char>, topic: Seq<char>) -> Seq<TagSlotV> {
    let i = tg_index_of(s, tag);
    if i >= s.len() {
        s
    } else {
        let kept = s[i].topics.filter(|x: Seq<char>| x != topic);
        if kept.len() == 0 {
            s.remove(i)
        } else {
            s.update(i, TagSlotV { topics: kept, ..s[i] })
        }
    }
}

/// A topic scrubbed from a run of tags, one after the other.
pub open spec fn scrub_all(s: Seq<TagSlotV>, tags: Seq<Seq<char>>, topic: Seq<char>) -> Seq<
    TagSlotV,
>
    decreases tags.len(),
{
    if tags.len() == 0 {
        s
    } else {
        scrub_all(scrub_one(s, tags.first(), topic), tags.drop_first(), topic)
    }
}

/// Scrubbing one more tag.
proof fn lemma_scrub_all_snoc(s: Seq<TagSlotV>, tags: Seq<Seq<char>>, tag: Seq<char>, topic: Seq<char>)
    ensures
        scrub_all(s, tags.push(tag), topic) == scrub_one(scrub_all(s, tags, topic), tag, topic),
    decreases tags.len(),
{
    if tags.len() == 0 {
        reveal_with_fuel(scrub_all, 3);
        assert(tags.push(tag).first() == tag);
        assert(tags.push(tag).drop_first() =~= Seq::<Seq<char>>::empty());
    } else {
        assert(tags.push(tag).first() == tags.first());
        assert(tags.push(tag).drop_first() =~= tags.drop_first().push(tag));
        lemma_scrub_all_snoc(scrub_one(s, tags.first(), topic), tags.drop_first(), tag, topic);
    }
}

/// A scan that stops at the first matching tag pins its position.
proof fn lemma_tg_index_exact(s: Seq<TagSlotV>, i: int, tag: Seq<char>)
    requires
        0 <= i <= s.len(),
        forall|j: int| 0 <= j < i ==> (#[trigger] s[j]).key != tag,
        i < s.len() ==> s[i].key == tag,
    ensures
        tg_index_of(s, tag) == i,
    decreases i,
{
    if i > 0 {
        assert(s[0].key != tag);
        assert(s.first().key != tag);
        assert(forall|j: int| 0 <= j < s.drop_first().len() ==> s.drop_first()[j] == s[j + 1]);
        assert forall|j: int| 0 <= j < i - 1 implies (#[trigger] s.drop_first()[j]).key != tag by {
            assert(s[j + 1].key != tag);
        }
        lemma_tg_index_exact(s.drop_first(), i - 1, tag);
        assert(tg_index_of(s, tag) == 1 + tg_index_of(s.drop_first(), tag));
    } else {
        if i < s.len() {
            assert(s.first().key == tag);
        }
    }
}

/// How many of the questions carry the given difficulty text.
pub open spec fn dd_count(qs: Seq<Question>, level: Seq<char>) -> int
    decreases qs.len(),
{
    if qs.len() == 0 {
        0
    } else {
        dd_count(qs.drop_last(), level) + (if qs.last().difficulty@ == level {
            1int
        } else {
            0int
        })
    }
}

/// A tag list extended by one question's tags, keeping only first
/// occurrences.
pub open spec fn add_tags(acc: Seq<Seq<char>>, ts: Seq<String>) -> Seq<Seq<char>>
    decreases ts.len(),
{
    if ts.len() == 0 {
        acc
    } else {
        add_tags(
            if acc.contains(ts.first()@) {
                acc
            } else {
                acc.push(ts.first()@)
            },
            ts.drop_first(),
        )
    }
}

/// The tag accumulation over a run of questions.
pub open spec fn tags_fold(qs: Seq<Question>, acc: Seq<Seq<char>>) -> Seq<Seq<char>>
    decreases qs.len(),
{
    if qs.len() == 0 {
        acc
    } else {
        tags_fold(qs.drop_first(), add_tags(acc, qs.first().tags@))
    }
}

/// The deduplicated tags of a topic's questions, in first-seen order.
pub open spec fn topic_tags(qs: Seq<Question>) -> Seq<Seq<char>> {
    tags_fold(qs, Seq::empty())
}

/// The index holds an entry for the topic whose content was computed
/// from exactly these questions: their count, their deduplicated tags,
/// and their difficulty distribution.
pub open spec fn indexed_entry_ok(
    entries: Seq<TopicIndexSlot>,
    topic_id: Seq<char>,
    name: Seq<char>,
    file_path: Seq<char>,
    questions: Seq<Question>,
) -> bool {
    exists|i: int|
        0 <= i < entries.len() && (#[trigger] entries[i]).key@ == topic_id && {
            let e = entries[i].entry;
            &&& e.name@ == name
            &&& e.question_count == questions.len()
            &&& e.file_path@ == file_path
            &&& str_views(e.tags@) =~= topic_tags(questions)
            &&& e.difficulty_distribution.beginner as int == dd_count(questions, "beginner"@)
            &&& e.difficulty_distribution.intermediate as int == dd_count(
                questions,
                "intermediate"@,
            )
            &&& e.difficulty_distribution.advanced as int == dd_count(questions, "advanced"@)
        }
}

/// The topic metadata map, keyed by topic id.
#[derive(Clone, Debug, PartialEq)]
pub struct TopicIndexMap {
    pub entries: Vec<TopicIndexSlot>,
}

impl TopicIndexMap {
    /// Well-formedness: no key twice.
    pub open spec fn wf(self) -> bool {
        ti_unique(self.entries@)
    }

    /// An empty map.
    pub fn new() -> (r: Self)
        ensures
            r.entries@.len() == 0,
            r.wf(),
    {
        TopicIndexMap { entries: Vec::new() }
    }

    /// How many topics are indexed.
    pub fn len(&self) -> (n: usize)
        ensures
            n == self.entries@.len(),
    {
        self.entries.len()
    }

    /// Whether no topic is indexed.
    pub fn is_empty(&self) -> (r: bool)
        ensures
            r == (self.entries@.len() == 0),
    {
        self.entries.len() == 0
    }

    /// The position of a key's slot, if present.
    fn find(&self, key: &String) -> (r: Option<usize>)
        ensures
            match r {
                Some(i) => i < self.entries@.len() && self.entries@[i as int].key@ == key@,
                None => !ti_has(self.entries@, key@),
            },
    {
        let mut i: usize = 0;
        while i < self.entries.len()
            invariant
                i <= self.entries@.len(),
                forall|j: int| 0 <= j < i ==> (#[trigger] self.entries@[j]).key@ != key@,
            decreases self.entries@.len() - i,
        {
            if self.entries[i].key.eq(key) {
                return Some(i);
            }
            i = i + 1;
        }
        None
    }

    /// The entry stored under a key, if any.
    pub fn get(&self, key: &String) -> (r: Option<&TopicIndexEntry>)
        ensures
            match r {
                Some(e) => exists|i: int|
                    0 <= i < self.entries@.len() && (#[trigger] self.entries@[i]).key@ == key@
                        && *e == self.entries@[i].entry,
                None => !ti_has(self.entries@, key@),
            },
    {
        match self.find(key) {
            Some(i) => Some(&self.entries[i].entry),
            None => None,
        }
    }

    /// Stores an entry under a key, replacing any previous one.
    pub fn insert(&mut self, key: String, entry: TopicIndexEntry)
        requires
            old(self).wf(),
        ensures
            final(self).wf(),
            ti_has(final(self).entries@, key@),
            (if ti_has(old(self).entries@, key@) {
                exists|i: int|
                    0 <= i < old(self).entries@.len() && (#[trigger] old(self).entries@[i]).key@
                        == key@ && final(self).entries@ =~= old(self).entries@.update(
                        i,
                        (TopicIndexSlot { key, entry }),
                    )
            } else {
                final(self).entries@ =~= old(self).entries@.push(
                    (TopicIndexSlot { key, entry }),
                )
            }),
    {
        let ghost k = key@;
        match self.find(&key) {
            Some(i) => {
                let slot = TopicIndexSlot { key, entry };
                self.entries[i] = slot;
                proof {
                    assert(ti_has(old(self).entries@, k));
                    assert forall|a: int, b: int|
                        0 <= a < b < self.entries@.len() implies self.entries@[a].key@
                        != self.entries@[b].key@ by {
                        assert(old(self).entries@[a].key@ != old(self).entries@[b].key@);
                    }
                }
            }
            None => {
                let slot = TopicIndexSlot { key, entry };
                self.entries.push(slot);
                proof {
                    assert(self.entries@[self.entries@.len() - 1].key@ == k);
                    assert forall|a: int, b: int|
                        0 <= a < b < self.entries@.len() implies self.entries@[a].key@
                        != self.entries@[b].key@ by {
                        if b < self.entries@.len() - 1 {
                            assert(old(self).entries@[a].key@ != old(self).entries@[b].key@);
                        } else {
                            assert(self.entries@[a] == old(self).entries@[a]);
                        }
                    }
                }
            }
        }
    }

    /// Removes and returns the entry stored under a key.
    pub fn remove(&mut self, key: &String) -> (r: Option<TopicIndexEntry>)
        requires
            old(self).wf(),
        ensures
            final(self).wf(),
            !ti_has(final(self).entries@, key@),
            match r {
                Some(e) => exists|i: int|
                    0 <= i < old(self).entries@.len() && (#[trigger] old(self).entries@[i]).key@
                        == key@ && e == old(self).entries@[i].entry && final(self).entries@
                        =~= old(self).entries@.remove(i),
                None => !ti_has(old(self).entries@, key@) && *final(self) == *old(self),
            },
    {
        match self.find(key) {
            Some(i) => {
                let slot = self.entries.remove(i);
                proof {
                    assert forall|a: int, b: int|
                        0 <= a < b < self.entries@.len() implies self.entries@[a].key@
                        != self.entries@[b].key@ by {
                        let a2: int = if a < i { a } else { a + 1 };
                        let b2: int = if b < i { b } else { b + 1 };
                        assert(old(self).entries@[a2].key@ != old(self).entries@[b2].key@);
                    }
                    assert forall|a: int| 0 <= a < self.entries@.len()
                        implies (#[trigger] self.entries@[a]).key@ != key@ by {
                        let a2: int = if a < i { a } else { a + 1 };
                        assert(self.entries@[a] == old(self).entries@[a2]);
                        assert(old(self).entries@[a2].key@ != old(self).entries@[i as int].key@
                            || a2 == i);
                    }
                }
                Some(slot.entry)
            }
            None => None,
        }
    }
}

/// The tag map, keyed by tag text.
#[derive(Clone, Debug, PartialEq)]
pub struct TagMap {
    pub entries: Vec<TagSlot>,
}

impl TagMap {
    /// Well-formedness: no tag twice.
    pub open spec fn wf(self) -> bool {
        tg_unique(self.entries@)
    }

    /// An empty map.
    pub fn new() -> (r: Self)
        ensures
            r.entries@.len() == 0,
            r.wf(),
    {
        TagMap { entries: Vec::new() }
    }

    /// The position of a tag's slot, if present: the first match.
    fn find(&self, key: &String) -> (r: Option<usize>)
        ensures
            match r {
                Some(i) => i < self.entries@.len() && self.entries@[i as int].key@ == key@
                    && forall|j: int|
                    0 <= j < i ==> (#[trigger] self.entries@[j]).key@ != key@,
                None => forall|j: int|
                    0 <= j < self.entries@.len() ==> (#[trigger] self.entries@[j]).key@ != key@,
            },
    {
        let mut i: usize = 0;
        while i < self.entries.len()
            invariant
                i <= self.entries@.len(),
                forall|j: int| 0 <= j < i ==> (#[trigger] self.entries@[j]).key@ != key@,
            decreases self.entries@.len() - i,
        {
            if self.entries[i].key.eq(key) {
                return Some(i);
            }
            i = i + 1;
        }
        None
    }
}

/// The main index structure, always kept in memory.
#[derive(Clone, Debug, PartialEq)]
pub struct DatabaseIndex {
    pub version: String,
    pub format: String,
    pub stats: GlobalStats,
    pub topics_index: TopicIndexMap,
    pub global_tags: TagMap,
}

impl Default for DatabaseIndex {
    fn default() -> (r: Self)
        ensures
            r.version@ == "2.0"@,
            r.format@ == "lazy-indexed"@,
            r.stats.total_topics == 0,
            r.stats.total_questions == 0,
            r.topics_index.entries@.len() == 0,
            r.global_tags.entries@.len() == 0,
            r.wf(),
    {
        DatabaseIndex {
            version: String::from_str("2.0"),
            format: String::from_str("lazy-indexed"),
            stats: GlobalStats::default(),
            topics_index: TopicIndexMap::new(),
            global_tags: TagMap::new(),
        }
    }
}


impl DatabaseIndex {
    /// Both keyed maps are duplicate-free.
    pub open spec fn wf(self) -> bool {
        self.topics_index.wf() && self.global_tags.wf()
    }

    /// Recomputes the global statistics from the per-topic entries:
    /// the topic count, and the sum of their question counts.
    pub fn update_stats(&mut self)
        requires
            ti_sum(old(self).topics_index.entries@) <= usize::MAX,
        ensures
            final(self).stats.total_topics == old(self).topics_index.entries@.len(),
            final(self).stats.total_questions == ti_sum(old(self).topics_index.entries@),
            final(self).topics_index == old(self).topics_index,
            final(self).global_tags == old(self).global_tags,
            final(self).version == old(self).version,
            final(self).format == old(self).format,
    {
        let total_topics = self.topics_index.len();
        let mut total_questions: usize = 0;
        let mut i: usize = 0;
        let ghost entries = self.topics_index.entries@;
        proof {
            assert(entries.take(0) =~= Seq::<TopicIndexSlot>::empty());
            lemma_ti_sum_bound(entries);
        }
        while i < self.topics_index.entries.len()
            invariant
                i <= entries.len(),
                entries == self.topics_index.entries@,
                total_questions == ti_sum(entries.take(i as int)),
                ti_sum(entries) <= usize::MAX,
                self == old(self),
            decreases entries.len() - i,
        {
            proof {
                assert(entries.take(i as int + 1).drop_last() =~= entries.take(i as int));
                assert(entries.take(i as int + 1).last() == entries[i as int]);
                lemma_ti_sum_prefix(entries, i as int + 1);
            }
            total_questions = total_questions + self.topics_index.entries[i].entry.question_count;
            i = i + 1;
        }
        proof {
            assert(entries.take(entries.len() as int) =~= entries);
        }
        self.stats = GlobalStats { total_topics, total_questions };
    }

    /// Removes one topic from the index: drops its entry, strips the
    /// topic from every tag it carried (dropping tags left without
    /// topics), and refreshes the statistics.
    pub fn remove_topic(&mut self, topic_id: &str)
        requires
            old(self).wf(),
            ti_sum(old(self).topics_index.entries@) <= usize::MAX,
        ensures
            final(self).wf(),
            !ti_has(final(self).topics_index.entries@, topic_id@),
            (if ti_has(old(self).topics_index.entries@, topic_id@) {
                exists|i: int|
                    0 <= i < old(self).topics_index.entries@.len() && (#[trigger] old(
                        self,
                    ).topics_index.entries@[i]).key@ == topic_id@
                        && final(self).topics_index.entries@
                        =~= old(self).topics_index.entries@.remove(i)
                        && tgv(final(self).global_tags.entries@) =~~= scrub_all(
                        tgv(old(self).global_tags.entries@),
                        str_views(old(self).topics_index.entries@[i].entry.tags@),
                        topic_id@,
                    )
            } else {
                final(self).topics_index == old(self).topics_index && final(self).global_tags
                    == old(self).global_tags
            }),
            final(self).stats.total_topics == final(self).topics_index.entries@.len(),
            final(self).stats.total_questions == ti_sum(final(self).topics_index.entries@),
    {
        let key = String::from_str(topic_id);
        let removed = self.topics_index.remove(&key);
        proof {
            if ti_has(old(self).topics_index.entries@, topic_id@) {
                let i = choose|i: int|
                    0 <= i < old(self).topics_index.entries@.len() && (#[trigger] old(
                        self,
                    ).topics_index.entries@[i]).key@ == topic_id@;
                assert(removed is Some);
            }
            lemma_ti_sum_le(old(self).topics_index.entries@, self.topics_index.entries@);
        }
        let ghost mid = *self;
        let ghost gt0 = tgv(self.global_tags.entries@);
        match removed {
            Some(entry) => {
                let ghost et = str_views(entry.tags@);
                let mut t: usize = 0;
                proof {
                    assert(et.take(0) =~= Seq::<Seq<char>>::empty());
                }
                while t < entry.tags.len()
                    invariant
                        self.global_tags.wf(),
                        self.topics_index == mid.topics_index,
                        self.stats == mid.stats,
                        self.version == mid.version,
                        self.format == mid.format,
                        t <= entry.tags@.len(),
                        et == str_views(entry.tags@),
                        key@ == topic_id@,
                        tgv(self.global_tags.entries@) =~~= scrub_all(
                            gt0,
                            et.take(t as int),
                            topic_id@,
                        ),
                    decreases entry.tags@.len() - t,
                {
                    proof {
                        assert(et.take(t as int + 1) =~= et.take(t as int).push(et[t as int]));
                        lemma_scrub_all_snoc(gt0, et.take(t as int), et[t as int], topic_id@);
                        assert(entry.tags@[t as int]@ == et[t as int]);
                    }
                    scrub_tag(&mut self.global_tags, &entry.tags[t], &key);
                    t = t + 1;
                }
                proof {
                    assert(et.take(et.len() as int) =~= et);
                    let pre_entries = old(self).topics_index.entries@;
                    let i0 = choose|i0: int|
                        0 <= i0 < pre_entries.len() && (#[trigger] pre_entries[i0]).key@ == key@
                            && entry == pre_entries[i0].entry && self.topics_index.entries@
                            =~= pre_entries.remove(i0);
                    assert(str_views(pre_entries[i0].entry.tags@) == et);
                }
            }
            None => {}
        }
        self.update_stats();
    }
}

/// Drops one topic from one tag's list, removing the tag when its
/// list empties; a missing tag is skipped.
fn scrub_tag(tags: &mut TagMap, tag: &String, topic_key: &String)
    requires
        old(tags).wf(),
    ensures
        final(tags).wf(),
        tgv(final(tags).entries@) =~~= scrub_one(tgv(old(tags).entries@), tag@, topic_key@),
{
    let ghost pre = tgv(tags.entries@);
    match tags.find(tag) {
        Some(i) => {
            proof {
                assert forall|j: int| 0 <= j < i implies (#[trigger] pre[j]).key != tag@ by {
                    assert(old(tags).entries@[j].key@ != tag@);
                }
                assert(pre[i as int].key == tag@);
                lemma_tg_index_exact(pre, i as int, tag@);
            }
            let kept = without_string(&tags.entries[i].info.topics, topic_key);
            proof {
                assert(str_views(kept@) =~= pre[i as int].topics.filter(
                    |x: Seq<char>| x != topic_key@,
                ));
            }
            if kept.len() == 0 {
                tags.entries.remove(i);
                proof {
                    assert forall|a: int, b: int|
                        0 <= a < b < tags.entries@.len() implies tags.entries@[a].key@
                        != tags.entries@[b].key@ by {
                        let a2: int = if a < i { a } else { a + 1 };
                        let b2: int = if b < i { b } else { b + 1 };
                        assert(old(tags).entries@[a2].key@ != old(tags).entries@[b2].key@);
                    }
                    assert(str_views(kept@).len() == 0);
                    assert(tgv(tags.entries@) =~~= pre.remove(i as int)) by {
                        assert forall|a: int| 0 <= a < tags.entries@.len()
                            implies tgv(tags.entries@)[a] == pre.remove(i as int)[a] by {
                            let a2: int = if a < i { a } else { a + 1 };
                            assert(tags.entries@[a] == old(tags).entries@[a2]);
                        }
                    }
                }
            } else {
                tags.entries[i].info.topics = kept;
                proof {
                    assert forall|a: int, b: int|
                        0 <= a < b < tags.entries@.len() implies tags.entries@[a].key@
                        != tags.entries@[b].key@ by {
                        assert(old(tags).entries@[a].key@ != old(tags).entries@[b].key@);
                    }
                    let updated = TagSlotV {
                        topics: pre[i as int].topics.filter(|x: Seq<char>| x != topic_key@),
                        ..pre[i as int]
                    };
                    assert(tgv(tags.entries@) =~~= pre.update(i as int, updated)) by {
                        assert forall|a: int| 0 <= a < tags.entries@.len()
                            implies tgv(tags.entries@)[a] == pre.update(i as int, updated)[a] by {
                            if a != i {
                                assert(tags.entries@[a] == old(tags).entries@[a]);
                            } else {
                                assert(tgv(tags.entries@)[a].topics =~= updated.topics);
                            }
                        }
                    }
                }
            }
        }
        None => {
            proof {
                assert forall|j: int| 0 <= j < pre.len() implies (#[trigger] pre[j]).key != tag@ by {
                    assert(old(tags).entries@[j].key@ != tag@);
                }
                lemma_tg_index_exact(pre, pre.len() as int, tag@);
            }
        }
    }
}

/// The strings of a list other than the given one, in order.
fn without_string(v: &Vec<String>, s: &String) -> (r: Vec<String>)
    ensures
        r@.map_values(|x: String| x@) =~= v@.map_values(|x: String| x@).filter(
            |x: Seq<char>| x != s@,
        ),
{
    let ghost vs = v@.map_values(|x: String| x@);
    let mut r: Vec<String> = Vec::new();
    let mut i: usize = 0;
    proof {
        assert(vs.take(0) =~= Seq::<Seq<char>>::empty());
        reveal(Seq::filter);
        assert(r@.map_values(|x: String| x@) =~= vs.take(0).filter(|x: Seq<char>| x != s@));
    }
    while i < v.len()
        invariant
            i <= v@.len(),
            vs == v@.map_values(|x: String| x@),
            r@.map_values(|x: String| x@) =~= vs.take(i as int).filter(|x: Seq<char>| x != s@),
        decreases v@.len() - i,
    {
        proof {
            assert(vs.take(i as int + 1) =~= vs.take(i as int).push(vs[i as int]));
            crate::store::lemma_filter_push(vs.take(i as int), vs[i as int], |x: Seq<char>| x != s@);
        }
        if !v[i].eq(s) {
            r.push(v[i].clone());
            proof {
                assert(r@ =~= r@.drop_last().push(r@.last()));
                crate::collect::lemma_map_push(r@.drop_last(), |x: String| x@, r@.last());
            }
        }
        i = i + 1;
    }
    proof {
        assert(vs.take(vs.len() as int) =~= vs);
    }
    r
}

/// The partial sums of the question counts never exceed the total.
proof fn lemma_ti_sum_prefix(s: Seq<TopicIndexSlot>, n: int)
    requires
        0 <= n <= s.len(),
    ensures
        ti_sum(s.take(n)) <= ti_sum(s),
        ti_sum(s.take(n)) >= 0,
    decreases s.len() - n,
{
    lemma_ti_sum_bound(s.take(n));
    if n == s.len() {
        assert(s.take(n) =~= s);
        lemma_ti_sum_bound(s);
    } else {
        lemma_ti_sum_prefix(s, n + 1);
        assert(s.take(n + 1).drop_last() =~= s.take(n));
    }
}

/// A question-count sum is nonnegative.
proof fn lemma_ti_sum_bound(s: Seq<TopicIndexSlot>)
    ensures
        ti_sum(s) >= 0,
    decreases s.len(),
{
    if s.len() > 0 {
        lemma_ti_sum_bound(s.drop_last());
    }
}

/// Removing a slot cannot raise the question-count sum.
proof fn lemma_ti_sum_le(pre: Seq<TopicIndexSlot>, post: Seq<TopicIndexSlot>)
    requires
        post == pre || exists|i: int| 0 <= i < pre.len() && post =~= #[trigger] pre.remove(i),
    ensures
        ti_sum(post) <= ti_sum(pre),
{
    lemma_ti_sum_bound(pre);
    lemma_ti_sum_bound(post);
    if post != pre {
        let i = choose|i: int| 0 <= i < pre.len() && post =~= #[trigger] pre.remove(i);
        lemma_ti_sum_remove(pre, i);
    }
}

/// The sum after removing one slot drops by exactly its count.
proof fn lemma_ti_sum_remove(s: Seq<TopicIndexSlot>, i: int)
    requires
        0 <= i < s.len(),
    ensures
        ti_sum(s.remove(i)) == ti_sum(s) - s[i].entry.question_count,
    decreases s.len(),
{
    if i == s.len() - 1 {
        assert(s.remove(i) =~= s.drop_last());
    } else {
        assert(s.remove(i).drop_last() =~= s.drop_last().remove(i));
        assert(s.drop_last()[i] == s[i]);
        lemma_ti_sum_remove(s.drop_last(), i);
        assert(s.remove(i).last() == s.last());
    }
}


/// Container for one topic's questions, loaded on demand.
#[derive(Clone, Debug, PartialEq)]
pub struct TopicQuestions {
    pub topic_id: String,
    pub version: String,
    pub questions: Vec<Question>,
}

impl TopicQuestions {
    /// An empty container for a topic, in the current format version.
    pub fn new(topic_id: String) -> (r: Self)
        ensures
            r.topic_id@ == topic_id@,
            r.version@ == "2.0"@,
            r.questions@.len() == 0,
    {
        TopicQuestions {
            topic_id,
            version: String::from_str("2.0"),
            questions: Vec::new(),
        }
    }
}

/// Container for all topics, loaded at startup.
#[derive(Clone, Debug, PartialEq)]
pub struct TopicsContainer {
    pub version: String,
    pub topics: Vec<Topic>,
}

impl Default for TopicsContainer {
    fn default() -> (r: Self)
        ensures
            r.version@ == "2.0"@,
            r.topics@.len() == 0,
    {
        TopicsContainer { version: String::from_str("2.0"), topics: Vec::new() }
    }
}

/// Whether a list holds a string with this content.
fn contains_string(v: &Vec<String>, s: &String) -> (r: bool)
    ensures
        r == exists|i: int| 0 <= i < v@.len() && (#[trigger] v@[i])@ == s@,
{
    let mut i: usize = 0;
    while i < v.len()
        invariant
            i <= v@.len(),
            forall|j: int| 0 <= j < i ==> (#[trigger] v@[j])@ != s@,
        decreases v@.len() - i,
    {
        if v[i].eq(s) {
            return true;
        }
        i = i + 1;
    }
    false
}

/// A content-equal copy of a string list.
fn clone_string_vec(v: &Vec<String>) -> (r: Vec<String>)
    ensures
        r@.len() == v@.len(),
        forall|i: int| 0 <= i < v@.len() ==> (#[trigger] r@[i])@ == v@[i]@,
{
    let mut r: Vec<String> = Vec::new();
    let mut i: usize = 0;
    while i < v.len()
        invariant
            i <= v@.len(),
            r@.len() == i,
            forall|j: int| 0 <= j < i ==> (#[trigger] r@[j])@ == v@[j]@,
        decreases v@.len() - i,
    {
        r.push(v[i].clone());
        i = i + 1;
    }
    r
}

/// The sum after replacing one slot.
proof fn lemma_ti_sum_update(s: Seq<TopicIndexSlot>, i: int, x: TopicIndexSlot)
    requires
        0 <= i < s.len(),
    ensures
        ti_sum(s.update(i, x)) == ti_sum(s) - s[i].entry.question_count
            + x.entry.question_count,
    decreases s.len(),
{
    let u = s.update(i, x);
    if i == s.len() - 1 {
        assert(u.drop_last() =~= s.drop_last());
        assert(u.last() == x);
    } else {
        assert(u.drop_last() =~= s.drop_last().update(i, x));
        assert(s.drop_last()[i] == s[i]);
        lemma_ti_sum_update(s.drop_last(), i, x);
        assert(u.last() == s.last());
    }
}

/// The sum after appending one slot.
proof fn lemma_ti_sum_push(s: Seq<TopicIndexSlot>, x: TopicIndexSlot)
    ensures
        ti_sum(s.push(x)) == ti_sum(s) + x.entry.question_count,
{
    assert(s.push(x).drop_last() =~= s);
    assert(s.push(x).last() == x);
}

impl DatabaseIndex {
    /// Adds or refreshes one topic's index entry from its questions:
    /// question count, difficulty distribution and tag list are
    /// recomputed, the topic is registered under each of its tags, and
    /// the global statistics are refreshed.
    pub fn update_topic_entry(
        &mut self,
        topic_id: String,
        name: String,
        questions: &[Question],
        file_path: String,
    )
        requires
            old(self).wf(),
            ti_sum(old(self).topics_index.entries@) + questions@.len() <= usize::MAX,
        ensures
            final(self).wf(),
            ti_has(final(self).topics_index.entries@, topic_id@),
            indexed_entry_ok(
                final(self).topics_index.entries@,
                topic_id@,
                name@,
                file_path@,
                questions@,
            ),
            final(self).stats.total_topics == final(self).topics_index.entries@.len(),
            final(self).stats.total_questions == ti_sum(final(self).topics_index.entries@),
    {
        let ghost qs = questions@;
        let mut dd = DifficultyDistribution::default();
        let mut tags_set: Vec<String> = Vec::new();
        let mut i: usize = 0;
        proof {
            assert(qs.take(0) =~= Seq::<Question>::empty());
            assert(qs.skip(0) =~= qs);
            assert(str_views(tags_set@) =~= Seq::<Seq<char>>::empty());
        }
        while i < questions.len()
            invariant
                i <= qs.len(),
                qs == questions@,
                dd.beginner <= i,
                dd.intermediate <= i,
                dd.advanced <= i,
                dd.beginner as int == dd_count(qs.take(i as int), "beginner"@),
                dd.intermediate as int == dd_count(qs.take(i as int), "intermediate"@),
                dd.advanced as int == dd_count(qs.take(i as int), "advanced"@),
                topic_tags(qs) == tags_fold(qs.skip(i as int), str_views(tags_set@)),
            decreases qs.len() - i,
        {
            proof {
                broadcast use vstd::string::group_string_axioms;

                reveal_strlit("beginner");
                reveal_strlit("intermediate");
                reveal_strlit("advanced");
                assert(("beginner"@).len() == 8);
                assert(("beginner"@)[0] == 'b');
                assert(("intermediate"@).len() == 12);
                assert(("advanced"@).len() == 8);
                assert(("advanced"@)[0] == 'a');
                assert(qs.take(i as int + 1).drop_last() =~= qs.take(i as int));
                assert(qs.take(i as int + 1).last() == qs[i as int]);
                assert(qs.skip(i as int).first() == qs[i as int]);
                assert(qs.skip(i as int).drop_first() =~= qs.skip(i as int + 1));
            }
            let q = &questions[i];
            if crate::str_eq(&q.difficulty, "beginner") {
                dd.beginner = dd.beginner + 1;
            } else if crate::str_eq(&q.difficulty, "intermediate") {
                dd.intermediate = dd.intermediate + 1;
            } else if crate::str_eq(&q.difficulty, "advanced") {
                dd.advanced = dd.advanced + 1;
            }
            let mut t: usize = 0;
            proof {
                assert(q.tags@.skip(0) =~= q.tags@);
            }
            while t < q.tags.len()
                invariant
                    t <= q.tags@.len(),
                    qs == questions@,
                    i < qs.len(),
                    q == &questions[i as int],
                    topic_tags(qs) == tags_fold(
                        qs.skip(i as int + 1),
                        add_tags(str_views(tags_set@), q.tags@.skip(t as int)),
                    ),
                decreases q.tags@.len() - t,
            {
                proof {
                    assert(q.tags@.skip(t as int).first() == q.tags@[t as int]);
                    assert(q.tags@.skip(t as int).drop_first() =~= q.tags@.skip(t as int + 1));
                }
                let ghost acc = str_views(tags_set@);
                let present = contains_string(&tags_set, &q.tags[t]);
                proof {
                    assert(present == acc.contains(q.tags@[t as int]@)) by {
                        if present {
                            let a = choose|a: int|
                                0 <= a < tags_set@.len() && (#[trigger] tags_set@[a])@
                                    == q.tags@[t as int]@;
                            assert(acc[a] == q.tags@[t as int]@);
                        }
                        if acc.contains(q.tags@[t as int]@) {
                            let a = choose|a: int|
                                0 <= a < acc.len() && acc[a] == q.tags@[t as int]@;
                            assert(tags_set@[a]@ == q.tags@[t as int]@);
                        }
                    }
                }
                if !present {
                    tags_set.push(q.tags[t].clone());
                    proof {
                        assert(str_views(tags_set@) =~= acc.push(q.tags@[t as int]@));
                    }
                }
                t = t + 1;
            }
            proof {
                assert(q.tags@.skip(q.tags@.len() as int) =~= Seq::<String>::empty());
            }
            i = i + 1;
        }
        proof {
            assert(qs.take(qs.len() as int) =~= qs);
            assert(qs.skip(qs.len() as int) =~= Seq::<Question>::empty());
            assert(topic_tags(qs) == str_views(tags_set@));
        }
        let tags_out = clone_string_vec(&tags_set);
        let ghost nm = name@;
        let ghost fp = file_path@;
        let ghost ddb: int = dd.beginner as int;
        let ghost ddi: int = dd.intermediate as int;
        let ghost dda: int = dd.advanced as int;
        proof {
            assert(str_views(tags_out@) =~= str_views(tags_set@));
        }
        let ghost tg_out = str_views(tags_out@);
        let entry = TopicIndexEntry {
            name,
            question_count: questions.len(),
            file_path,
            tags: tags_out,
            difficulty_distribution: dd,
            last_modified: now_rfc3339(),
        };
        let ghost pre = self.topics_index.entries@;
        let ghost qc: int = entry.question_count as int;
        let ghost ev = entry;
        let key_copy = topic_id.clone();
        self.topics_index.insert(topic_id, entry);
        proof {
            lemma_ti_sum_bound(pre);
            let post = self.topics_index.entries@;
            let w: int;
            if ti_has(pre, key_copy@) {
                let i2 = choose|i2: int|
                    0 <= i2 < pre.len() && (#[trigger] pre[i2]).key@ == key_copy@ && post
                        =~= pre.update(i2, post[i2]);
                assert(post[i2].entry.question_count == qc);
                lemma_ti_sum_update(pre, i2, post[i2]);
                w = i2;
            } else {
                assert(post =~= pre.push(post[post.len() - 1]));
                assert(post[post.len() - 1].entry.question_count == qc);
                lemma_ti_sum_push(pre, post[post.len() - 1]);
                w = post.len() - 1;
            }
            assert(ti_sum(post) <= usize::MAX);
            assert((post[w]).key@ == key_copy@);
            assert(post[w].entry == ev);
            assert(ev.name@ == nm && ev.file_path@ == fp);
            assert(str_views(ev.tags@) =~= topic_tags(qs));
            assert(indexed_entry_ok(post, key_copy@, nm, fp, qs));
        }
        let ghost mid = *self;
        let mut t: usize = 0;
        while t < tags_set.len()
            invariant
                self.global_tags.wf(),
                self.topics_index == mid.topics_index,
                self.stats == mid.stats,
                self.version == mid.version,
                self.format == mid.format,
                t <= tags_set@.len(),
                ti_sum(self.topics_index.entries@) <= usize::MAX,
            decreases tags_set@.len() - t,
        {
            register_tag(&mut self.global_tags, &tags_set[t], &key_copy, questions.len());
            t = t + 1;
        }
        self.update_stats();
    }
}

/// Registers a topic under one tag: refreshes the tag's count and adds
/// the topic to its list if absent, creating the tag when new.
fn register_tag(tags: &mut TagMap, tag: &String, topic_key: &String, count: usize)
    requires
        old(tags).wf(),
    ensures
        final(tags).wf(),
{
    match tags.find(tag) {
        Some(i) => {
            tags.entries[i].info.count = count;
            if !contains_string(&tags.entries[i].info.topics, topic_key) {
                let k = topic_key.clone();
                tags.entries[i].info.topics.push(k);
            }
            proof {
                assert forall|a: int, b: int|
                    0 <= a < b < tags.entries@.len() implies tags.entries@[a].key@
                    != tags.entries@[b].key@ by {
                    assert(old(tags).entries@[a].key@ != old(tags).entries@[b].key@);
                }
            }
        }
        None => {
            let mut topics: Vec<String> = Vec::new();
            topics.push(topic_key.clone());
            let slot = TagSlot { key: tag.clone(), info: TagInfo { count, topics } };
            let ghost sk = slot.key@;
            proof {
                assert(sk == tag@);
            }
            tags.entries.push(slot);
            proof {
                assert forall|a: int, b: int|
                    0 <= a < b < tags.entries@.len() implies tags.entries@[a].key@
                    != tags.entries@[b].key@ by {
                    if b < tags.entries@.len() - 1 {
                        assert(old(tags).entries@[a].key@ != old(tags).entries@[b].key@);
                    } else {
                        assert(tags.entries@[a] == old(tags).entries@[a]);
                        assert(tags.entries@[b].key@ == sk);
                    }
                }
            }
        }
    }
}

} // verus!
