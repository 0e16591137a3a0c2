//! The device-local store, modeled as four keyed row tables plus the
//! persisted synchronization checkpoint.
//!
//! The store is held in memory by the verified code; persistence and
//! locking are the embedding application's concern. Each table is an
//! association list with pairwise-distinct primary keys; `tmap` gives
//! its key-indexed abstraction, over which the synchronization
//! contracts are stated.

use vstd::prelude::*;

verus! {

use crate::Collection;
use crate::record::{Checkpoint, CheckpointV};
use crate::row::{Fields, FieldsV, Row, RowV};

/// Primary keys of a table are pairwise distinct.
pub open spec fn unique_keys(rows: Seq<RowV>) -> bool {
    forall|i: int, j: int| 0 <= i < j < rows.len() ==> rows[i].key != rows[j].key
}

/// Every row of a table carries fields of that table's collection.
pub open spec fn rows_tagged(rows: Seq<RowV>, c: Collection) -> bool {
    forall|i: int| 0 <= i < rows.len() ==> (#[trigger] rows[i]).fields.collection() == c
}

/// Well-formedness of one table.
pub open spec fn wf_table(rows: Seq<RowV>, c: Collection) -> bool {
    unique_keys(rows) && rows_tagged(rows, c)
}

/// Some row of the table has the given key.
pub open spec fn has_key(rows: Seq<RowV>, k: Seq<char>) -> bool {
    exists|i: int| 0 <= i < rows.len() && (#[trigger] rows[i]).key == k
}

/// The key-indexed abstraction of a table; on duplicate keys the later
/// row wins, but well-formed tables have none.
pub open spec fn tmap(rows: Seq<RowV>) -> Map<Seq<char>, RowV>
    decreases rows.len(),
{
    if rows.len() == 0 {
        Map::empty()
    } else {
        tmap(rows.drop_last()).insert(rows.last().key, rows.last())
    }
}

/// A key is in the table map exactly when some row carries it.
pub proof fn lemma_tmap_domain(rows: Seq<RowV>)
    ensures
        forall|k: Seq<char>| #[trigger] tmap(rows).contains_key(k) <==> has_key(rows, k),
    decreases rows.len(),
{
    if rows.len() > 0 {
        let dl = rows.drop_last();
        lemma_tmap_domain(dl);
        assert forall|k: Seq<char>| #[trigger] tmap(rows).contains_key(k) <==> has_key(rows, k) by {
            if tmap(rows).contains_key(k) {
                if k == rows.last().key {
                    assert((rows[rows.len() - 1]).key == k);
                    assert(has_key(rows, k));
                } else {
                    assert(tmap(dl).contains_key(k));
                    assert(has_key(dl, k));
                    let i = choose|i: int| 0 <= i < dl.len() && (#[trigger] dl[i]).key == k;
                    assert((rows[i]).key == k);
                    assert(has_key(rows, k));
                }
            }
            if has_key(rows, k) {
                let i = choose|i: int| 0 <= i < rows.len() && (#[trigger] rows[i]).key == k;
                if i < rows.len() - 1 {
                    assert((dl[i]).key == k);
                    assert(has_key(dl, k));
                    assert(tmap(dl).contains_key(k));
                } else {
                    assert(k == rows.last().key);
                }
                assert(tmap(rows).contains_key(k));
            }
        }
    }
}

/// In a duplicate-free table, the map sends each row's key to that row.
pub proof fn lemma_tmap_index(rows: Seq<RowV>, i: int)
    requires
        unique_keys(rows),
        0 <= i < rows.len(),
    ensures
        tmap(rows).contains_key(rows[i].key),
        tmap(rows)[rows[i].key] == rows[i],
    decreases rows.len(),
{
    if i == rows.len() - 1 {
    } else {
        assert(rows.drop_last()[i] == rows[i]);
        lemma_tmap_index(rows.drop_last(), i);
        assert(rows[i].key != rows.last().key);
    }
}

/// Replacing a row in place, keeping its key, updates the map at that
/// key alone.
pub proof fn lemma_tmap_update(rows: Seq<RowV>, i: int, r2: RowV)
    requires
        unique_keys(rows),
        0 <= i < rows.len(),
        r2.key == rows[i].key,
    ensures
        tmap(rows.update(i, r2)) =~= tmap(rows).insert(r2.key, r2),
        unique_keys(rows.update(i, r2)),
    decreases rows.len(),
{
    let u = rows.update(i, r2);
    assert forall|a: int, b: int| 0 <= a < b < u.len() implies u[a].key != u[b].key by {
        assert(rows[a].key != rows[b].key);
    }
    if i == rows.len() - 1 {
        assert(u.drop_last() =~= rows.drop_last());
        assert(u.last() == r2);
        assert(tmap(rows.drop_last()).insert(rows.last().key, rows.last()).insert(r2.key, r2)
            =~= tmap(rows.drop_last()).insert(r2.key, r2));
    } else {
        assert(u.drop_last() =~= rows.drop_last().update(i, r2));
        assert(rows.drop_last()[i] == rows[i]);
        lemma_tmap_update(rows.drop_last(), i, r2);
        assert(u.last() == rows.last());
        assert(r2.key != rows.last().key);
    }
}

/// Removing a row removes exactly its key from the map.
pub proof fn lemma_tmap_remove(rows: Seq<RowV>, i: int)
    requires
        unique_keys(rows),
        0 <= i < rows.len(),
    ensures
        tmap(rows.remove(i)) =~= tmap(rows).remove(rows[i].key),
        unique_keys(rows.remove(i)),
    decreases rows.len(),
{
    let u = rows.remove(i);
    assert forall|a: int, b: int| 0 <= a < b < u.len() implies u[a].key != u[b].key by {
        let a2: int = if a < i { a } else { a + 1 };
        let b2: int = if b < i { b } else { b + 1 };
        assert(u[a] == rows[a2] && u[b] == rows[b2]);
        assert(rows[a2].key != rows[b2].key);
    }
    lemma_tmap_domain(rows.drop_last());
    if i == rows.len() - 1 {
        assert(u =~= rows.drop_last());
        assert(!has_key(rows.drop_last(), rows[i].key)) by {
            if has_key(rows.drop_last(), rows[i].key) {
                let j = choose|j: int| 0 <= j < rows.drop_last().len()
                    && rows.drop_last()[j].key == rows[i].key;
                assert(rows[j].key == rows[i].key);
            }
        }
        assert(tmap(rows.drop_last()).insert(rows.last().key, rows.last()).remove(rows.last().key)
            =~= tmap(rows.drop_last()));
    } else {
        assert(u.drop_last() =~= rows.drop_last().remove(i));
        assert(rows.drop_last()[i] == rows[i]);
        lemma_tmap_remove(rows.drop_last(), i);
        assert(u.last() == rows.last());
        assert(rows[i].key != rows.last().key);
    }
}

/// Appending a row with a fresh key extends the map at that key.
pub proof fn lemma_tmap_push(rows: Seq<RowV>, r: RowV)
    requires
        unique_keys(rows),
        !has_key(rows, r.key),
    ensures
        tmap(rows.push(r)) =~= tmap(rows).insert(r.key, r),
        unique_keys(rows.push(r)),
{
    let u = rows.push(r);
    assert(u.drop_last() =~= rows);
    assert(u.last() == r);
    assert forall|a: int, b: int| 0 <= a < b < u.len() implies u[a].key != u[b].key by {
        if b == u.len() - 1 {
            assert(rows[a].key == u[a].key);
        } else {
            assert(rows[a].key != rows[b].key);
        }
    }
}

/// One step of `Seq::filter`, for loops that scan a table forward.
pub proof fn lemma_filter_push<A>(s: Seq<A>, r: A, pred: spec_fn(A) -> bool)
    ensures
        s.push(r).filter(pred) == (if pred(r) {
            s.filter(pred).push(r)
        } else {
            s.filter(pred)
        }),
{
    reveal(Seq::filter);
    assert(s.push(r).drop_last() =~= s);
    assert(s.push(r).last() == r);
}

/// Spec view of a row table.
pub open spec fn rv(rows: Seq<Row>) -> Seq<RowV> {
    rows.map_values(|r: Row| r@)
}

/// Spec view of an optional checkpoint.
pub open spec fn ocp(o: Option<Checkpoint>) -> Option<CheckpointV> {
    match o {
        Some(c) => Some(c@),
        None => None,
    }
}

/// Spec-level store.
pub struct StoreV {
    pub topics: Seq<RowV>,
    pub questions: Seq<RowV>,
    pub progress: Seq<RowV>,
    pub sessions: Seq<RowV>,
    pub checkpoint: Option<CheckpointV>,
}

impl StoreV {
    /// The table of one collection.
    pub open spec fn table(self, c: Collection) -> Seq<RowV> {
        match c {
            Collection::Topics => self.topics,
            Collection::Questions => self.questions,
            Collection::Progress => self.progress,
            Collection::QuizSessions => self.sessions,
        }
    }

    /// Every table is duplicate-free and holds rows of its own
    /// collection.
    pub open spec fn wf(self) -> bool {
        &&& wf_table(self.topics, Collection::Topics)
        &&& wf_table(self.questions, Collection::Questions)
        &&& wf_table(self.progress, Collection::Progress)
        &&& wf_table(self.sessions, Collection::QuizSessions)
    }

    /// The key-indexed abstraction of the whole store.
    pub open spec fn snap(self) -> SnapV {
        SnapV {
            topics: tmap(self.topics),
            questions: tmap(self.questions),
            progress: tmap(self.progress),
            sessions: tmap(self.sessions),
            checkpoint: self.checkpoint,
        }
    }
}

/// The key-indexed abstraction of the store: what each collection maps
/// each primary key to, with the checkpoint. Row order inside a table
/// carries no meaning for the local state, so state equality is map
/// equality.
pub struct SnapV {
    pub topics: Map<Seq<char>, RowV>,
    pub questions: Map<Seq<char>, RowV>,
    pub progress: Map<Seq<char>, RowV>,
    pub sessions: Map<Seq<char>, RowV>,
    pub checkpoint: Option<CheckpointV>,
}

impl SnapV {
    /// The map of one collection.
    pub open spec fn table(self, c: Collection) -> Map<Seq<char>, RowV> {
        match c {
            Collection::Topics => self.topics,
            Collection::Questions => self.questions,
            Collection::Progress => self.progress,
            Collection::QuizSessions => self.sessions,
        }
    }

    /// This snapshot with one collection's map replaced.
    pub open spec fn with_table(self, c: Collection, m: Map<Seq<char>, RowV>) -> SnapV {
        match c {
            Collection::Topics => SnapV { topics: m, ..self },
            Collection::Questions => SnapV { questions: m, ..self },
            Collection::Progress => SnapV { progress: m, ..self },
            Collection::QuizSessions => SnapV { sessions: m, ..self },
        }
    }

    /// Extensional equality of snapshots.
    pub open spec fn equiv(self, other: SnapV) -> bool {
        &&& self.topics =~= other.topics
        &&& self.questions =~= other.questions
        &&& self.progress =~= other.progress
        &&& self.sessions =~= other.sessions
        &&& self.checkpoint == other.checkpoint
    }
}

/// Errors of the local CRUD layer.
#[derive(Clone, Copy, Debug, PartialEq, Eq, Structural)]
pub enum StoreError {
    DuplicateKey,
    NotFound,
}

/// The device-local store.
#[derive(Clone, Debug, PartialEq)]
pub struct LocalStore {
    pub topics: Vec<Row>,
    pub questions: Vec<Row>,
    pub progress: Vec<Row>,
    pub sessions: Vec<Row>,
    pub checkpoint: Option<Checkpoint>,
}

impl View for LocalStore {
    type V = StoreV;

    open spec fn view(&self) -> StoreV {
        StoreV {
            topics: rv(self.topics@),
            questions: rv(self.questions@),
            progress: rv(self.progress@),
            sessions: rv(self.sessions@),
            checkpoint: ocp(self.checkpoint),
        }
    }
}

/// Finds the position of the row with the given key, if any.
pub fn find_row(rows: &Vec<Row>, key: &String) -> (r: Option<usize>)
    ensures
        match r {
            Some(i) => i < rows@.len() && rv(rows@)[i as int].key == key@,
            None => !has_key(rv(rows@), key@),
        },
{
    let mut i: usize = 0;
    while i < rows.len()
        invariant
            i <= rows@.len(),
            forall|j: int| 0 <= j < i ==> rv(rows@)[j].key != key@,
        decreases rows@.len() - i,
    {
        if rows[i].key.eq(key) {
            return Some(i);
        }
        i = i + 1;
    }
    None
}

/// A locally mutated row: fields replaced, revision bumped, dirty again.
pub open spec fn mutated(r: RowV, f: FieldsV) -> RowV {
    RowV { fields: f, revision: r.revision + 1, confirmed_at: None, ..r }
}

/// A locally soft-deleted row: tombstoned, revision bumped, dirty again.
/// Deletion is itself a synchronizable mutation.
pub open spec fn marked_deleted(r: RowV, at: int) -> RowV {
    RowV {
        revision: r.revision + 1,
        confirmed_at: None,
        deleted: true,
        deleted_at: Some(at),
        ..r
    }
}

/// The cascading transform applied to a child table when a topic is
/// soft-deleted: alive rows owned by the topic are tombstoned in turn.
pub open spec fn cascade_topic(r: RowV, topic: Seq<char>, at: int) -> RowV {
    if r.fields.topic_id() == Some(topic) && !r.deleted {
        marked_deleted(r, at)
    } else {
        r
    }
}

/// Every revision in the table still has headroom to be bumped.
pub open spec fn rev_bounded(rows: Seq<RowV>) -> bool {
    forall|i: int| 0 <= i < rows.len() ==> (#[trigger] rows[i]).revision < i64::MAX
}

impl LocalStore {
    /// An empty store with no checkpoint, as on a fresh device.
    pub fn new() -> (r: LocalStore)
        ensures
            r@.topics =~= Seq::<RowV>::empty(),
            r@.questions =~= Seq::<RowV>::empty(),
            r@.progress =~= Seq::<RowV>::empty(),
            r@.sessions =~= Seq::<RowV>::empty(),
            r@.checkpoint is None,
            r@.wf(),
    {
        LocalStore {
            topics: Vec::new(),
            questions: Vec::new(),
            progress: Vec::new(),
            sessions: Vec::new(),
            checkpoint: None,
        }
    }

    /// Creates a new row through the CRUD layer: revision starts at 1
    /// and the row is dirty, so the next collection pass pushes it.
    pub fn create(&mut self, key: String, fields: Fields) -> (r: Result<(), StoreError>)
        requires
            old(self)@.wf(),
        ensures
            final(self)@.wf(),
            final(self)@.checkpoint == old(self)@.checkpoint,
            ({
                let c = fields@.collection();
                match r {
                    Ok(()) => {
                        &&& !has_key(old(self)@.table(c), key@)
                        &&& final(self)@.table(c) =~= old(self)@.table(c).push(
                            (RowV {
                                key: key@,
                                fields: fields@,
                                revision: 1,
                                confirmed_at: None,
                                deleted: false,
                                deleted_at: None,
                            }))
                        &&& (forall|c2: Collection| c2 != c
                            ==> final(self)@.table(c2) == old(self)@.table(c2))
                    }
                    Err(e) => {
                        &&& e == StoreError::DuplicateKey
                        &&& has_key(old(self)@.table(c), key@)
                        &&& final(self)@ == old(self)@
                    }
                }
            }),
    {
        let c = fields.collection();
        let row = Row {
            key,
            fields,
            revision: 1,
            confirmed_at: None,
            deleted: false,
            deleted_at: None,
        };
        match c {
            Collection::Topics => create_in(&mut self.topics, row),
            Collection::Questions => create_in(&mut self.questions, row),
            Collection::Progress => create_in(&mut self.progress, row),
            Collection::QuizSessions => create_in(&mut self.sessions, row),
        }
    }
}

impl LocalStore {
    /// Replaces a row's domain fields through the CRUD layer, bumping
    /// its revision and clearing its confirmation so it is pushed
    /// again.
    pub fn update_fields(&mut self, key: &String, fields: Fields) -> (r: Result<(), StoreError>)
        requires
            old(self)@.wf(),
            rev_bounded(old(self)@.table(fields@.collection())),
        ensures
            final(self)@.wf(),
            final(self)@.checkpoint == old(self)@.checkpoint,
            ({
                let c = fields@.collection();
                match r {
                    Ok(()) => {
                        &&& (exists|i: int|
                            0 <= i < old(self)@.table(c).len()
                            && (#[trigger] old(self)@.table(c)[i]).key == key@
                            && final(self)@.table(c) =~= old(self)@.table(c).update(
                                i,
                                mutated(old(self)@.table(c)[i], fields@),
                            ))
                        &&& (forall|c2: Collection| c2 != c
                            ==> final(self)@.table(c2) == old(self)@.table(c2))
                    }
                    Err(e) => {
                        &&& e == StoreError::NotFound
                        &&& !has_key(old(self)@.table(c), key@)
                        &&& final(self)@ == old(self)@
                    }
                }
            }),
    {
        let c = fields.collection();
        match c {
            Collection::Topics => update_in(&mut self.topics, key, fields),
            Collection::Questions => update_in(&mut self.questions, key, fields),
            Collection::Progress => update_in(&mut self.progress, key, fields),
            Collection::QuizSessions => update_in(&mut self.sessions, key, fields),
        }
    }

    /// Soft-deletes a row through the CRUD layer: the row is tombstoned
    /// in place (revision bumped, confirmation cleared) so the deletion
    /// itself is pushed, and a later acknowledgement hard-removes it.
    ///
    /// Deleting a topic also tombstones its alive questions and progress
    /// rows; deleting a question also tombstones its progress row, which
    /// shares its key.
    pub fn soft_delete(&mut self, c: Collection, key: &String, at: i64) -> (found: bool)
        requires
            old(self)@.wf(),
            rev_bounded(old(self)@.topics),
            rev_bounded(old(self)@.questions),
            rev_bounded(old(self)@.progress),
            rev_bounded(old(self)@.sessions),
        ensures
            final(self)@.wf(),
            final(self)@.checkpoint == old(self)@.checkpoint,
            found == has_key(old(self)@.table(c), key@),
            soft_delete_effect(old(self)@, final(self)@, c, key@, at as int),
    {
        match c {
            Collection::Topics => {
                cascade_children(&mut self.questions, key, at);
                cascade_children(&mut self.progress, key, at);
                mark_in(&mut self.topics, key, at)
            }
            Collection::Questions => {
                mark_alive_in(&mut self.progress, key, at);
                mark_in(&mut self.questions, key, at)
            }
            Collection::Progress => mark_in(&mut self.progress, key, at),
            Collection::QuizSessions => mark_in(&mut self.sessions, key, at),
        }
    }

    /// Whether the store satisfies the library's invariant: per
    /// table, pairwise-distinct primary keys and rows of the table's
    /// own collection. Data loaded from outside the library is checked
    /// with this before the synchronization functions may run on it.
    pub fn well_formed(&self) -> (r: bool)
        ensures
            r == self@.wf(),
    {
        table_well_formed(&self.topics, Collection::Topics) && table_well_formed(
            &self.questions,
            Collection::Questions,
        ) && table_well_formed(&self.progress, Collection::Progress) && table_well_formed(
            &self.sessions,
            Collection::QuizSessions,
        )
    }

    /// The row of one collection under one primary key, if present.
    pub fn get(&self, c: Collection, key: &String) -> (r: Option<&Row>)
        ensures
            match r {
                Some(row) => exists|i: int|
                    0 <= i < self@.table(c).len() && (#[trigger] self@.table(c)[i]).key == key@
                        && row@ == self@.table(c)[i],
                None => !has_key(self@.table(c), key@),
            },
    {
        let table = match c {
            Collection::Topics => &self.topics,
            Collection::Questions => &self.questions,
            Collection::Progress => &self.progress,
            Collection::QuizSessions => &self.sessions,
        };
        match find_row(table, key) {
            Some(i) => {
                proof {
                    assert(rv(table@) == self@.table(c));
                    assert((self@.table(c)[i as int]).key == key@);
                }
                Some(&table[i])
            }
            None => {
                proof {
                    assert(rv(table@) == self@.table(c));
                }
                None
            }
        }
    }

    /// The last persisted checkpoint, if any cycle has completed.
    pub fn load_checkpoint(&self) -> (r: &Option<Checkpoint>)
        ensures
            ocp(*r) == self@.checkpoint,
    {
        &self.checkpoint
    }

    /// Persists the cursor of a successfully applied pull. The sync
    /// cycle calls this only after the apply step has succeeded.
    pub fn save_checkpoint(&mut self, cp: Checkpoint)
        ensures
            final(self)@.checkpoint == Some(cp@),
            final(self)@.topics == old(self)@.topics,
            final(self)@.questions == old(self)@.questions,
            final(self)@.progress == old(self)@.progress,
            final(self)@.sessions == old(self)@.sessions,
    {
        self.checkpoint = Some(cp);
    }

    /// Counts the dirty rows across all collections: the number of
    /// changes the next cycle will push.
    pub fn pending_changes(&self) -> (n: usize)
        requires
            self@.topics.len() + self@.questions.len() + self@.progress.len()
                + self@.sessions.len() < usize::MAX,
        ensures
            n == spec_pending(self@),
    {
        let a = count_dirty(&self.topics);
        let b = count_dirty(&self.questions);
        let c = count_dirty(&self.progress);
        let d = count_dirty(&self.sessions);
        proof {
            dirty_filter_len_bound(rv(self.topics@));
            dirty_filter_len_bound(rv(self.questions@));
            dirty_filter_len_bound(rv(self.progress@));
            dirty_filter_len_bound(rv(self.sessions@));
        }
        a + b + c + d
    }
}

/// How many rows the next collection pass will push.
pub open spec fn spec_pending(s: StoreV) -> int {
    dirty_of(s.topics).len() + dirty_of(s.questions).len() + dirty_of(s.progress).len()
        + dirty_of(s.sessions).len() as int
}

/// The dirty rows of a table.
pub open spec fn dirty_of(rows: Seq<RowV>) -> Seq<RowV> {
    rows.filter(|r: RowV| r.dirty())
}

proof fn dirty_filter_len_bound(rows: Seq<RowV>)
    ensures
        dirty_of(rows).len() <= rows.len(),
{
    rows.lemma_filter_len(|r: RowV| r.dirty());
}

/// Counts the dirty rows of one table.
fn count_dirty(rows: &Vec<Row>) -> (n: usize)
    ensures
        n == dirty_of(rv(rows@)).len(),
{
    let mut n: usize = 0;
    let mut i: usize = 0;
    proof {
        assert(rv(rows@).take(0) =~= Seq::<RowV>::empty());
    }
    while i < rows.len()
        invariant
            i <= rows@.len(),
            n == dirty_of(rv(rows@).take(i as int)).len(),
            n <= i,
        decreases rows@.len() - i,
    {
        proof {
            let pre = rv(rows@).take(i as int);
            let post = rv(rows@).take(i as int + 1);
            assert(post =~= pre.push(rv(rows@)[i as int]));
            lemma_filter_push(pre, rv(rows@)[i as int], |r: RowV| r.dirty());
            assert(rv(rows@)[i as int].dirty() == (crate::row::oint(rows@[i as int].confirmed_at) is None));
            dirty_filter_len_bound(pre);
        }
        if rows[i].confirmed_at.is_none() {
            n = n + 1;
        }
        i = i + 1;
    }
    proof {
        assert(rv(rows@).take(rows@.len() as int) =~= rv(rows@));
    }
    n
}

/// The store-level effect of one soft delete with its cascade.
pub open spec fn soft_delete_effect(
    pre: StoreV,
    post: StoreV,
    c: Collection,
    key: Seq<char>,
    at: int,
) -> bool {
    match c {
        Collection::Topics => {
            &&& marked_at_key(pre.topics, post.topics, key, at)
            &&& post.questions =~= pre.questions.map_values(
                |r: RowV| cascade_topic(r, key, at))
            &&& post.progress =~= pre.progress.map_values(
                |r: RowV| cascade_topic(r, key, at))
            &&& post.sessions == pre.sessions
        }
        Collection::Questions => {
            &&& marked_at_key(pre.questions, post.questions, key, at)
            &&& post.progress =~= pre.progress.map_values(
                |r: RowV| mark_if_alive_at(r, key, at))
            &&& post.topics == pre.topics
            &&& post.sessions == pre.sessions
        }
        Collection::Progress => {
            &&& marked_at_key(pre.progress, post.progress, key, at)
            &&& post.topics == pre.topics
            &&& post.questions == pre.questions
            &&& post.sessions == pre.sessions
        }
        Collection::QuizSessions => {
            &&& marked_at_key(pre.sessions, post.sessions, key, at)
            &&& post.topics == pre.topics
            &&& post.questions == pre.questions
            &&& post.progress == pre.progress
        }
    }
}

/// The target table after tombstoning the row with the given key, if
/// present.
pub open spec fn marked_at_key(
    pre: Seq<RowV>,
    post: Seq<RowV>,
    key: Seq<char>,
    at: int,
) -> bool {
    if has_key(pre, key) {
        exists|i: int|
            0 <= i < pre.len()
            && (#[trigger] pre[i]).key == key
            && post =~= pre.update(i, marked_deleted(pre[i], at))
    } else {
        post == pre
    }
}

/// The cascading transform applied to a row keyed like its parent: a
/// progress row shares its question's key.
pub open spec fn mark_if_alive_at(r: RowV, key: Seq<char>, at: int) -> RowV {
    if r.key == key && !r.deleted {
        marked_deleted(r, at)
    } else {
        r
    }
}

/// Replaces a row's fields in one table.
fn update_in(rows: &mut Vec<Row>, key: &String, fields: Fields) -> (r: Result<(), StoreError>)
    requires
        unique_keys(rv(old(rows)@)),
        rev_bounded(rv(old(rows)@)),
    ensures
        match r {
            Ok(()) => exists|i: int|
                0 <= i < old(rows)@.len()
                && (#[trigger] rv(old(rows)@)[i]).key == key@
                && rv(final(rows)@) =~= rv(old(rows)@).update(
                    i,
                    mutated(rv(old(rows)@)[i], fields@),
                ),
            Err(e) => {
                &&& e == StoreError::NotFound
                &&& !has_key(rv(old(rows)@), key@)
                &&& final(rows)@ == old(rows)@
            }
        },
{
    match find_row(rows, key) {
        Some(i) => {
            let rev = rows[i].revision;
            rows[i].fields = fields;
            rows[i].revision = rev + 1;
            rows[i].confirmed_at = None;
            proof {
                assert(rv(rows@) =~= rv(old(rows)@).update(
                    i as int,
                    mutated(rv(old(rows)@)[i as int], fields@),
                ));
            }
            Ok(())
        }
        None => Err(StoreError::NotFound),
    }
}

/// Tombstones the row with the given key, if present.
fn mark_in(rows: &mut Vec<Row>, key: &String, at: i64) -> (found: bool)
    requires
        unique_keys(rv(old(rows)@)),
        rev_bounded(rv(old(rows)@)),
    ensures
        found == has_key(rv(old(rows)@), key@),
        marked_at_key(rv(old(rows)@), rv(final(rows)@), key@, at as int),
{
    match find_row(rows, key) {
        Some(i) => {
            let rev = rows[i].revision;
            rows[i].revision = rev + 1;
            rows[i].confirmed_at = None;
            rows[i].deleted = true;
            rows[i].deleted_at = Some(at);
            proof {
                assert(rv(rows@) =~= rv(old(rows)@).update(
                    i as int,
                    marked_deleted(rv(old(rows)@)[i as int], at as int),
                ));
                assert(has_key(rv(old(rows)@), key@));
            }
            true
        }
        None => false,
    }
}

/// Tombstones every alive row owned by the given topic.
fn cascade_children(rows: &mut Vec<Row>, topic_key: &String, at: i64)
    requires
        rev_bounded(rv(old(rows)@)),
    ensures
        rv(final(rows)@) =~= rv(old(rows)@).map_values(
            |r: RowV| cascade_topic(r, topic_key@, at as int)),
{
    let ghost orig = rv(old(rows)@);
    let mut i: usize = 0;
    while i < rows.len()
        invariant
            i <= rows@.len(),
            rows@.len() == orig.len(),
            rev_bounded(orig),
            forall|j: int| 0 <= j < i
                ==> (#[trigger] rows@[j])@ == cascade_topic(orig[j], topic_key@, at as int),
            forall|j: int| i <= j < orig.len() ==> (#[trigger] rows@[j])@ == orig[j],
        decreases rows@.len() - i,
    {
        let alive = !rows[i].deleted;
        let owned = match &rows[i].fields {
            Fields::Question(f) => f.topic_id.eq(topic_key),
            Fields::Progress(f) => f.topic_id.eq(topic_key),
            Fields::Topic(_) => false,
            Fields::Session(_) => false,
        };
        proof {
            assert(rows@[i as int]@ == orig[i as int]);
        }
        if alive && owned {
            let rev = rows[i].revision;
            rows[i].revision = rev + 1;
            rows[i].confirmed_at = None;
            rows[i].deleted = true;
            rows[i].deleted_at = Some(at);
        }
        proof {
            assert(rows@[i as int]@ == cascade_topic(orig[i as int], topic_key@, at as int));
        }
        i = i + 1;
    }
    proof {
        assert forall|j: int| 0 <= j < orig.len()
            implies rv(rows@)[j] == orig.map_values(
                |r: RowV| cascade_topic(r, topic_key@, at as int))[j] by {
            assert(rows@[j]@ == cascade_topic(orig[j], topic_key@, at as int));
        }
        assert(rv(rows@) =~= orig.map_values(
            |r: RowV| cascade_topic(r, topic_key@, at as int)));
    }
}

/// Tombstones the alive row with the given key (a question's progress
/// row carries the question's key).
fn mark_alive_in(rows: &mut Vec<Row>, key: &String, at: i64)
    requires
        rev_bounded(rv(old(rows)@)),
    ensures
        rv(final(rows)@) =~= rv(old(rows)@).map_values(
            |r: RowV| mark_if_alive_at(r, key@, at as int)),
{
    let ghost orig = rv(old(rows)@);
    let mut i: usize = 0;
    while i < rows.len()
        invariant
            i <= rows@.len(),
            rows@.len() == orig.len(),
            rev_bounded(orig),
            forall|j: int| 0 <= j < i
                ==> (#[trigger] rows@[j])@ == mark_if_alive_at(orig[j], key@, at as int),
            forall|j: int| i <= j < orig.len() ==> (#[trigger] rows@[j])@ == orig[j],
        decreases rows@.len() - i,
    {
        let alive = !rows[i].deleted;
        proof {
            assert(rows@[i as int]@ == orig[i as int]);
        }
        if alive && rows[i].key.eq(key) {
            let rev = rows[i].revision;
            rows[i].revision = rev + 1;
            rows[i].confirmed_at = None;
            rows[i].deleted = true;
            rows[i].deleted_at = Some(at);
        }
        proof {
            assert(rows@[i as int]@ == mark_if_alive_at(orig[i as int], key@, at as int));
        }
        i = i + 1;
    }
    proof {
        assert forall|j: int| 0 <= j < orig.len()
            implies rv(rows@)[j] == orig.map_values(
                |r: RowV| mark_if_alive_at(r, key@, at as int))[j] by {
            assert(rows@[j]@ == mark_if_alive_at(orig[j], key@, at as int));
        }
        assert(rv(rows@) =~= orig.map_values(
            |r: RowV| mark_if_alive_at(r, key@, at as int)));
    }
}

/// Checks one table's invariant: distinct keys, matching collection.
fn table_well_formed(rows: &Vec<Row>, c: Collection) -> (r: bool)
    ensures
        r == wf_table(rv(rows@), c),
{
    let mut i: usize = 0;
    while i < rows.len()
        invariant
            i <= rows@.len(),
            forall|a: int, b: int| 0 <= a < b < i ==> rv(rows@)[a].key != rv(rows@)[b].key,
            forall|a: int| 0 <= a < i ==> (#[trigger] rv(rows@)[a]).fields.collection() == c,
        decreases rows@.len() - i,
    {
        if !(rows[i].fields.collection() == c) {
            return false;
        }
        let mut j: usize = 0;
        while j < i
            invariant
                j <= i < rows@.len(),
                forall|a: int| 0 <= a < j ==> rv(rows@)[a].key != rv(rows@)[i as int].key,
            decreases i - j,
        {
            if rows[j].key.eq(&rows[i].key) {
                proof {
                    assert(rv(rows@)[j as int].key == rv(rows@)[i as int].key);
                }
                return false;
            }
            j = j + 1;
        }
        i = i + 1;
    }
    true
}

/// Inserts a fresh row into one table, refusing a duplicate key.
fn create_in(rows: &mut Vec<Row>, row: Row) -> (r: Result<(), StoreError>)
    ensures
        match r {
            Ok(()) => {
                &&& !has_key(rv(old(rows)@), row.key@)
                &&& rv(final(rows)@) =~= rv(old(rows)@).push(row@)
            }
            Err(e) => {
                &&& e == StoreError::DuplicateKey
                &&& has_key(rv(old(rows)@), row.key@)
                &&& final(rows)@ == old(rows)@
            }
        },
{
    match find_row(rows, &row.key) {
        Some(_) => Err(StoreError::DuplicateKey),
        None => {
            rows.push(row);
            Ok(())
        }
    }
}

} // verus!
