//! The change collector: renders every dirty row — tombstones first,
//! then live rows, per collection — into transport-agnostic change
//! records. Dirtiness (a null `confirmed_at`) is the sole selection
//! criterion, so an unacknowledged push is re-collected by the next
//! cycle and delivery is at least once. The pass is read-only.

use vstd::prelude::*;

verus! {

use crate::Collection;
use crate::codec::{enc_progress, enc_question, enc_session, enc_topic, encode_progress,
    encode_question, encode_session, encode_topic};
use crate::record::{ChangeRecord, EntryV, Payload, RecordV};
use crate::row::{Fields, FieldsV, Row, RowV};
use crate::store::{lemma_filter_push, rv, wf_table, LocalStore, StoreV};

/// The wire payload of a live row: its non-null fields, keyed by their
/// wire names.
pub open spec fn enc_fields(key: Seq<char>, f: FieldsV) -> Seq<EntryV> {
    match f {
        FieldsV::Topic(t) => enc_topic(t),
        FieldsV::Question(q) => enc_question(q),
        FieldsV::Progress(p) => enc_progress(key, p),
        FieldsV::Session(s) => enc_session(s),
    }
}

/// The change record of a dirty tombstone: key and revision only —
/// remote reconciliation needs nothing more to delete.
pub open spec fn tomb_record(r: RowV) -> RecordV {
    RecordV {
        collection: r.fields.collection(),
        key: r.key,
        payload: Seq::empty(),
        revision: r.revision,
        deleted: true,
    }
}

/// The change record of a dirty live row: every non-null field is
/// serialized into the payload.
pub open spec fn live_record(r: RowV) -> RecordV {
    RecordV {
        collection: r.fields.collection(),
        key: r.key,
        payload: enc_fields(r.key, r.fields),
        revision: r.revision,
        deleted: false,
    }
}

/// The dirty tombstones of a table, in table order.
pub open spec fn tombs_records(rows: Seq<RowV>) -> Seq<RecordV> {
    rows.filter(|r: RowV| r.dirty() && r.deleted).map_values(|r: RowV| tomb_record(r))
}

/// The dirty live rows of a table, in table order.
pub open spec fn live_records(rows: Seq<RowV>) -> Seq<RecordV> {
    rows.filter(|r: RowV| r.dirty() && !r.deleted).map_values(|r: RowV| live_record(r))
}

/// One table's contribution: tombstones first, then live rows.
pub open spec fn collect_table(rows: Seq<RowV>) -> Seq<RecordV> {
    tombs_records(rows) + live_records(rows)
}

/// Everything one cycle pushes, per collection in dependency order.
pub open spec fn spec_collect(s: StoreV) -> Seq<RecordV> {
    collect_table(s.topics) + (collect_table(s.questions) + (collect_table(s.progress)
        + collect_table(s.sessions)))
}

/// Spec view of a record vector.
pub open spec fn recv(recs: Seq<ChangeRecord>) -> Seq<RecordV> {
    recs.map_values(|r: ChangeRecord| r@)
}

/// Mapping commutes with appending one element.
pub proof fn lemma_map_push<A, B>(s: Seq<A>, f: spec_fn(A) -> B, x: A)
    ensures
        s.push(x).map_values(f) =~= s.map_values(f).push(f(x)),
{
}

impl LocalStore {
    /// Scans the local store for dirty rows across all collections and
    /// renders them into change records: per collection, tombstones
    /// first, then live rows. Read-only; no row is touched.
    pub fn collect_local_changes(&self) -> (r: Vec<ChangeRecord>)
        ensures
            recv(r@) =~= spec_collect(self@),
    {
        let mut out: Vec<ChangeRecord> = Vec::new();
        collect_from(&self.topics, &mut out);
        collect_from(&self.questions, &mut out);
        collect_from(&self.progress, &mut out);
        collect_from(&self.sessions, &mut out);
        out
    }
}

/// Serializes one live row's fields into a payload.
fn encode_fields(row: &Row) -> (p: Payload)
    ensures
        p@ =~= enc_fields(row@.key, row@.fields),
{
    match &row.fields {
        Fields::Topic(f) => encode_topic(f),
        Fields::Question(f) => encode_question(f),
        Fields::Progress(f) => encode_progress(&row.key, f),
        Fields::Session(f) => encode_session(f),
    }
}

/// Appends one table's dirty rows to the outgoing batch, tombstones
/// first.
fn collect_from(rows: &Vec<Row>, out: &mut Vec<ChangeRecord>)
    ensures
        recv(final(out)@) =~= recv(old(out)@) + collect_table(rv(rows@)),
{
    let ghost base = recv(old(out)@);
    let ghost table = rv(rows@);
    let mut i: usize = 0;
    proof {
        assert(table.take(0) =~= Seq::<RowV>::empty());
        assert(tombs_records(table.take(0)) =~= Seq::<RecordV>::empty());
        assert(base + tombs_records(table.take(0)) =~= base);
    }
    while i < rows.len()
        invariant
            i <= rows@.len(),
            table == rv(rows@),
            recv(out@) =~= base + tombs_records(table.take(i as int)),
        decreases rows@.len() - i,
    {
        proof {
            assert(table.take(i as int + 1) =~= table.take(i as int).push(table[i as int]));
            lemma_filter_push(
                table.take(i as int),
                table[i as int],
                |r: RowV| r.dirty() && r.deleted,
            );
            lemma_map_push(
                table.take(i as int).filter(|r: RowV| r.dirty() && r.deleted),
                |r: RowV| tomb_record(r),
                table[i as int],
            );
        }
        if rows[i].confirmed_at.is_none() && rows[i].deleted {
            let c = rows[i].fields.collection();
            let rec = ChangeRecord {
                collection: c,
                key: rows[i].key.clone(),
                payload: Payload::empty(),
                revision: rows[i].revision,
                deleted: true,
            };
            proof {
                assert(rec@ == tomb_record(table[i as int]));
            }
            out.push(rec);
            proof {
                assert(out@ =~= out@.drop_last().push(out@.last()));
                lemma_map_push(out@.drop_last(), |r: ChangeRecord| r@, out@.last());
                assert(base + tombs_records(table.take(i as int)).push(rec@) =~= (base
                    + tombs_records(table.take(i as int))).push(rec@));
            }
        }
        i = i + 1;
    }
    proof {
        assert(table.take(table.len() as int) =~= table);
    }
    let mut j: usize = 0;
    let ghost base2 = recv(out@);
    proof {
        assert(live_records(table.take(0)) =~= Seq::<RecordV>::empty());
        assert(base2 + live_records(table.take(0)) =~= base2);
    }
    while j < rows.len()
        invariant
            j <= rows@.len(),
            table == rv(rows@),
            base2 =~= base + tombs_records(table),
            recv(out@) =~= base2 + live_records(table.take(j as int)),
        decreases rows@.len() - j,
    {
        proof {
            assert(table.take(j as int + 1) =~= table.take(j as int).push(table[j as int]));
            lemma_filter_push(
                table.take(j as int),
                table[j as int],
                |r: RowV| r.dirty() && !r.deleted,
            );
            lemma_map_push(
                table.take(j as int).filter(|r: RowV| r.dirty() && !r.deleted),
                |r: RowV| live_record(r),
                table[j as int],
            );
        }
        if rows[j].confirmed_at.is_none() && !rows[j].deleted {
            let c = rows[j].fields.collection();
            let payload = encode_fields(&rows[j]);
            let rec = ChangeRecord {
                collection: c,
                key: rows[j].key.clone(),
                payload,
                revision: rows[j].revision,
                deleted: false,
            };
            proof {
                assert(rec@.payload =~= enc_fields(table[j as int].key, table[j as int].fields));
                assert(rec@ == live_record(table[j as int]));
            }
            out.push(rec);
            proof {
                assert(out@ =~= out@.drop_last().push(out@.last()));
                lemma_map_push(out@.drop_last(), |r: ChangeRecord| r@, out@.last());
                assert(base2 + live_records(table.take(j as int)).push(rec@) =~= (base2
                    + live_records(table.take(j as int))).push(rec@));
            }
        }
        j = j + 1;
    }
    proof {
        assert(table.take(table.len() as int) =~= table);
        assert((base + tombs_records(table)) + live_records(table) =~= base + collect_table(
            table,
        ));
        assert(recv(out@) =~= base + collect_table(table));
    }
}

/// How many records of the batch carry the given collection and key.
pub open spec fn count_key(recs: Seq<RecordV>, c: Collection, k: Seq<char>) -> int
    decreases recs.len(),
{
    if recs.len() == 0 {
        0
    } else {
        count_key(recs.drop_last(), c, k) + (if recs.last().collection == c && recs.last().key
            == k {
            1int
        } else {
            0int
        })
    }
}

/// Counting one more record.
pub proof fn lemma_count_push(s: Seq<RecordV>, x: RecordV, c: Collection, k: Seq<char>)
    ensures
        count_key(s.push(x), c, k) == count_key(s, c, k) + (if x.collection == c && x.key == k {
            1int
        } else {
            0int
        }),
{
    assert(s.push(x).drop_last() =~= s);
    assert(s.push(x).last() == x);
}

/// Counting splits over concatenation.
pub proof fn lemma_count_concat(a: Seq<RecordV>, b: Seq<RecordV>, c: Collection, k: Seq<char>)
    ensures
        count_key(a + b, c, k) == count_key(a, c, k) + count_key(b, c, k),
    decreases b.len(),
{
    if b.len() == 0 {
        assert(a + b =~= a);
    } else {
        assert((a + b).drop_last() =~= a + b.drop_last());
        assert((a + b).last() == b.last());
        lemma_count_concat(a, b.drop_last(), c, k);
    }
}

/// A table's row with the given key that the collector would push as a
/// tombstone.
pub open spec fn has_dirty_tomb(rows: Seq<RowV>, k: Seq<char>) -> bool {
    exists|i: int|
        0 <= i < rows.len() && (#[trigger] rows[i]).key == k && rows[i].dirty() && rows[i].deleted
}

/// A table's row with the given key that the collector would push
/// alive.
pub open spec fn has_dirty_live(rows: Seq<RowV>, k: Seq<char>) -> bool {
    exists|i: int|
        0 <= i < rows.len() && (#[trigger] rows[i]).key == k && rows[i].dirty() && !rows[i].deleted
}

/// A dirty row with the given key, tombstoned or alive.
pub open spec fn has_dirty(rows: Seq<RowV>, k: Seq<char>) -> bool {
    exists|i: int| 0 <= i < rows.len() && (#[trigger] rows[i]).key == k && rows[i].dirty()
}

/// In a duplicate-free table, each dirty key is collected exactly
/// once: once as a tombstone or once alive, and a clean key not at
/// all.
pub proof fn lemma_table_count(rows: Seq<RowV>, tag: Collection, c: Collection, k: Seq<char>)
    requires
        wf_table(rows, tag),
    ensures
        count_key(tombs_records(rows), c, k) == (if c == tag && has_dirty_tomb(rows, k) {
            1int
        } else {
            0int
        }),
        count_key(live_records(rows), c, k) == (if c == tag && has_dirty_live(rows, k) {
            1int
        } else {
            0int
        }),
    decreases rows.len(),
{
    if rows.len() == 0 {
        reveal(Seq::filter);
        assert(tombs_records(rows) =~= Seq::<RecordV>::empty());
        assert(live_records(rows) =~= Seq::<RecordV>::empty());
    } else {
        let dl = rows.drop_last();
        let last = rows.last();
        assert(wf_table(dl, tag)) by {
            assert(forall|i: int| 0 <= i < dl.len() ==> dl[i] == rows[i]);
        }
        lemma_table_count(dl, tag, c, k);
        lemma_filter_push(dl, last, |r: RowV| r.dirty() && r.deleted);
        lemma_filter_push(dl, last, |r: RowV| r.dirty() && !r.deleted);
        assert(dl.push(last) =~= rows);
        lemma_map_push(
            dl.filter(|r: RowV| r.dirty() && r.deleted),
            |r: RowV| tomb_record(r),
            last,
        );
        lemma_map_push(
            dl.filter(|r: RowV| r.dirty() && !r.deleted),
            |r: RowV| live_record(r),
            last,
        );
        if last.dirty() && last.deleted {
            assert(tombs_records(rows) == tombs_records(dl).push(tomb_record(last)));
            lemma_count_push(tombs_records(dl), tomb_record(last), c, k);
            assert(live_records(rows) == live_records(dl));
        } else if last.dirty() && !last.deleted {
            assert(live_records(rows) == live_records(dl).push(live_record(last)));
            lemma_count_push(live_records(dl), live_record(last), c, k);
            assert(tombs_records(rows) == tombs_records(dl));
        } else {
            assert(tombs_records(rows) == tombs_records(dl));
            assert(live_records(rows) == live_records(dl));
        }
        assert(last.fields.collection() == tag) by {
            assert(rows[rows.len() - 1] == last);
        }
        if last.key == k {
            assert(!has_dirty_tomb(dl, k) && !has_dirty_live(dl, k)) by {
                assert forall|i: int| 0 <= i < dl.len() implies (#[trigger] dl[i]).key != k by {
                    assert(rows[i] == dl[i]);
                    assert(rows[i].key != rows[rows.len() - 1].key);
                }
            }
            if last.dirty() && last.deleted {
                assert(has_dirty_tomb(rows, k)) by {
                    assert((rows[rows.len() - 1]).key == k);
                }
                assert(!has_dirty_live(rows, k)) by {
                    if has_dirty_live(rows, k) {
                        let i = choose|i: int|
                            0 <= i < rows.len() && (#[trigger] rows[i]).key == k && rows[i].dirty()
                                && !rows[i].deleted;
                        assert(i < rows.len() - 1 ==> dl[i].key == k);
                    }
                }
            } else if last.dirty() && !last.deleted {
                assert(has_dirty_live(rows, k)) by {
                    assert((rows[rows.len() - 1]).key == k);
                }
                assert(!has_dirty_tomb(rows, k)) by {
                    if has_dirty_tomb(rows, k) {
                        let i = choose|i: int|
                            0 <= i < rows.len() && (#[trigger] rows[i]).key == k && rows[i].dirty()
                                && rows[i].deleted;
                        assert(i < rows.len() - 1 ==> dl[i].key == k);
                    }
                }
            } else {
                assert(!has_dirty_tomb(rows, k) && !has_dirty_live(rows, k)) by {
                    if has_dirty_tomb(rows, k) {
                        let i = choose|i: int|
                            0 <= i < rows.len() && (#[trigger] rows[i]).key == k && rows[i].dirty()
                                && rows[i].deleted;
                        assert(i < rows.len() - 1 ==> dl[i].key == k);
                    }
                    if has_dirty_live(rows, k) {
                        let i = choose|i: int|
                            0 <= i < rows.len() && (#[trigger] rows[i]).key == k && rows[i].dirty()
                                && !rows[i].deleted;
                        assert(i < rows.len() - 1 ==> dl[i].key == k);
                    }
                }
            }
        } else {
            assert(has_dirty_tomb(rows, k) == has_dirty_tomb(dl, k)) by {
                if has_dirty_tomb(rows, k) {
                    let i = choose|i: int|
                        0 <= i < rows.len() && (#[trigger] rows[i]).key == k && rows[i].dirty()
                            && rows[i].deleted;
                    assert(dl[i].key == k);
                    assert(has_dirty_tomb(dl, k));
                }
                if has_dirty_tomb(dl, k) {
                    let i = choose|i: int|
                        0 <= i < dl.len() && (#[trigger] dl[i]).key == k && dl[i].dirty()
                            && dl[i].deleted;
                    assert((rows[i]).key == k);
                }
            }
            assert(has_dirty_live(rows, k) == has_dirty_live(dl, k)) by {
                if has_dirty_live(rows, k) {
                    let i = choose|i: int|
                        0 <= i < rows.len() && (#[trigger] rows[i]).key == k && rows[i].dirty()
                            && !rows[i].deleted;
                    assert(dl[i].key == k);
                    assert(has_dirty_live(dl, k));
                }
                if has_dirty_live(dl, k) {
                    let i = choose|i: int|
                        0 <= i < dl.len() && (#[trigger] dl[i]).key == k && dl[i].dirty()
                            && !dl[i].deleted;
                    assert((rows[i]).key == k);
                }
            }
        }
    }
}

/// Dirty-set correctness: a key with local unacknowledged changes is
/// collected exactly once per cycle — and not at all once confirmed.
/// With the CRUD layer's contracts (`create`, `update_fields`,
/// `soft_delete` all leave the touched row dirty) this says every
/// local mutation surfaces in the very next `collect_local_changes`
/// output, exactly once, until a confirmed cycle clears it.
pub proof fn lemma_dirty_set_correctness(s: StoreV, c: Collection, k: Seq<char>)
    requires
        s.wf(),
    ensures
        count_key(spec_collect(s), c, k) == (if has_dirty(s.table(c), k) {
            1int
        } else {
            0int
        }),
{
    lemma_count_concat(
        collect_table(s.topics),
        collect_table(s.questions) + (collect_table(s.progress) + collect_table(s.sessions)),
        c,
        k,
    );
    lemma_count_concat(
        collect_table(s.questions),
        collect_table(s.progress) + collect_table(s.sessions),
        c,
        k,
    );
    lemma_count_concat(collect_table(s.progress), collect_table(s.sessions), c, k);
    lemma_count_concat(tombs_records(s.topics), live_records(s.topics), c, k);
    lemma_count_concat(tombs_records(s.questions), live_records(s.questions), c, k);
    lemma_count_concat(tombs_records(s.progress), live_records(s.progress), c, k);
    lemma_count_concat(tombs_records(s.sessions), live_records(s.sessions), c, k);
    lemma_table_count(s.topics, Collection::Topics, c, k);
    lemma_table_count(s.questions, Collection::Questions, c, k);
    lemma_table_count(s.progress, Collection::Progress, c, k);
    lemma_table_count(s.sessions, Collection::QuizSessions, c, k);
    assert(has_dirty(s.table(c), k) == (has_dirty_tomb(s.table(c), k) || has_dirty_live(
        s.table(c),
        k,
    ))) by {
        if has_dirty(s.table(c), k) {
            let i = choose|i: int|
                0 <= i < s.table(c).len() && (#[trigger] s.table(c)[i]).key == k && s.table(
                    c,
                )[i].dirty();
            if s.table(c)[i].deleted {
                assert(has_dirty_tomb(s.table(c), k));
            } else {
                assert(has_dirty_live(s.table(c), k));
            }
        }
    }
}

} // verus!
