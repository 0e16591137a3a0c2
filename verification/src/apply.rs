//! The remote-change applier: idempotent upserts and hard deletes,
//! ordered so that referential dependencies are respected.
//!
//! Upserts run in collection dependency rank ascending (topics, then
//! questions, then the leaves), so referents exist before referencing
//! rows; tombstones run rank descending, so referencing rows go before
//! their referents. Remote wins: an upsert replaces the local domain
//! fields wholesale, stamps the incoming revision, confirms the row,
//! and clears any local tombstone. A malformed record aborts the pass
//! with a typed error naming the missing field; rows already applied
//! stay applied, which re-delivery tolerates by idempotence.

use vstd::prelude::*;

verus! {

use crate::Collection;
use crate::codec::{dec_progress, dec_progress_key, dec_question, dec_session, dec_topic,
    decode_progress, decode_progress_key, decode_question, decode_session, decode_topic};
use crate::collect::recv;
use crate::record::{ChangeRecord, RecordV};
use crate::row::{Fields, FieldsV, Row, RowV};
use crate::store::{find_row, lemma_tmap_domain, lemma_tmap_index, lemma_tmap_push,
    lemma_tmap_remove, lemma_tmap_update, rv, tmap, unique_keys, wf_table, LocalStore, SnapV};

/// A malformed remote record: the named required field was absent from
/// the payload of the named record.
#[derive(Clone, Debug, PartialEq)]
pub struct ApplyError {
    pub collection: Collection,
    pub key: String,
    pub field: String,
}

/// Spec-level apply error.
pub struct ApplyErrV {
    pub collection: Collection,
    pub key: Seq<char>,
    pub field: Seq<char>,
}

impl View for ApplyError {
    type V = ApplyErrV;

    open spec fn view(&self) -> ApplyErrV {
        ApplyErrV { collection: self.collection, key: self.key@, field: self.field@ }
    }
}

/// Decodes a record's payload into the primary key it upserts under
/// and its typed domain fields.
pub open spec fn dec_rec(r: RecordV) -> Result<(Seq<char>, FieldsV), Seq<char>> {
    match r.collection {
        Collection::Topics => match dec_topic(r.payload) {
            Ok(f) => Ok((r.key, FieldsV::Topic(f))),
            Err(e) => Err(e),
        },
        Collection::Questions => match dec_question(r.payload) {
            Ok(f) => Ok((r.key, FieldsV::Question(f))),
            Err(e) => Err(e),
        },
        Collection::Progress => match dec_progress(r.payload) {
            Ok(f) => Ok((dec_progress_key(r.payload, r.key), FieldsV::Progress(f))),
            Err(e) => Err(e),
        },
        Collection::QuizSessions => match dec_session(r.payload) {
            Ok(f) => Ok((r.key, FieldsV::Session(f))),
            Err(e) => Err(e),
        },
    }
}

/// Whether a record would be refused by the applier. Only upserts can
/// be malformed; a tombstone needs nothing but its key.
pub open spec fn rec_errs(r: RecordV) -> bool {
    !r.deleted && dec_rec(r) is Err
}

/// One upsert against a table map: present rows are overwritten in
/// full (remote wins) and confirmed now; absent rows are inserted
/// confirmed. A surviving local `deleted_at` stamp is kept, as the
/// update statement never touches that column.
pub open spec fn upsert_snap(
    m: Map<Seq<char>, RowV>,
    key: Seq<char>,
    fields: FieldsV,
    revision: int,
    now: int,
) -> Map<Seq<char>, RowV> {
    let deleted_at = if m.contains_key(key) {
        m[key].deleted_at
    } else {
        None
    };
    m.insert(
        key,
        RowV { key, fields, revision, confirmed_at: Some(now), deleted: false, deleted_at },
    )
}

/// One record applied to the store snapshot.
pub open spec fn apply_one(st: SnapV, r: RecordV, now: int) -> Result<SnapV, ApplyErrV> {
    if r.deleted {
        Ok(st.with_table(r.collection, st.table(r.collection).remove(r.key)))
    } else {
        match dec_rec(r) {
            Ok(kf) => Ok(
                st.with_table(
                    r.collection,
                    upsert_snap(st.table(r.collection), kf.0, kf.1, r.revision, now),
                ),
            ),
            Err(field) => Err(ApplyErrV { collection: r.collection, key: r.key, field }),
        }
    }
}

/// A batch applied in order, stopping at the first malformed record;
/// what was applied before it stays applied.
pub open spec fn run_apply(st: SnapV, recs: Seq<RecordV>, now: int) -> (SnapV, Option<ApplyErrV>)
    decreases recs.len(),
{
    if recs.len() == 0 {
        (st, None)
    } else {
        match apply_one(st, recs.first(), now) {
            Ok(st2) => run_apply(st2, recs.drop_first(), now),
            Err(e) => (st, Some(e)),
        }
    }
}

/// The predicate selecting one of the applier's six passes.
pub open spec fn pass_pred(del: bool, rank: int) -> spec_fn(RecordV) -> bool {
    |r: RecordV|
        r.deleted == del && (if del {
            r.collection.delete_rank()
        } else {
            r.collection.upsert_rank()
        }) == rank
}

/// The order in which the applier processes a batch: upserts by
/// dependency rank ascending, then tombstones by dependency rank
/// descending; within a pass, batch order is kept.
pub open spec fn apply_order(recs: Seq<RecordV>) -> Seq<RecordV> {
    recs.filter(pass_pred(false, 0)) + (recs.filter(pass_pred(false, 1)) + (recs.filter(
        pass_pred(false, 2),
    ) + (recs.filter(pass_pred(true, 0)) + (recs.filter(pass_pred(true, 1)) + recs.filter(
        pass_pred(true, 2),
    )))))
}

/// Appending one record to a run.
pub proof fn lemma_run_snoc(st: SnapV, recs: Seq<RecordV>, r: RecordV, now: int)
    ensures
        run_apply(st, recs.push(r), now) == ({
            let (st1, e1) = run_apply(st, recs, now);
            if e1 is Some {
                (st1, e1)
            } else {
                match apply_one(st1, r, now) {
                    Ok(st2) => (st2, None::<ApplyErrV>),
                    Err(e) => (st1, Some(e)),
                }
            }
        }),
    decreases recs.len(),
{
    if recs.len() == 0 {
        reveal_with_fuel(run_apply, 3);
        assert(recs.push(r).first() == r);
        assert(recs.push(r).drop_first() =~= Seq::<RecordV>::empty());
        assert(run_apply(st, recs, now) == (st, None::<ApplyErrV>));
        match apply_one(st, r, now) {
            Ok(st2) => {
                assert(run_apply(st, recs.push(r), now) == (st2, None::<ApplyErrV>));
            }
            Err(e) => {
                assert(run_apply(st, recs.push(r), now) == (st, Some(e)));
            }
        }
    } else {
        assert(recs.push(r).first() == recs.first());
        assert(recs.push(r).drop_first() =~= recs.drop_first().push(r));
        lemma_run_snoc(st, recs.drop_first(), r, now);
        match apply_one(st, recs.first(), now) {
            Ok(st2) => {
                lemma_run_snoc(st2, recs.drop_first(), r, now);
            }
            Err(_) => {}
        }
    }
}

/// Splitting a run over concatenation: the tail runs from the head's
/// final state, unless the head already failed.
pub proof fn lemma_run_concat(st: SnapV, a: Seq<RecordV>, b: Seq<RecordV>, now: int)
    ensures
        run_apply(st, a + b, now) == ({
            let (st1, e1) = run_apply(st, a, now);
            if e1 is Some {
                (st1, e1)
            } else {
                run_apply(st1, b, now)
            }
        }),
    decreases a.len(),
{
    if a.len() == 0 {
        assert(a + b =~= b);
    } else {
        assert((a + b).first() == a.first());
        assert((a + b).drop_first() =~= a.drop_first() + b);
        match apply_one(st, a.first(), now) {
            Ok(st2) => {
                lemma_run_concat(st2, a.drop_first(), b, now);
            }
            Err(_) => {}
        }
    }
}

/// The dependency rank this record's pass sorts by.
fn rank_of(c: Collection, del: bool) -> (n: u8)
    ensures
        n as int == (if del {
            c.delete_rank()
        } else {
            c.upsert_rank()
        }),
{
    if del {
        match c {
            Collection::Topics => 2,
            Collection::Questions => 1,
            Collection::Progress => 0,
            Collection::QuizSessions => 0,
        }
    } else {
        match c {
            Collection::Topics => 0,
            Collection::Questions => 1,
            Collection::Progress => 2,
            Collection::QuizSessions => 2,
        }
    }
}

/// Hard-deletes the row with the given key; absence is not an error.
pub(crate) fn delete_in(rows: &mut Vec<Row>, key: &String)
    requires
        unique_keys(rv(old(rows)@)),
    ensures
        unique_keys(rv(final(rows)@)),
        tmap(rv(final(rows)@)) =~= tmap(rv(old(rows)@)).remove(key@),
        forall|i: int| 0 <= i < final(rows)@.len() ==> exists|j: int|
            0 <= j < old(rows)@.len() && (#[trigger] rv(final(rows)@)[i]) == rv(old(rows)@)[j],
{
    proof {
        lemma_tmap_domain(rv(rows@));
    }
    match find_row(rows, key) {
        Some(i) => {
            proof {
                lemma_tmap_remove(rv(rows@), i as int);
            }
            rows.remove(i);
            proof {
                assert(rv(rows@) =~= rv(old(rows)@).remove(i as int));
                assert forall|a: int| 0 <= a < rows@.len() implies exists|j: int|
                    0 <= j < old(rows)@.len() && (#[trigger] rv(rows@)[a]) == rv(old(rows)@)[j] by {
                    let j: int = if a < i { a } else { a + 1 };
                    assert(rv(rows@)[a] == rv(old(rows)@)[j]);
                }
            }
        }
        None => {
            proof {
                assert(!tmap(rv(rows@)).contains_key(key@));
                assert(tmap(rv(rows@)) =~= tmap(rv(old(rows)@)).remove(key@));
            }
        }
    }
}

/// Upserts one decoded record into a table: update in place if the key
/// exists, else insert at the end. Either way the row comes out
/// confirmed, alive, and carrying the incoming fields and revision.
fn upsert_in(rows: &mut Vec<Row>, key: String, fields: Fields, revision: i64, now: i64)
    requires
        wf_table(rv(old(rows)@), fields@.collection()),
    ensures
        wf_table(rv(final(rows)@), fields@.collection()),
        tmap(rv(final(rows)@)) =~= upsert_snap(
            tmap(rv(old(rows)@)),
            key@,
            fields@,
            revision as int,
            now as int,
        ),
{
    proof {
        lemma_tmap_domain(rv(rows@));
    }
    match find_row(rows, &key) {
        Some(i) => {
            proof {
                lemma_tmap_index(rv(rows@), i as int);
            }
            let deleted_at = rows[i].deleted_at;
            let new_row = Row {
                key,
                fields,
                revision,
                confirmed_at: Some(now),
                deleted: false,
                deleted_at,
            };
            let ghost nv = new_row@;
            proof {
                lemma_tmap_update(rv(rows@), i as int, nv);
            }
            rows[i] = new_row;
            proof {
                assert(rv(rows@) =~= rv(old(rows)@).update(i as int, nv));
            }
        }
        None => {
            let new_row = Row {
                key,
                fields,
                revision,
                confirmed_at: Some(now),
                deleted: false,
                deleted_at: None,
            };
            let ghost nv = new_row@;
            proof {
                lemma_tmap_push(rv(rows@), nv);
            }
            rows.push(new_row);
            proof {
                assert(rv(rows@) =~= rv(old(rows)@).push(nv));
            }
        }
    }
}

/// Applies one upsert record, decoding its payload first.
fn apply_upsert(store: &mut LocalStore, rec: &ChangeRecord, now: i64) -> (r: Result<
    (),
    ApplyError,
>)
    requires
        old(store)@.wf(),
        !rec.deleted,
    ensures
        final(store)@.wf(),
        final(store)@.checkpoint == old(store)@.checkpoint,
        ({
            let out = apply_one(old(store)@.snap(), rec@, now as int);
            match r {
                Ok(()) => out is Ok && final(store)@.snap().equiv(out->Ok_0),
                Err(e) => out == Err::<SnapV, ApplyErrV>(e@) && final(store)@ == old(store)@,
            }
        }),
{
    match rec.collection {
        Collection::Topics => {
            match decode_topic(&rec.payload) {
                Ok(f) => {
                    upsert_in(&mut store.topics, rec.key.clone(), Fields::Topic(f), rec.revision, now);
                    Ok(())
                }
                Err(field) => Err(
                    ApplyError {
                        collection: rec.collection,
                        key: rec.key.clone(),
                        field,
                    },
                ),
            }
        }
        Collection::Questions => {
            match decode_question(&rec.payload) {
                Ok(f) => {
                    upsert_in(
                        &mut store.questions,
                        rec.key.clone(),
                        Fields::Question(f),
                        rec.revision,
                        now,
                    );
                    Ok(())
                }
                Err(field) => Err(
                    ApplyError {
                        collection: rec.collection,
                        key: rec.key.clone(),
                        field,
                    },
                ),
            }
        }
        Collection::Progress => {
            match decode_progress(&rec.payload) {
                Ok(f) => {
                    let key = decode_progress_key(&rec.payload, &rec.key);
                    upsert_in(&mut store.progress, key, Fields::Progress(f), rec.revision, now);
                    Ok(())
                }
                Err(field) => Err(
                    ApplyError {
                        collection: rec.collection,
                        key: rec.key.clone(),
                        field,
                    },
                ),
            }
        }
        Collection::QuizSessions => {
            match decode_session(&rec.payload) {
                Ok(f) => {
                    upsert_in(
                        &mut store.sessions,
                        rec.key.clone(),
                        Fields::Session(f),
                        rec.revision,
                        now,
                    );
                    Ok(())
                }
                Err(field) => Err(
                    ApplyError {
                        collection: rec.collection,
                        key: rec.key.clone(),
                        field,
                    },
                ),
            }
        }
    }
}

/// Applies one tombstone record: a hard delete by primary key.
fn apply_tombstone(store: &mut LocalStore, rec: &ChangeRecord)
    requires
        old(store)@.wf(),
        rec.deleted,
    ensures
        final(store)@.wf(),
        final(store)@.checkpoint == old(store)@.checkpoint,
        apply_one(old(store)@.snap(), rec@, 0) is Ok,
        forall|now: int| final(store)@.snap().equiv(apply_one(old(store)@.snap(), rec@, now)->Ok_0),
{
    match rec.collection {
        Collection::Topics => delete_in(&mut store.topics, &rec.key),
        Collection::Questions => delete_in(&mut store.questions, &rec.key),
        Collection::Progress => delete_in(&mut store.progress, &rec.key),
        Collection::QuizSessions => delete_in(&mut store.sessions, &rec.key),
    }
}

impl LocalStore {
    /// Applies a pulled remote batch: partitions it into upserts and
    /// tombstones, orders upserts by dependency rank ascending and
    /// tombstones descending, then upserts or hard-deletes row by row.
    /// Safe to invoke again after a partial earlier attempt: every
    /// per-row operation is idempotent. The checkpoint is not touched.
    #[verifier::rlimit(100)]
    pub fn apply_remote_changes(&mut self, records: &Vec<ChangeRecord>, now: i64) -> (r: Result<
        (),
        ApplyError,
    >)
        requires
            old(self)@.wf(),
        ensures
            final(self)@.wf(),
            final(self)@.checkpoint == old(self)@.checkpoint,
            ({
                let out = run_apply(old(self)@.snap(), apply_order(recv(records@)), now as int);
                &&& final(self)@.snap().equiv(out.0)
                &&& match r {
                    Ok(()) => out.1 is None,
                    Err(e) => out.1 == Some(e@),
                }
            }),
    {
        let ghost st0 = self@.snap();
        let ghost all = recv(records@);
        let ghost f0 = all.filter(pass_pred(false, 0));
        let ghost f1 = all.filter(pass_pred(false, 1));
        let ghost f2 = all.filter(pass_pred(false, 2));
        let ghost f3 = all.filter(pass_pred(true, 0));
        let ghost f4 = all.filter(pass_pred(true, 1));
        let ghost f5 = all.filter(pass_pred(true, 2));
        let ghost whole = apply_order(all);

        let mut prefix: Ghost<Seq<RecordV>> = Ghost(Seq::empty());
        proof {
            assert(Seq::<RecordV>::empty() + f0 =~= f0);
        }
        match apply_pass(self, records, false, 0, now, Ghost(st0), prefix) {
            Ok(()) => {}
            Err(e) => {
                proof {
                    lemma_pass_err(st0, prefix@, f0, f1 + (f2 + (f3 + (f4 + f5))), e@, now as int);
                    assert((prefix@ + f0) + (f1 + (f2 + (f3 + (f4 + f5)))) =~= whole);
                }
                return Err(e);
            }
        }
        prefix = Ghost(prefix@ + f0);
        match apply_pass(self, records, false, 1, now, Ghost(st0), prefix) {
            Ok(()) => {}
            Err(e) => {
                proof {
                    lemma_pass_err(st0, prefix@, f1, f2 + (f3 + (f4 + f5)), e@, now as int);
                    assert((prefix@ + f1) + (f2 + (f3 + (f4 + f5))) =~= whole);
                }
                return Err(e);
            }
        }
        prefix = Ghost(prefix@ + f1);
        match apply_pass(self, records, false, 2, now, Ghost(st0), prefix) {
            Ok(()) => {}
            Err(e) => {
                proof {
                    lemma_pass_err(st0, prefix@, f2, f3 + (f4 + f5), e@, now as int);
                    assert((prefix@ + f2) + (f3 + (f4 + f5)) =~= whole);
                }
                return Err(e);
            }
        }
        prefix = Ghost(prefix@ + f2);
        match apply_pass(self, records, true, 0, now, Ghost(st0), prefix) {
            Ok(()) => {}
            Err(e) => {
                proof {
                    broadcast use vstd::seq_lib::group_seq_properties;

                    assert forall|i: int| 0 <= i < f3.len() implies (#[trigger] f3[i]).deleted by {
                        all.lemma_filter_pred(pass_pred(true, 0), i);
                    }
                    lemma_run_concat(st0, prefix@, f3, now as int);
                    lemma_all_deleted_no_err(run_apply(st0, prefix@, now as int).0, f3, now as int);
                    assert(false);
                }
                return Err(e);
            }
        }
        prefix = Ghost(prefix@ + f3);
        match apply_pass(self, records, true, 1, now, Ghost(st0), prefix) {
            Ok(()) => {}
            Err(e) => {
                proof {
                    broadcast use vstd::seq_lib::group_seq_properties;

                    assert forall|i: int| 0 <= i < f4.len() implies (#[trigger] f4[i]).deleted by {
                        all.lemma_filter_pred(pass_pred(true, 1), i);
                    }
                    lemma_run_concat(st0, prefix@, f4, now as int);
                    lemma_all_deleted_no_err(run_apply(st0, prefix@, now as int).0, f4, now as int);
                    assert(false);
                }
                return Err(e);
            }
        }
        prefix = Ghost(prefix@ + f4);
        match apply_pass(self, records, true, 2, now, Ghost(st0), prefix) {
            Ok(()) => {}
            Err(e) => {
                proof {
                    assert forall|i: int| 0 <= i < f5.len() implies (#[trigger] f5[i]).deleted by {
                        all.lemma_filter_pred(pass_pred(true, 2), i);
                    }
                    lemma_run_concat(st0, prefix@, f5, now as int);
                    lemma_all_deleted_no_err(run_apply(st0, prefix@, now as int).0, f5, now as int);
                    assert(false);
                }
                return Err(e);
            }
        }
        proof {
            assert(((((f0 + f1) + f2) + f3) + f4) + f5 =~= whole);
        }
        Ok(())
    }
}

/// A batch of tombstones never fails: a delete needs only its key.
proof fn lemma_all_deleted_no_err(st: SnapV, recs: Seq<RecordV>, now: int)
    requires
        forall|i: int| 0 <= i < recs.len() ==> (#[trigger] recs[i]).deleted,
    ensures
        run_apply(st, recs, now).1 is None,
    decreases recs.len(),
{
    if recs.len() > 0 {
        assert(recs[0].deleted);
        let st2 = apply_one(st, recs.first(), now)->Ok_0;
        assert(forall|i: int| 0 <= i < recs.drop_first().len()
            ==> (#[trigger] recs.drop_first()[i]).deleted) by {
            assert(forall|i: int| 0 <= i < recs.drop_first().len()
                ==> recs.drop_first()[i] == recs[i + 1]);
        }
        lemma_all_deleted_no_err(st2, recs.drop_first(), now);
    }
}

/// An error inside one pass fails the whole ordered run at the same
/// record, whatever follows.
proof fn lemma_pass_err(
    st0: SnapV,
    prefix: Seq<RecordV>,
    f: Seq<RecordV>,
    rest: Seq<RecordV>,
    e: ApplyErrV,
    now: int,
)
    requires
        run_apply(st0, prefix + f, now).1 == Some(e),
    ensures
        run_apply(st0, (prefix + f) + rest, now) == run_apply(st0, prefix + f, now),
{
    lemma_run_concat(st0, prefix + f, rest, now);
}

/// One of the applier's six passes: applies, in batch order, every
/// record selected by the pass predicate.
fn apply_pass(
    store: &mut LocalStore,
    records: &Vec<ChangeRecord>,
    del: bool,
    rank: u8,
    now: i64,
    Ghost(st0): Ghost<SnapV>,
    Ghost(prefix): Ghost<Seq<RecordV>>,
) -> (r: Result<(), ApplyError>)
    requires
        old(store)@.wf(),
        run_apply(st0, prefix, now as int).1 is None,
        old(store)@.snap().equiv(run_apply(st0, prefix, now as int).0),
    ensures
        final(store)@.checkpoint == old(store)@.checkpoint,
        final(store)@.wf(),
        ({
            let f = recv(records@).filter(pass_pred(del, rank as int));
            let out = run_apply(st0, prefix + f, now as int);
            match r {
                Ok(()) => {
                    &&& out.1 is None
                    &&& final(store)@.snap().equiv(out.0)
                }
                Err(e) => {
                    &&& out.1 == Some(e@)
                    &&& final(store)@.snap().equiv(out.0)
                }
            }
        }),
{
    let ghost all = recv(records@);
    let ghost pred = pass_pred(del, rank as int);
    let mut i: usize = 0;
    proof {
        assert(all.take(0) =~= Seq::<RecordV>::empty());
        assert(all.take(0).filter(pred) =~= Seq::<RecordV>::empty());
        assert(prefix + all.take(0).filter(pred) =~= prefix);
    }
    while i < records.len()
        invariant
            i <= records@.len(),
            all == recv(records@),
            pred == pass_pred(del, rank as int),
            store@.wf(),
            run_apply(st0, prefix + all.take(i as int).filter(pred), now as int).1 is None,
            store@.snap().equiv(run_apply(st0, prefix + all.take(i as int).filter(pred), now as int).0),
            store@.checkpoint == old(store)@.checkpoint,
        decreases records@.len() - i,
    {
        let ghost processed = prefix + all.take(i as int).filter(pred);
        proof {
            assert(all.take(i as int + 1) =~= all.take(i as int).push(all[i as int]));
            crate::store::lemma_filter_push(all.take(i as int), all[i as int], pred);
            if pred(all[i as int]) {
                assert(prefix + all.take(i as int + 1).filter(pred) =~= processed.push(
                    all[i as int],
                ));
                lemma_run_snoc(st0, processed, all[i as int], now as int);
            } else {
                assert(prefix + all.take(i as int + 1).filter(pred) =~= processed);
            }
        }
        let rec = &records[i];
        let matches = rec.deleted == del && rank_of(rec.collection, rec.deleted) == rank;
        proof {
            assert(rec@ == all[i as int]);
            assert(matches == pred(all[i as int]));
        }
        if matches {
            if del {
                apply_tombstone(store, rec);
            } else {
                match apply_upsert(store, rec, now) {
                    Ok(()) => {}
                    Err(e) => {
                        proof {
                            let f = all.filter(pred);
                            assert(all =~= all.take(i as int) + all.skip(i as int));
                            assert(all.skip(i as int) =~= seq![all[i as int]] + all.skip(
                                i as int + 1,
                            ));
                            Seq::filter_distributes_over_add(
                                all.take(i as int),
                                all.skip(i as int),
                                pred,
                            );
                            Seq::filter_distributes_over_add(
                                seq![all[i as int]],
                                all.skip(i as int + 1),
                                pred,
                            );
                            lemma_filter_single(all[i as int], pred);
                            assert(f =~= all.take(i as int).filter(pred) + (seq![all[i as int]]
                                + all.skip(i as int + 1).filter(pred)));
                            assert(prefix + f =~= processed.push(all[i as int]) + all.skip(
                                i as int + 1,
                            ).filter(pred));
                            lemma_run_concat(
                                st0,
                                processed.push(all[i as int]),
                                all.skip(i as int + 1).filter(pred),
                                now as int,
                            );
                        }
                        return Err(e);
                    }
                }
            }
        }
        i = i + 1;
    }
    proof {
        assert(all.take(all.len() as int) =~= all);
    }
    Ok(())
}

/// Filtering a singleton.
proof fn lemma_filter_single(r: RecordV, pred: spec_fn(RecordV) -> bool)
    ensures
        seq![r].filter(pred) == (if pred(r) {
            seq![r]
        } else {
            Seq::<RecordV>::empty()
        }),
{
    reveal(Seq::filter);
    assert(seq![r].drop_last() =~= Seq::<RecordV>::empty());
    assert(seq![r].last() == r);
    assert(Seq::<RecordV>::empty().filter(pred) =~= Seq::<RecordV>::empty());
    if pred(r) {
        assert(Seq::<RecordV>::empty().push(r) =~= seq![r]);
    }
}

} // verus!
