//! The acknowledgement processor: after the remote accepts a push,
//! pushed live rows are stamped as confirmed and pushed tombstones are
//! hard-removed — a tombstone is transient, never retained once the
//! remote has seen it. Runs only after the transport call returned.

use vstd::prelude::*;

verus! {

use crate::apply::delete_in;
use crate::collect::recv;
use crate::record::{ChangeRecord, RecordV};
use crate::row::{Row, RowV};
use crate::store::{find_row, lemma_tmap_domain, lemma_tmap_index, lemma_tmap_update, rv, tmap,
    unique_keys, LocalStore, SnapV};
use crate::Collection;

/// One acknowledged record's effect: a pushed tombstone is dropped for
/// good; a pushed live row is stamped confirmed, if it still exists.
pub open spec fn confirm_one(st: SnapV, r: RecordV, t: int) -> SnapV {
    if r.deleted {
        st.with_table(r.collection, st.table(r.collection).remove(r.key))
    } else {
        let m = st.table(r.collection);
        if m.contains_key(r.key) {
            st.with_table(
                r.collection,
                m.insert(r.key, RowV { confirmed_at: Some(t), ..m[r.key] }),
            )
        } else {
            st
        }
    }
}

/// A whole acknowledged batch, in batch order.
pub open spec fn run_confirm(st: SnapV, recs: Seq<RecordV>, t: int) -> SnapV
    decreases recs.len(),
{
    if recs.len() == 0 {
        st
    } else {
        run_confirm(confirm_one(st, recs.first(), t), recs.drop_first(), t)
    }
}

/// Acknowledging one more record.
pub proof fn lemma_confirm_snoc(st: SnapV, recs: Seq<RecordV>, r: RecordV, t: int)
    ensures
        run_confirm(st, recs.push(r), t) == confirm_one(run_confirm(st, recs, t), r, t),
    decreases recs.len(),
{
    if recs.len() == 0 {
        reveal_with_fuel(run_confirm, 3);
        assert(recs.push(r).first() == r);
        assert(recs.push(r).drop_first() =~= Seq::<RecordV>::empty());
    } else {
        assert(recs.push(r).first() == recs.first());
        assert(recs.push(r).drop_first() =~= recs.drop_first().push(r));
        lemma_confirm_snoc(confirm_one(st, recs.first(), t), recs.drop_first(), r, t);
    }
}

/// Stamps the row with the given key as confirmed at the given time;
/// a row that no longer exists is silently skipped.
fn set_confirmed_in(rows: &mut Vec<Row>, key: &String, t: i64)
    requires
        unique_keys(rv(old(rows)@)),
    ensures
        unique_keys(rv(final(rows)@)),
        rv(final(rows)@).len() == rv(old(rows)@).len(),
        forall|i: int| 0 <= i < old(rows)@.len() ==> {
            let pre = rv(old(rows)@)[i];
            (#[trigger] rv(final(rows)@)[i]) == (if pre.key == key@ {
                RowV { confirmed_at: Some(t as int), ..pre }
            } else {
                pre
            })
        },
        tmap(rv(final(rows)@)) =~= (if tmap(rv(old(rows)@)).contains_key(key@) {
            tmap(rv(old(rows)@)).insert(
                key@,
                (RowV { confirmed_at: Some(t as int), ..tmap(rv(old(rows)@))[key@] }),
            )
        } else {
            tmap(rv(old(rows)@))
        }),
{
    proof {
        lemma_tmap_domain(rv(rows@));
    }
    match find_row(rows, key) {
        Some(i) => {
            proof {
                lemma_tmap_index(rv(rows@), i as int);
                lemma_tmap_update(
                    rv(rows@),
                    i as int,
                    (RowV { confirmed_at: Some(t as int), ..rv(rows@)[i as int] }),
                );
            }
            rows[i].confirmed_at = Some(t);
            proof {
                assert(rv(rows@) =~= rv(old(rows)@).update(
                    i as int,
                    (RowV { confirmed_at: Some(t as int), ..rv(old(rows)@)[i as int] }),
                ));
                assert forall|a: int| 0 <= a < old(rows)@.len() && rv(old(rows)@)[a].key != key@
                    implies rv(rows@)[a] == rv(old(rows)@)[a] by {}
            }
        }
        None => {}
    }
}

impl LocalStore {
    /// Processes the remote's acknowledgement of a pushed batch:
    /// hard-deletes each pushed tombstone (the push succeeded, so the
    /// row may be dropped for good) and stamps each pushed live row as
    /// confirmed at the given time. Never touches the checkpoint.
    pub fn mark_records_synced(&mut self, records: &Vec<ChangeRecord>, synced_at: i64)
        requires
            old(self)@.wf(),
        ensures
            final(self)@.wf(),
            final(self)@.checkpoint == old(self)@.checkpoint,
            final(self)@.snap().equiv(run_confirm(old(self)@.snap(), recv(records@), synced_at as int)),
    {
        let ghost st0 = self@.snap();
        let ghost all = recv(records@);
        let mut i: usize = 0;
        proof {
            assert(all.take(0) =~= Seq::<RecordV>::empty());
        }
        while i < records.len()
            invariant
                i <= records@.len(),
                all == recv(records@),
                self@.wf(),
                self@.checkpoint == old(self)@.checkpoint,
                self@.snap().equiv(run_confirm(st0, all.take(i as int), synced_at as int)),
            decreases records@.len() - i,
        {
            proof {
                assert(all.take(i as int + 1) =~= all.take(i as int).push(all[i as int]));
                lemma_confirm_snoc(st0, all.take(i as int), all[i as int], synced_at as int);
            }
            let rec = &records[i];
            proof {
                assert(rec@ == all[i as int]);
            }
            if rec.deleted {
                match rec.collection {
                    Collection::Topics => delete_in(&mut self.topics, &rec.key),
                    Collection::Questions => delete_in(&mut self.questions, &rec.key),
                    Collection::Progress => delete_in(&mut self.progress, &rec.key),
                    Collection::QuizSessions => delete_in(&mut self.sessions, &rec.key),
                }
            } else {
                match rec.collection {
                    Collection::Topics => set_confirmed_in(&mut self.topics, &rec.key, synced_at),
                    Collection::Questions => set_confirmed_in(
                        &mut self.questions,
                        &rec.key,
                        synced_at,
                    ),
                    Collection::Progress => set_confirmed_in(&mut self.progress, &rec.key, synced_at),
                    Collection::QuizSessions => set_confirmed_in(
                        &mut self.sessions,
                        &rec.key,
                        synced_at,
                    ),
                }
            }
            i = i + 1;
        }
        proof {
            assert(all.take(all.len() as int) =~= all);
        }
    }
}

} // verus!
