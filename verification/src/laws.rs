//! The engine's cross-cutting guarantees, stated and proved over the
//! specifications of the collector, applier and acknowledgement
//! processor: the applier's dependency ordering, the wire round trip,
//! and the idempotence of applying a pulled batch.

use vstd::prelude::*;

verus! {

use crate::apply::{apply_one, apply_order, dec_rec, pass_pred, rec_errs, run_apply};
use crate::collect::live_record;
use crate::codec::{lemma_progress_round_trip, lemma_question_round_trip,
    lemma_session_round_trip, lemma_topic_round_trip};
use crate::record::RecordV;
use crate::row::{FieldsV, RowV};
use crate::store::SnapV;
use crate::Collection;

/// Elements of a filtered sequence come from the sequence filtered.
pub proof fn lemma_filter_sub<A>(s: Seq<A>, pred: spec_fn(A) -> bool)
    ensures
        forall|i: int| 0 <= i < s.filter(pred).len() ==> exists|j: int|
            0 <= j < s.len() && s[j] == #[trigger] s.filter(pred)[i],
    decreases s.len(),
{
    reveal(Seq::filter);
    if s.len() > 0 {
        let dl = s.drop_last();
        lemma_filter_sub(dl, pred);
        assert forall|i: int| 0 <= i < s.filter(pred).len() implies exists|j: int|
            0 <= j < s.len() && s[j] == #[trigger] s.filter(pred)[i] by {
            if i < dl.filter(pred).len() {
                assert(s.filter(pred)[i] == dl.filter(pred)[i]);
                let j = choose|j: int| 0 <= j < dl.len() && dl[j] == dl.filter(pred)[i];
                assert(s[j] == s.filter(pred)[i]);
            } else {
                assert(s.filter(pred)[i] == s.last());
                assert(s[s.len() - 1] == s.filter(pred)[i]);
            }
        }
    }
}

/// Which of the six passes the record at an ordered position belongs
/// to.
pub open spec fn slot_of(recs: Seq<RecordV>, i: int) -> int {
    let l0 = recs.filter(pass_pred(false, 0)).len() as int;
    let l1 = recs.filter(pass_pred(false, 1)).len() as int;
    let l2 = recs.filter(pass_pred(false, 2)).len() as int;
    let l3 = recs.filter(pass_pred(true, 0)).len() as int;
    let l4 = recs.filter(pass_pred(true, 1)).len() as int;
    if i < l0 {
        0
    } else if i < l0 + l1 {
        1
    } else if i < l0 + l1 + l2 {
        2
    } else if i < l0 + l1 + l2 + l3 {
        3
    } else if i < l0 + l1 + l2 + l3 + l4 {
        4
    } else {
        5
    }
}

/// Each ordered position holds a record of its pass.
pub proof fn lemma_slot(recs: Seq<RecordV>, i: int)
    requires
        0 <= i < apply_order(recs).len(),
    ensures
        ({
            let o = apply_order(recs);
            let m = slot_of(recs, i);
            &&& o[i].deleted == (m >= 3)
            &&& (m < 3 ==> o[i].collection.upsert_rank() == m)
            &&& (m >= 3 ==> o[i].collection.delete_rank() == m - 3)
        }),
{
    broadcast use vstd::seq_lib::group_seq_properties;

    let o = apply_order(recs);
    let f0 = recs.filter(pass_pred(false, 0));
    let f1 = recs.filter(pass_pred(false, 1));
    let f2 = recs.filter(pass_pred(false, 2));
    let f3 = recs.filter(pass_pred(true, 0));
    let f4 = recs.filter(pass_pred(true, 1));
    let f5 = recs.filter(pass_pred(true, 2));
    let l0 = f0.len() as int;
    let l1 = f1.len() as int;
    let l2 = f2.len() as int;
    let l3 = f3.len() as int;
    let l4 = f4.len() as int;
    if i < l0 {
        assert(o[i] == f0[i]);
        recs.lemma_filter_pred(pass_pred(false, 0), i);
    } else if i < l0 + l1 {
        assert(o[i] == f1[i - l0]);
        recs.lemma_filter_pred(pass_pred(false, 1), i - l0);
    } else if i < l0 + l1 + l2 {
        assert(o[i] == f2[i - l0 - l1]);
        recs.lemma_filter_pred(pass_pred(false, 2), i - l0 - l1);
    } else if i < l0 + l1 + l2 + l3 {
        assert(o[i] == f3[i - l0 - l1 - l2]);
        recs.lemma_filter_pred(pass_pred(true, 0), i - l0 - l1 - l2);
    } else if i < l0 + l1 + l2 + l3 + l4 {
        assert(o[i] == f4[i - l0 - l1 - l2 - l3]);
        recs.lemma_filter_pred(pass_pred(true, 1), i - l0 - l1 - l2 - l3);
    } else {
        assert(o[i] == f5[i - l0 - l1 - l2 - l3 - l4]);
        recs.lemma_filter_pred(pass_pred(true, 2), i - l0 - l1 - l2 - l3 - l4);
    }
}

/// Dependency ordering: in the order the applier processes a batch,
/// every upsert precedes every tombstone; upserts run in dependency
/// rank ascending, so a root-collection upsert is written before any
/// child-collection upsert that references it; and tombstones run in
/// rank descending, so leaf rows are removed before their parent.
pub proof fn lemma_dependency_ordering(recs: Seq<RecordV>)
    ensures
        ({
            let o = apply_order(recs);
            &&& (forall|i: int, j: int|
                0 <= i < j < o.len() && !(#[trigger] o[i]).deleted && !(#[trigger] o[j]).deleted
                    ==> o[i].collection.upsert_rank() <= o[j].collection.upsert_rank())
            &&& (forall|i: int, j: int|
                0 <= i < j < o.len() && (#[trigger] o[i]).deleted && (#[trigger] o[j]).deleted
                    ==> o[i].collection.delete_rank() <= o[j].collection.delete_rank())
            &&& (forall|i: int, j: int|
                0 <= i < j < o.len() && (#[trigger] o[i]).deleted ==> (#[trigger] o[j]).deleted)
        }),
{
    let o = apply_order(recs);
    assert forall|i: int, j: int| 0 <= i < j < o.len() implies {
        &&& (!o[i].deleted && !o[j].deleted ==> o[i].collection.upsert_rank()
            <= o[j].collection.upsert_rank())
        &&& (o[i].deleted && o[j].deleted ==> o[i].collection.delete_rank()
            <= o[j].collection.delete_rank())
        &&& (o[i].deleted ==> o[j].deleted)
    } by {
        lemma_slot(recs, i);
        lemma_slot(recs, j);
        assert(slot_of(recs, i) <= slot_of(recs, j));
    }
}

/// The empty store of a fresh device.
pub open spec fn empty_snap() -> SnapV {
    SnapV {
        topics: Map::empty(),
        questions: Map::empty(),
        progress: Map::empty(),
        sessions: Map::empty(),
        checkpoint: None,
    }
}

/// Round trip: collecting a live row, transporting its change record,
/// and applying it to a fresh store yields exactly one row, equal to
/// the source row's domain fields, confirmed at apply time and not
/// deleted.
pub proof fn lemma_live_round_trip(r: RowV, now: int)
    ensures
        ({
            let out = apply_one(empty_snap(), live_record(r), now);
            let c = r.fields.collection();
            &&& out is Ok
            &&& out->Ok_0.table(c) =~= Map::<Seq<char>, RowV>::empty().insert(
                r.key,
                (RowV {
                    key: r.key,
                    fields: r.fields,
                    revision: r.revision,
                    confirmed_at: Some(now),
                    deleted: false,
                    deleted_at: None,
                }),
            )
            &&& (forall|c2: Collection| c2 != c ==> out->Ok_0.table(c2) =~= Map::<
                Seq<char>,
                RowV,
            >::empty())
            &&& out->Ok_0.checkpoint is None
        }),
{
    match r.fields {
        FieldsV::Topic(f) => {
            lemma_topic_round_trip(f);
        }
        FieldsV::Question(f) => {
            lemma_question_round_trip(f);
        }
        FieldsV::Progress(f) => {
            lemma_progress_round_trip(r.key, f);
        }
        FieldsV::Session(f) => {
            lemma_session_round_trip(f);
        }
    }
    assert(dec_rec(live_record(r)) == Ok::<(Seq<char>, FieldsV), Seq<char>>((r.key, r.fields)));
}


/// The value one collection maps one key to.
pub open spec fn val(st: SnapV, c: Collection, k: Seq<char>) -> Option<RowV> {
    if st.table(c).contains_key(k) {
        Some(st.table(c)[k])
    } else {
        None
    }
}

/// The primary key a record acts on: its own key, except that a
/// progress upsert targets the question key read from its payload.
pub open spec fn tkey(r: RecordV) -> Seq<char> {
    if r.deleted {
        r.key
    } else {
        match dec_rec(r) {
            Ok(kf) => kf.0,
            Err(_) => r.key,
        }
    }
}

/// What happens to one key's row under one well-formed record: a
/// tombstone removes it; an upsert replaces it wholesale, confirmed
/// now, keeping only a surviving `deleted_at` stamp.
pub open spec fn step(v: Option<RowV>, r: RecordV, now: int) -> Option<RowV> {
    if r.deleted {
        None
    } else {
        let kf = dec_rec(r)->Ok_0;
        Some(
            RowV {
                key: kf.0,
                fields: kf.1,
                revision: r.revision,
                confirmed_at: Some(now),
                deleted: false,
                deleted_at: match v {
                    Some(x) => x.deleted_at,
                    None => None,
                },
            },
        )
    }
}

/// One key's row after a sequence of records touching that key.
pub open spec fn chain(v: Option<RowV>, rs: Seq<RecordV>, now: int) -> Option<RowV>
    decreases rs.len(),
{
    if rs.len() == 0 {
        v
    } else {
        chain(step(v, rs.first(), now), rs.drop_first(), now)
    }
}

/// The records of a batch that touch one key of one collection.
pub open spec fn proj(rs: Seq<RecordV>, c: Collection, k: Seq<char>) -> Seq<RecordV> {
    rs.filter(|r: RecordV| r.collection == c && tkey(r) == k)
}

/// No record of the batch is malformed.
pub open spec fn all_ok(rs: Seq<RecordV>) -> bool {
    forall|i: int| 0 <= i < rs.len() ==> !rec_errs(#[trigger] rs[i])
}

/// A run never touches the checkpoint.
pub proof fn lemma_run_checkpoint(st: SnapV, rs: Seq<RecordV>, now: int)
    ensures
        run_apply(st, rs, now).0.checkpoint == st.checkpoint,
    decreases rs.len(),
{
    if rs.len() > 0 {
        match apply_one(st, rs.first(), now) {
            Ok(st2) => {
                lemma_run_checkpoint(st2, rs.drop_first(), now);
            }
            Err(_) => {}
        }
    }
}

/// A run of a well-formed batch succeeds, and acts on each key of each
/// collection independently: the key's final row is the chain of the
/// records that touch it, in batch order, applied to its old row.
pub proof fn lemma_run_projects(st: SnapV, rs: Seq<RecordV>, now: int)
    requires
        all_ok(rs),
    ensures
        run_apply(st, rs, now).1 is None,
        forall|c: Collection, k: Seq<char>|
            #[trigger] val(run_apply(st, rs, now).0, c, k) == chain(val(st, c, k), proj(rs, c, k), now),
    decreases rs.len(),
{
    if rs.len() == 0 {
        assert forall|c: Collection, k: Seq<char>|
            #[trigger] val(run_apply(st, rs, now).0, c, k) == chain(
            val(st, c, k),
            proj(rs, c, k),
            now,
        ) by {
            reveal(Seq::filter);
            assert(proj(rs, c, k).len() == 0);
        }
    } else {
        let r0 = rs.first();
        let rest = rs.drop_first();
        assert(!rec_errs(r0)) by {
            assert(rs[0] == r0);
        }
        assert(all_ok(rest)) by {
            assert(forall|i: int| 0 <= i < rest.len() ==> rest[i] == rs[i + 1]);
        }
        let st2 = apply_one(st, r0, now)->Ok_0;
        assert(apply_one(st, r0, now) is Ok);
        lemma_run_projects(st2, rest, now);
        assert(run_apply(st, rs, now) == run_apply(st2, rest, now));
        assert forall|c: Collection, k: Seq<char>|
            #[trigger] val(run_apply(st, rs, now).0, c, k) == chain(
            val(st, c, k),
            proj(rs, c, k),
            now,
        ) by {
            let pr = |r: RecordV| r.collection == c && tkey(r) == k;
            assert(rs =~= seq![r0] + rest);
            Seq::filter_distributes_over_add(seq![r0], rest, pr);
            lemma_filter_single_any(r0, pr);
            if pr(r0) {
                assert(proj(rs, c, k) =~= seq![r0] + proj(rest, c, k));
                assert((seq![r0] + proj(rest, c, k)).first() == r0);
                assert((seq![r0] + proj(rest, c, k)).drop_first() =~= proj(rest, c, k));
                assert(val(st2, c, k) == step(val(st, c, k), r0, now));
                assert(chain(val(st, c, k), proj(rs, c, k), now) == chain(
                    step(val(st, c, k), r0, now),
                    proj(rest, c, k),
                    now,
                ));
            } else {
                assert(proj(rs, c, k) =~= proj(rest, c, k));
                assert(val(st2, c, k) == val(st, c, k));
            }
        }
    }
}

/// Filtering a singleton of any element type.
pub proof fn lemma_filter_single_any<A>(r: A, pred: spec_fn(A) -> bool)
    ensures
        seq![r].filter(pred) == (if pred(r) {
            seq![r]
        } else {
            Seq::<A>::empty()
        }),
{
    reveal(Seq::filter);
    assert(seq![r].drop_last() =~= Seq::<A>::empty());
    assert(seq![r].last() == r);
    assert(Seq::<A>::empty().filter(pred) =~= Seq::<A>::empty());
    if pred(r) {
        assert(Seq::<A>::empty().push(r) =~= seq![r]);
    }
}

/// A chain splits over concatenation.
pub proof fn lemma_chain_concat(v: Option<RowV>, a: Seq<RecordV>, b: Seq<RecordV>, now: int)
    ensures
        chain(v, a + b, now) == chain(chain(v, a, now), b, now),
    decreases a.len(),
{
    if a.len() == 0 {
        assert(a + b =~= b);
    } else {
        assert((a + b).first() == a.first());
        assert((a + b).drop_first() =~= a.drop_first() + b);
        lemma_chain_concat(step(v, a.first(), now), a.drop_first(), b, now);
    }
}

/// A nonempty chain of tombstones ends with no row, wherever it
/// starts.
pub proof fn lemma_chain_all_deleted(v: Option<RowV>, d: Seq<RecordV>, now: int)
    requires
        d.len() > 0,
        forall|i: int| 0 <= i < d.len() ==> (#[trigger] d[i]).deleted,
    ensures
        chain(v, d, now) is None,
    decreases d.len(),
{
    reveal_with_fuel(chain, 3);
    assert(d[0].deleted);
    if d.len() == 1 {
        assert(d.drop_first().len() == 0);
    } else {
        assert(forall|i: int| 0 <= i < d.drop_first().len() ==> d.drop_first()[i] == d[i + 1]);
        lemma_chain_all_deleted(step(v, d.first(), now), d.drop_first(), now);
    }
}

/// The `deleted_at` stamp a chain of upserts would preserve.
pub open spec fn dstamp(v: Option<RowV>) -> Option<int> {
    match v {
        Some(x) => x.deleted_at,
        None => None,
    }
}

/// A nonempty chain of well-formed upserts ends in a confirmed row
/// carrying the last record's fields and revision; of the starting
/// value only the `deleted_at` stamp survives.
pub proof fn lemma_chain_all_upserts(v: Option<RowV>, u: Seq<RecordV>, now: int)
    requires
        u.len() > 0,
        forall|i: int| 0 <= i < u.len() ==> !(#[trigger] u[i]).deleted && !rec_errs(u[i]),
    ensures
        chain(v, u, now) == Some(
            (RowV {
                key: dec_rec(u.last())->Ok_0.0,
                fields: dec_rec(u.last())->Ok_0.1,
                revision: u.last().revision,
                confirmed_at: Some(now),
                deleted: false,
                deleted_at: dstamp(v),
            }),
        ),
    decreases u.len(),
{
    assert(!u[0].deleted && !rec_errs(u[0]));
    if u.len() == 1 {
        assert(u.drop_first().len() == 0);
        assert(u.last() == u.first());
    } else {
        assert(forall|i: int| 0 <= i < u.drop_first().len() ==> u.drop_first()[i] == u[i + 1]);
        lemma_chain_all_upserts(step(v, u.first(), now), u.drop_first(), now);
        assert(u.drop_first().last() == u.last());
        assert(dstamp(step(v, u.first(), now)) == dstamp(v));
    }
}

/// Replaying an upserts-then-tombstones chain over its own result
/// changes nothing.
pub proof fn lemma_chain_idem(v: Option<RowV>, u: Seq<RecordV>, d: Seq<RecordV>, now: int)
    requires
        forall|i: int| 0 <= i < u.len() ==> !(#[trigger] u[i]).deleted && !rec_errs(u[i]),
        forall|i: int| 0 <= i < d.len() ==> (#[trigger] d[i]).deleted,
    ensures
        chain(chain(v, u + d, now), u + d, now) == chain(v, u + d, now),
{
    let t = chain(v, u + d, now);
    lemma_chain_concat(v, u, d, now);
    lemma_chain_concat(t, u, d, now);
    if d.len() > 0 {
        lemma_chain_all_deleted(chain(v, u, now), d, now);
        assert(t is None);
        lemma_chain_all_deleted(chain(t, u, now), d, now);
    } else {
        assert(u + d =~= u);
        if u.len() > 0 {
            lemma_chain_all_upserts(v, u, now);
            lemma_chain_all_upserts(t, u, now);
            assert(dstamp(t) == dstamp(v));
        }
    }
}

/// The position where a batch's tombstones begin, for a batch where
/// all upserts precede all tombstones.
pub open spec fn first_del(rs: Seq<RecordV>) -> int
    decreases rs.len(),
{
    if rs.len() == 0 {
        0
    } else if !rs.first().deleted {
        1 + first_del(rs.drop_first())
    } else {
        0
    }
}

/// For a deleted-sorted batch, `first_del` splits it into its upserts
/// and its tombstones.
pub proof fn lemma_first_del(rs: Seq<RecordV>)
    requires
        forall|i: int, j: int| 0 <= i < j < rs.len() && (#[trigger] rs[i]).deleted
            ==> (#[trigger] rs[j]).deleted,
    ensures
        0 <= first_del(rs) <= rs.len(),
        forall|i: int| 0 <= i < first_del(rs) ==> !(#[trigger] rs[i]).deleted,
        forall|i: int| first_del(rs) <= i < rs.len() ==> (#[trigger] rs[i]).deleted,
    decreases rs.len(),
{
    if rs.len() > 0 {
        let rest = rs.drop_first();
        assert(forall|i: int| 0 <= i < rest.len() ==> rest[i] == rs[i + 1]);
        if !rs.first().deleted {
            assert(forall|i: int, j: int| 0 <= i < j < rest.len() && (#[trigger] rest[i]).deleted
                ==> (#[trigger] rest[j]).deleted);
            lemma_first_del(rest);
            assert(rs[0] == rs.first());
            assert forall|i: int| 0 <= i < first_del(rs) implies !(#[trigger] rs[i]).deleted by {
                if i > 0 {
                    assert(!rest[i - 1].deleted);
                }
            }
            assert forall|i: int| first_del(rs) <= i < rs.len()
                implies (#[trigger] rs[i]).deleted by {
                assert(rest[i - 1].deleted);
            }
        } else {
            assert forall|i: int| 0 <= i < rs.len() implies (#[trigger] rs[i]).deleted by {
                if i > 0 {
                    assert(rs[0].deleted);
                }
            }
        }
    }
}

/// A filter of a deleted-sorted sequence stays deleted-sorted.
pub proof fn lemma_filter_del_sorted(s: Seq<RecordV>, pred: spec_fn(RecordV) -> bool)
    requires
        forall|i: int, j: int| 0 <= i < j < s.len() && (#[trigger] s[i]).deleted
            ==> (#[trigger] s[j]).deleted,
    ensures
        forall|i: int, j: int| 0 <= i < j < s.filter(pred).len() && (#[trigger] s.filter(
            pred,
        )[i]).deleted ==> (#[trigger] s.filter(pred)[j]).deleted,
    decreases s.len(),
{
    reveal(Seq::filter);
    if s.len() > 0 {
        let dl = s.drop_last();
        assert(forall|i: int| 0 <= i < dl.len() ==> dl[i] == s[i]);
        lemma_filter_del_sorted(dl, pred);
        lemma_filter_sub(dl, pred);
        let f = s.filter(pred);
        let fdl = dl.filter(pred);
        assert forall|i: int, j: int| 0 <= i < j < f.len() && (#[trigger] f[i]).deleted
            implies (#[trigger] f[j]).deleted by {
            if j < fdl.len() {
                assert(f[i] == fdl[i] && f[j] == fdl[j]);
            } else {
                assert(pred(s.last()));
                assert(f[j] == s.last());
                assert(f[i] == fdl[i]);
                let a = choose|a: int| 0 <= a < dl.len() && dl[a] == fdl[i];
                assert(s[a].deleted);
                assert(s[s.len() - 1].deleted);
            }
        }
    }
}

/// The longest prefix of a batch before its first malformed record.
pub open spec fn ok_prefix(rs: Seq<RecordV>) -> Seq<RecordV>
    decreases rs.len(),
{
    if rs.len() == 0 {
        rs
    } else if rec_errs(rs.first()) {
        Seq::empty()
    } else {
        seq![rs.first()] + ok_prefix(rs.drop_first())
    }
}

/// A run reaches exactly its batch's well-formed prefix, wherever it
/// starts.
pub proof fn lemma_run_ok_prefix(st: SnapV, rs: Seq<RecordV>, now: int)
    ensures
        run_apply(st, rs, now).0 == run_apply(st, ok_prefix(rs), now).0,
        all_ok(ok_prefix(rs)),
        ok_prefix(rs).len() <= rs.len(),
        forall|i: int| 0 <= i < ok_prefix(rs).len() ==> #[trigger] ok_prefix(rs)[i] == rs[i],
    decreases rs.len(),
{
    reveal_with_fuel(run_apply, 2);
    if rs.len() == 0 {
    } else if rec_errs(rs.first()) {
        assert(apply_one(st, rs.first(), now) is Err);
        assert(run_apply(st, rs, now).0 == st);
    } else {
        let st2 = apply_one(st, rs.first(), now)->Ok_0;
        lemma_run_ok_prefix(st2, rs.drop_first(), now);
        let p = ok_prefix(rs);
        assert(p =~= seq![rs.first()] + ok_prefix(rs.drop_first()));
        assert(p.first() == rs.first());
        assert(p.drop_first() =~= ok_prefix(rs.drop_first()));
        assert(run_apply(st, p, now).0 == run_apply(st2, ok_prefix(rs.drop_first()), now).0);
        assert(forall|i: int| 0 <= i < rs.drop_first().len() ==> rs.drop_first()[i] == rs[i + 1]);
        assert forall|i: int| 0 <= i < p.len() implies #[trigger] p[i] == rs[i] by {
            if i > 0 {
                assert(p[i] == ok_prefix(rs.drop_first())[i - 1]);
            }
        }
        assert forall|i: int| 0 <= i < p.len() implies !rec_errs(#[trigger] p[i]) by {
            if i == 0 {
            } else {
                assert(p[i] == ok_prefix(rs.drop_first())[i - 1]);
                assert(!rec_errs(ok_prefix(rs.drop_first())[i - 1]));
            }
        }
    }
}

/// Idempotent apply: applying one pulled batch twice, in the same
/// cycle instant, leaves exactly the state of applying it once — for
/// every batch, well-formed or not, and every starting store.
pub proof fn lemma_apply_idempotent(st: SnapV, batch: Seq<RecordV>, now: int)
    ensures
        ({
            let o = apply_order(batch);
            let once = run_apply(st, o, now).0;
            run_apply(once, o, now).0 == once
        }),
{
    let o = apply_order(batch);
    let once = run_apply(st, o, now).0;
    let twice = run_apply(once, o, now).0;
    lemma_dependency_ordering(batch);
    lemma_run_ok_prefix(st, o, now);
    lemma_run_ok_prefix(once, o, now);
    let p = ok_prefix(o);
    assert(forall|i: int, j: int| 0 <= i < j < p.len() && (#[trigger] p[i]).deleted
        ==> (#[trigger] p[j]).deleted) by {
        assert forall|i: int, j: int| 0 <= i < j < p.len() && (#[trigger] p[i]).deleted
            implies (#[trigger] p[j]).deleted by {
            assert(p[i] == o[i] && p[j] == o[j]);
        }
    }
    lemma_run_projects(st, p, now);
    lemma_run_projects(once, p, now);
    assert forall|c: Collection, k: Seq<char>| #[trigger] val(twice, c, k) == val(once, c, k) by {
        let pr = |r: RecordV| r.collection == c && tkey(r) == k;
        let ch = proj(p, c, k);
        lemma_filter_del_sorted(p, pr);
        lemma_filter_sub(p, pr);
        assert forall|i: int| 0 <= i < ch.len() implies !rec_errs(#[trigger] ch[i]) by {
            let j = choose|j: int| 0 <= j < p.len() && p[j] == ch[i];
            assert(!rec_errs(p[j]));
        }
        lemma_first_del(ch);
        let n = first_del(ch);
        let u = ch.take(n);
        let d = ch.skip(n);
        assert(u + d =~= ch);
        assert(forall|i: int| 0 <= i < u.len() ==> u[i] == ch[i]);
        assert(forall|i: int| 0 <= i < d.len() ==> d[i] == ch[i + n]);
        assert forall|i: int| 0 <= i < u.len() implies !(#[trigger] u[i]).deleted && !rec_errs(
            u[i],
        ) by {
            assert(u[i] == ch[i]);
        }
        assert forall|i: int| 0 <= i < d.len() implies (#[trigger] d[i]).deleted by {
            assert(d[i] == ch[i + n]);
        }
        lemma_chain_idem(val(st, c, k), u, d, now);
        assert(val(once, c, k) == chain(val(st, c, k), ch, now));
        assert(val(twice, c, k) == chain(val(once, c, k), ch, now));
    }
    lemma_run_checkpoint(once, o, now);
    lemma_run_checkpoint(once, p, now);
    assert(twice.topics =~= once.topics) by {
        assert forall|k: Seq<char>| #[trigger] twice.topics.contains_key(k)
            <==> once.topics.contains_key(k) by {
            assert(val(twice, Collection::Topics, k) == val(once, Collection::Topics, k));
        }
        assert forall|k: Seq<char>| twice.topics.contains_key(k)
            implies #[trigger] twice.topics[k] == once.topics[k] by {
            assert(val(twice, Collection::Topics, k) == val(once, Collection::Topics, k));
        }
    }
    assert(twice.questions =~= once.questions) by {
        assert forall|k: Seq<char>| #[trigger] twice.questions.contains_key(k)
            <==> once.questions.contains_key(k) by {
            assert(val(twice, Collection::Questions, k) == val(once, Collection::Questions, k));
        }
        assert forall|k: Seq<char>| twice.questions.contains_key(k)
            implies #[trigger] twice.questions[k] == once.questions[k] by {
            assert(val(twice, Collection::Questions, k) == val(once, Collection::Questions, k));
        }
    }
    assert(twice.progress =~= once.progress) by {
        assert forall|k: Seq<char>| #[trigger] twice.progress.contains_key(k)
            <==> once.progress.contains_key(k) by {
            assert(val(twice, Collection::Progress, k) == val(once, Collection::Progress, k));
        }
        assert forall|k: Seq<char>| twice.progress.contains_key(k)
            implies #[trigger] twice.progress[k] == once.progress[k] by {
            assert(val(twice, Collection::Progress, k) == val(once, Collection::Progress, k));
        }
    }
    assert(twice.sessions =~= once.sessions) by {
        assert forall|k: Seq<char>| #[trigger] twice.sessions.contains_key(k)
            <==> once.sessions.contains_key(k) by {
            assert(val(twice, Collection::QuizSessions, k) == val(once, Collection::QuizSessions, k));
        }
        assert forall|k: Seq<char>| twice.sessions.contains_key(k)
            implies #[trigger] twice.sessions[k] == once.sessions[k] by {
            assert(val(twice, Collection::QuizSessions, k) == val(once, Collection::QuizSessions, k));
        }
    }
}

} // verus!
