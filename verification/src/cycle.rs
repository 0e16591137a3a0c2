//! The sync orchestrator's verified half: assembling the delta
//! request, and applying the delta response to the local store in
//! order — confirm the acknowledged push, apply the pulled batch,
//! persist the new cursor only if that apply succeeded.
//!
//! The transport call itself (network, authentication, retries) is
//! the embedding application's concern: it takes the `DeltaRequest`
//! this module builds, performs the exchange, and hands the
//! `DeltaResponse` back to `complete_sync`.

use vstd::prelude::*;

verus! {

use vstd::string::StringExecFns;

use crate::apply::{apply_order, run_apply, ApplyError};
use crate::collect::{recv, spec_collect};
use crate::record::RecordV;
use crate::confirm::run_confirm;
use crate::record::{ChangeRecord, Checkpoint};
use crate::store::{ocp, LocalStore, SnapV};
use crate::timefmt::{parse_rfc3339_epoch, rfc3339_epoch};
use crate::row::oint;

/// What one cycle sends to the remote: every dirty row as a change
/// record, plus the cursor the last successful cycle ended at.
pub struct DeltaRequest {
    pub changes: Vec<ChangeRecord>,
    pub checkpoint: Option<Checkpoint>,
}

/// The remote's acknowledgement of the pushed batch.
#[derive(Clone, Debug, PartialEq)]
pub struct PushAck {
    pub synced: usize,
    pub conflicts: Vec<String>,
}

/// The remote's batch of changes since the checkpoint, with the new
/// cursor to resume from next time.
#[derive(Clone, Debug, PartialEq)]
pub struct PullBatch {
    pub records: Vec<ChangeRecord>,
    pub checkpoint: Checkpoint,
}

/// The remote's answer to a delta request. Either side may be absent:
/// nothing to push, or nothing newer than the checkpoint.
#[derive(Clone, Debug, PartialEq)]
pub struct DeltaResponse {
    pub push: Option<PushAck>,
    pub pull: Option<PullBatch>,
}

/// The summary a completed cycle reports.
#[derive(Clone, Debug, PartialEq)]
pub struct SyncResult {
    pub pushed: usize,
    pub pulled: usize,
    pub conflicts: usize,
    pub success: bool,
    pub error: Option<String>,
    pub synced_at: i64,
}

/// The current synchronization standing, for display.
#[derive(Clone, Debug, PartialEq)]
pub struct SyncStatus {
    pub configured: bool,
    pub authenticated: bool,
    pub last_sync_at: Option<i64>,
    pub pending_changes: usize,
    pub server_url: Option<String>,
}

impl Checkpoint {
    /// A content-equal copy of this cursor.
    pub fn duplicate(&self) -> (r: Checkpoint)
        ensures
            r@ == self@,
    {
        Checkpoint { updated_at: self.updated_at.clone(), id: self.id.clone() }
    }
}

/// Whether a pushed key was reported as conflicting.
pub open spec fn in_conflicts(conflicts: Seq<String>, k: Seq<char>) -> bool {
    exists|i: int| 0 <= i < conflicts.len() && (#[trigger] conflicts[i])@ == k
}

/// The pushed records the remote accepted: conflicting keys are left
/// out, stay dirty locally, and are retried by the next cycle with
/// their current revision.
pub open spec fn accepted_records(pushed: Seq<RecordV>, conflicts: Seq<String>) -> Seq<RecordV> {
    pushed.filter(|r: RecordV| !in_conflicts(conflicts, r.key))
}

/// The confirm stage's outcome: the store after the acknowledged,
/// non-conflicting part of the push was processed, or the untouched
/// store when no acknowledgement came.
pub open spec fn after_push(
    st: SnapV,
    pushed: Seq<RecordV>,
    push: Option<PushAck>,
    now: int,
) -> SnapV {
    match push {
        Some(ack) => run_confirm(st, accepted_records(pushed, ack.conflicts@), now),
        None => st,
    }
}

/// Copies the pushed records whose keys the remote did not report as
/// conflicting.
fn drop_conflicted(records: &Vec<ChangeRecord>, conflicts: &Vec<String>) -> (r: Vec<ChangeRecord>)
    ensures
        recv(r@) =~= accepted_records(recv(records@), conflicts@),
{
    let ghost all = recv(records@);
    let ghost pred = |rv: RecordV| !in_conflicts(conflicts@, rv.key);
    let mut r: Vec<ChangeRecord> = Vec::new();
    let mut i: usize = 0;
    proof {
        assert(all.take(0) =~= Seq::<RecordV>::empty());
        reveal(Seq::filter);
        assert(recv(r@) =~= all.take(0).filter(pred));
    }
    while i < records.len()
        invariant
            i <= records@.len(),
            all == recv(records@),
            pred == (|rv: RecordV| !in_conflicts(conflicts@, rv.key)),
            recv(r@) =~= all.take(i as int).filter(pred),
        decreases records@.len() - i,
    {
        proof {
            assert(all.take(i as int + 1) =~= all.take(i as int).push(all[i as int]));
            crate::store::lemma_filter_push(all.take(i as int), all[i as int], pred);
        }
        let mut conflicted = false;
        let mut j: usize = 0;
        while j < conflicts.len()
            invariant
                j <= conflicts@.len(),
                i < records@.len(),
                all == recv(records@),
                conflicted == exists|a: int|
                    0 <= a < j && (#[trigger] conflicts@[a])@ == all[i as int].key,
            decreases conflicts@.len() - j,
        {
            if conflicts[j].eq(&records[i].key) {
                proof {
                    assert((conflicts@[j as int])@ == all[i as int].key);
                }
                conflicted = true;
            }
            j = j + 1;
        }
        proof {
            assert(conflicted == in_conflicts(conflicts@, all[i as int].key));
        }
        if !conflicted {
            let dup = records[i].duplicate();
            proof {
                assert(dup@.payload =~= all[i as int].payload);
                assert(dup@ == all[i as int]);
            }
            r.push(dup);
            proof {
                assert(r@ =~= r@.drop_last().push(r@.last()));
                crate::collect::lemma_map_push(r@.drop_last(), |x: ChangeRecord| x@, r@.last());
                assert(recv(r@) =~= all.take(i as int).filter(pred).push(all[i as int]));
            }
        }
        i = i + 1;
    }
    proof {
        assert(all.take(all.len() as int) =~= all);
    }
    r
}

impl LocalStore {
    /// Assembles the delta request for one cycle: collects every dirty
    /// row and attaches the persisted checkpoint. Read-only.
    pub fn begin_sync(&self) -> (r: DeltaRequest)
        ensures
            recv(r.changes@) =~= spec_collect(self@),
            ocp(r.checkpoint) == self@.checkpoint,
    {
        let checkpoint = match &self.checkpoint {
            Some(cp) => Some(cp.duplicate()),
            None => None,
        };
        DeltaRequest { changes: self.collect_local_changes(), checkpoint }
    }

    /// Finishes one cycle from the remote's response: if a push
    /// acknowledgement came, confirms the pushed records; if a pull
    /// came, applies its batch and — only when the whole apply
    /// succeeded — persists its checkpoint. A failed apply leaves the
    /// pre-cycle checkpoint in place, so the next cycle re-pulls from
    /// the same cursor; rows applied before the failure stay applied,
    /// which is safe because every row operation is idempotent.
    pub fn complete_sync(
        &mut self,
        pushed: &Vec<ChangeRecord>,
        response: &DeltaResponse,
        now: i64,
    ) -> (r: Result<SyncResult, ApplyError>)
        requires
            old(self)@.wf(),
        ensures
            final(self)@.wf(),
            ({
                let st1 = after_push(
                    old(self)@.snap(),
                    recv(pushed@),
                    response.push,
                    now as int,
                );
                match r {
                    Ok(res) => {
                        &&& match response.pull {
                            Some(pull) => {
                                let out = run_apply(
                                    st1,
                                    apply_order(recv(pull.records@)),
                                    now as int,
                                );
                                &&& out.1 is None
                                &&& final(self)@.snap().equiv(
                                    SnapV { checkpoint: Some(pull.checkpoint@), ..out.0 },
                                )
                                &&& final(self)@.checkpoint == Some(pull.checkpoint@)
                                &&& res.pulled == pull.records@.len()
                            }
                            None => {
                                &&& final(self)@.snap().equiv(st1)
                                &&& final(self)@.checkpoint == old(self)@.checkpoint
                                &&& res.pulled == 0
                            }
                        }
                        &&& match response.push {
                            Some(ack) => res.pushed == ack.synced && res.conflicts
                                == ack.conflicts@.len(),
                            None => res.pushed == 0 && res.conflicts == 0,
                        }
                        &&& res.success
                        &&& res.error is None
                        &&& res.synced_at == now
                    }
                    Err(e) => {
                        &&& response.pull is Some
                        &&& ({
                            let out = run_apply(
                                st1,
                                apply_order(recv(response.pull->Some_0.records@)),
                                now as int,
                            );
                            &&& out.1 == Some(e@)
                            &&& final(self)@.snap().equiv(out.0)
                        })
                        &&& final(self)@.checkpoint == old(self)@.checkpoint
                    }
                }
            }),
    {
        let mut pushed_count: usize = 0;
        let mut conflicts: usize = 0;
        match &response.push {
            Some(ack) => {
                pushed_count = ack.synced;
                conflicts = ack.conflicts.len();
                let accepted = drop_conflicted(pushed, &ack.conflicts);
                self.mark_records_synced(&accepted, now);
            }
            None => {}
        }
        let mut pulled: usize = 0;
        match &response.pull {
            Some(pull) => {
                pulled = pull.records.len();
                match self.apply_remote_changes(&pull.records, now) {
                    Ok(()) => {}
                    Err(e) => {
                        return Err(e);
                    }
                }
                self.save_checkpoint(pull.checkpoint.duplicate());
            }
            None => {}
        }
        Ok(
            SyncResult {
                pushed: pushed_count,
                pulled,
                conflicts,
                success: true,
                error: None,
                synced_at: now,
            },
        )
    }

    /// The current synchronization standing: whether a server is
    /// configured and authenticated, when the last confirmed cycle
    /// ended (from the persisted cursor), and how many local changes
    /// wait to be pushed. Fails only when a persisted cursor's
    /// timestamp is not valid RFC 3339.
    pub fn get_sync_status(&self, authenticated: bool, server_url: Option<String>) -> (r: Result<
        SyncStatus,
        String,
    >)
        requires
            self@.topics.len() + self@.questions.len() + self@.progress.len()
                + self@.sessions.len() < usize::MAX,
        ensures
            match r {
                Ok(st) => {
                    &&& (self@.checkpoint is Some ==> rfc3339_epoch(
                        self@.checkpoint->Some_0.updated_at,
                    ) is Some)
                    &&& oint(st.last_sync_at) == (match self@.checkpoint {
                        Some(cp) => rfc3339_epoch(cp.updated_at),
                        None => None::<int>,
                    })
                    &&& st.pending_changes == crate::store::spec_pending(self@)
                    &&& st.authenticated == authenticated
                    &&& ({
                        let u = crate::row::ostr(server_url);
                        st.configured == (u is Some) && crate::row::ostr(st.server_url) == u
                    })
                }
                Err(_) => self@.checkpoint is Some && rfc3339_epoch(
                    self@.checkpoint->Some_0.updated_at,
                ) is None,
            },
    {
        let last_sync_at = match &self.checkpoint {
            Some(cp) => {
                match parse_rfc3339_epoch(cp.updated_at.as_str()) {
                    Some(t) => Some(t),
                    None => {
                        return Err(String::from_str("checkpoint timestamp is not RFC 3339"));
                    }
                }
            }
            None => None,
        };
        let pending_changes = self.pending_changes();
        Ok(
            SyncStatus {
                configured: server_url.is_some(),
                authenticated,
                last_sync_at,
                pending_changes,
                server_url,
            },
        )
    }
}

} // verus!
