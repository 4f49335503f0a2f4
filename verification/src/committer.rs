//! Drives the remote commit protocol for one batch: create-batch, upload a
//! chunk for every operation whose inline content exceeds the threshold,
//! then commit the rewritten operations. The remote calls themselves happen
//! outside; the committer is a state machine fed one remote outcome at a
//! time, so every decision it takes is verified for every possible outcome.
//!
//! On batch expiry the committer restarts from create-batch with the same
//! operation set: hashes are reused, chunks are re-uploaded, and the
//! committed content is unchanged up to chunk ids.

use vstd::prelude::*;
use vstd::pervasive::unreached;
use crate::model::{
    clone_bytes, clone_headers, op_views, BatchHandle, ChunkHandle, CommitBatchArguments,
    ContentSource, ContentSourceV, OpGroup, Operation, OperationV, PropertiesDelta,
};

verus! {

// ---------------------------------------------------------------------------
// Chunking
// ---------------------------------------------------------------------------

/// Content above the inline threshold must travel as a chunk.
pub open spec fn needs_chunk(op: OperationV, t: u64) -> bool {
    match op {
        OperationV::SetAssetContent { source: ContentSourceV::Inline(c), .. } => c.len() > t,
        _ => false,
    }
}

/// Indices (from `i` on) of the operations that need a chunk upload.
pub open spec fn chunk_idxs(ops: Seq<OperationV>, t: u64, i: int) -> Seq<int>
    decreases ops.len() - i,
{
    if i < 0 || i >= ops.len() {
        Seq::empty()
    } else {
        (if needs_chunk(ops[i], t) {
            seq![i]
        } else {
            Seq::empty()
        }) + chunk_idxs(ops, t, i + 1)
    }
}

/// The index list a committer holds, as mathematical integers.
pub open spec fn idx_views(s: Seq<usize>) -> Seq<int> {
    s.map_values(|u: usize| u as int)
}

/// The same operation carrying a chunk reference instead of inline bytes.
pub open spec fn chunked(op: OperationV, id: u64) -> OperationV {
    match op {
        OperationV::SetAssetContent { key, encoding, hash, .. } => OperationV::SetAssetContent {
            key,
            encoding,
            source: ContentSourceV::Chunk(id),
            hash,
        },
        x => x,
    }
}

/// Rewrites every oversized operation to reference the next chunk id, in
/// order; all other operations pass through unchanged.
pub open spec fn rewrite_ops(ops: Seq<OperationV>, t: u64, ids: Seq<u64>) -> Seq<OperationV>
    decreases ops.len(),
{
    if ops.len() == 0 {
        Seq::empty()
    } else if needs_chunk(ops[0], t) {
        seq![
            chunked(ops[0], if ids.len() > 0 { ids[0] } else { 0 }),
        ] + rewrite_ops(ops.drop_first(), t, if ids.len() > 0 {
            ids.drop_first()
        } else {
            ids
        })
    } else {
        seq![ops[0]] + rewrite_ops(ops.drop_first(), t, ids)
    }
}

/// An operation with its content source erased: what a commit means for the
/// remote store's state, independent of how the bytes travelled.
pub open spec fn op_essence(op: OperationV) -> OperationV {
    match op {
        OperationV::SetAssetContent { key, encoding, hash, .. } => OperationV::SetAssetContent {
            key,
            encoding,
            source: ContentSourceV::Inline(Seq::empty()),
            hash,
        },
        x => x,
    }
}

pub open spec fn essence_of(s: Seq<OperationV>) -> Seq<OperationV> {
    s.map_values(|o: OperationV| op_essence(o))
}

/// Chunk rewriting changes content sources only.
pub proof fn lemma_rewrite_essence(ops: Seq<OperationV>, t: u64, ids: Seq<u64>)
    ensures
        essence_of(rewrite_ops(ops, t, ids)) == essence_of(ops),
    decreases ops.len(),
{
    if ops.len() == 0 {
        assert(essence_of(rewrite_ops(ops, t, ids)) =~= essence_of(ops));
    } else {
        let rest_ids = if needs_chunk(ops[0], t) && ids.len() > 0 {
            ids.drop_first()
        } else {
            ids
        };
        lemma_rewrite_essence(ops.drop_first(), t, rest_ids);
        let head = if needs_chunk(ops[0], t) {
            chunked(ops[0], if ids.len() > 0 { ids[0] } else { 0 })
        } else {
            ops[0]
        };
        assert(rewrite_ops(ops, t, ids) == seq![head] + rewrite_ops(ops.drop_first(), t, rest_ids));
        assert(op_essence(head) == op_essence(ops[0]));
        assert(essence_of(rewrite_ops(ops.drop_first(), t, rest_ids)).len() == rewrite_ops(
            ops.drop_first(),
            t,
            rest_ids,
        ).len());
        assert(essence_of(ops.drop_first()).len() == ops.drop_first().len());
        assert(rewrite_ops(ops.drop_first(), t, rest_ids).len() == ops.drop_first().len());
        assert(rewrite_ops(ops, t, ids).len() == ops.len());
        assert forall|j: int|
            0 <= j < ops.len() implies essence_of(rewrite_ops(ops, t, ids))[j] == essence_of(
            ops,
        )[j] by {
            if j > 0 {
                assert(rewrite_ops(ops, t, ids)[j] == rewrite_ops(
                    ops.drop_first(),
                    t,
                    rest_ids,
                )[j - 1]);
                assert(essence_of(rewrite_ops(ops.drop_first(), t, rest_ids))[j - 1]
                    == essence_of(ops.drop_first())[j - 1]);
            }
        }
        assert(essence_of(rewrite_ops(ops, t, ids)) =~= essence_of(ops));
    }
}

/// Law: if a batch expires and is rebuilt with fresh chunk ids, the
/// committed operation set is unchanged in content — same keys, same
/// encodings, same hashes — though chunk ids differ.
pub proof fn lemma_recommit_preserves_content(
    ops: Seq<OperationV>,
    t: u64,
    ids1: Seq<u64>,
    ids2: Seq<u64>,
)
    ensures
        essence_of(rewrite_ops(ops, t, ids1)) == essence_of(rewrite_ops(ops, t, ids2)),
        essence_of(rewrite_ops(ops, t, ids1)) == essence_of(ops),
{
    lemma_rewrite_essence(ops, t, ids1);
    lemma_rewrite_essence(ops, t, ids2);
}

/// Law: in the assembled commit, an operation whose content exceeds the
/// inline threshold references a chunk handle, never inline bytes, and
/// every other operation passes through unchanged.
pub proof fn lemma_rewrite_shape(ops: Seq<OperationV>, t: u64, ids: Seq<u64>)
    ensures
        rewrite_ops(ops, t, ids).len() == ops.len(),
        forall|j: int|
            0 <= j < ops.len() && needs_chunk(ops[j], t) ==> ((#[trigger] rewrite_ops(
                ops,
                t,
                ids,
            )[j]) matches OperationV::SetAssetContent {
                source: ContentSourceV::Chunk(_),
                ..
            }),
        forall|j: int|
            0 <= j < ops.len() && !needs_chunk(ops[j], t) ==> (#[trigger] rewrite_ops(
                ops,
                t,
                ids,
            )[j]) == ops[j],
    decreases ops.len(),
{
    if ops.len() == 0 {
    } else {
        let rest_ids = if needs_chunk(ops[0], t) && ids.len() > 0 {
            ids.drop_first()
        } else {
            ids
        };
        lemma_rewrite_shape(ops.drop_first(), t, rest_ids);
        let r = rewrite_ops(ops, t, ids);
        let rr = rewrite_ops(ops.drop_first(), t, rest_ids);
        assert forall|j: int| 1 <= j < ops.len() implies (#[trigger] r[j]) == rr[j - 1] by {
        }
    }
}

/// Every index listed by `chunk_idxs` is in range, needs a chunk, and the
/// list is strictly increasing.
pub proof fn lemma_chunk_idxs_props(ops: Seq<OperationV>, t: u64, i: int)
    ensures
        forall|j: int|
            0 <= j < chunk_idxs(ops, t, i).len() ==> i <= (#[trigger] chunk_idxs(ops, t, i)[j])
                < ops.len() && needs_chunk(ops[chunk_idxs(ops, t, i)[j]], t),
    decreases ops.len() - i,
{
    if i < 0 || i >= ops.len() {
    } else {
        lemma_chunk_idxs_props(ops, t, i + 1);
        let s = chunk_idxs(ops, t, i);
        let tail = chunk_idxs(ops, t, i + 1);
        assert forall|j: int|
            0 <= j < s.len() implies i <= (#[trigger] s[j]) < ops.len() && needs_chunk(
            ops[s[j]],
            t,
        ) by {
            if needs_chunk(ops[i], t) {
                if j == 0 {
                    assert(s[0] == i);
                } else {
                    assert(s[j] == tail[j - 1]);
                }
            } else {
                assert(s[j] == tail[j]);
            }
        }
    }
}

fn needs_chunk_exec(op: &Operation, t: u64) -> (r: bool)
    ensures
        r == needs_chunk(op@, t),
{
    match op {
        Operation::SetAssetContent { source: ContentSource::Inline(c), .. } => c.len() as u64 > t,
        _ => false,
    }
}

fn chunk_idxs_exec(ops: &Vec<Operation>, t: u64, i: usize) -> (r: Vec<usize>)
    requires
        i <= ops.len(),
    ensures
        idx_views(r@) == chunk_idxs(op_views(ops@), t, i as int),
    decreases ops.len() - i,
{
    if i == ops.len() {
        proof {
            assert(idx_views(Seq::<usize>::empty()) =~= chunk_idxs(op_views(ops@), t, i as int));
        }
        Vec::new()
    } else {
        let mut rest = chunk_idxs_exec(ops, t, i + 1);
        if needs_chunk_exec(&ops[i], t) {
            let ghost tail = rest@;
            rest.insert(0, i);
            proof {
                assert(idx_views(rest@) =~= chunk_idxs(op_views(ops@), t, i as int));
            }
            rest
        } else {
            proof {
                assert(idx_views(rest@) =~= chunk_idxs(op_views(ops@), t, i as int));
            }
            rest
        }
    }
}

fn clone_source(s: &ContentSource) -> (r: ContentSource)
    ensures
        r@ == s@,
{
    match s {
        ContentSource::Inline(b) => ContentSource::Inline(clone_bytes(b)),
        ContentSource::Chunk(id) => ContentSource::Chunk(*id),
    }
}

fn clone_delta(d: &PropertiesDelta) -> (r: PropertiesDelta)
    ensures
        r@ == d@,
{
    let r = PropertiesDelta {
        max_age: d.max_age,
        headers: match &d.headers {
            Some(hs) => Some(clone_headers(hs)),
            None => None,
        },
        allow_raw_access: d.allow_raw_access,
    };
    proof {
        assert(r@ =~= d@);
    }
    r
}

fn clone_op(op: &Operation) -> (r: Operation)
    ensures
        r@ == op@,
{
    match op {
        Operation::CreateAsset { key, content_type } => Operation::CreateAsset {
            key: key.clone(),
            content_type: content_type.clone(),
        },
        Operation::SetAssetContent { key, encoding, source, hash } => Operation::SetAssetContent {
            key: key.clone(),
            encoding: encoding.clone(),
            source: clone_source(source),
            hash: clone_bytes(hash),
        },
        Operation::UnsetAssetContent { key, encoding } => Operation::UnsetAssetContent {
            key: key.clone(),
            encoding: encoding.clone(),
        },
        Operation::SetAssetProperties { key, delta } => Operation::SetAssetProperties {
            key: key.clone(),
            delta: clone_delta(delta),
        },
        Operation::DeleteAsset { key } => Operation::DeleteAsset { key: key.clone() },
    }
}

fn rewrite_exec(ops: &Vec<Operation>, i: usize, t: u64, ids: &Vec<u64>, k: usize) -> (r: Vec<
    Operation,
>)
    requires
        i <= ops.len(),
        k <= ids.len(),
    ensures
        op_views(r@) == rewrite_ops(op_views(ops@).skip(i as int), t, ids@.skip(k as int)),
    decreases ops.len() - i,
{
    if i == ops.len() {
        proof {
            assert(op_views(ops@).skip(i as int) =~= Seq::empty());
            assert(op_views(Seq::<Operation>::empty()) =~= Seq::<OperationV>::empty());
        }
        Vec::new()
    } else {
        proof {
            assert(op_views(ops@).skip(i as int).drop_first() =~= op_views(ops@).skip(
                i as int + 1,
            ));
        }
        if needs_chunk_exec(&ops[i], t) {
            let id = if k < ids.len() {
                ids[k]
            } else {
                0
            };
            let k2 = if k < ids.len() {
                k + 1
            } else {
                k
            };
            proof {
                if k < ids.len() {
                    assert(ids@.skip(k as int).drop_first() =~= ids@.skip(k as int + 1));
                    assert(ids@.skip(k as int)[0] == ids@[k as int]);
                } else {
                    assert(ids@.skip(k as int) =~= Seq::<u64>::empty());
                }
            }
            let op = match &ops[i] {
                Operation::SetAssetContent { key, encoding, hash, .. } => {
                    Operation::SetAssetContent {
                        key: key.clone(),
                        encoding: encoding.clone(),
                        source: ContentSource::Chunk(id),
                        hash: clone_bytes(hash),
                    }
                },
                _ => unreached(),
            };
            proof {
                assert(op@ == chunked(op_views(ops@).skip(i as int)[0], id));
            }
            let mut rest = rewrite_exec(ops, i + 1, t, ids, k2);
            rest.insert(0, op);
            proof {
                assert(op_views(rest@) =~= rewrite_ops(
                    op_views(ops@).skip(i as int),
                    t,
                    ids@.skip(k as int),
                ));
            }
            rest
        } else {
            let op = clone_op(&ops[i]);
            let mut rest = rewrite_exec(ops, i + 1, t, ids, k);
            rest.insert(0, op);
            proof {
                assert(op_views(rest@) =~= rewrite_ops(
                    op_views(ops@).skip(i as int),
                    t,
                    ids@.skip(k as int),
                ));
            }
            rest
        }
    }
}

// ---------------------------------------------------------------------------
// The committer
// ---------------------------------------------------------------------------

/// Where the commit protocol for one batch stands.
#[derive(Clone, Copy)]
pub enum CommitterPhase {
    /// No open batch: ask the remote store to create one.
    NeedBatch,
    /// A batch is open; chunk number `next` is to be uploaded.
    Uploading { next: usize },
    /// All chunks are uploaded; submit the commit.
    ReadyToCommit,
    /// The remote store applied the batch atomically.
    Committed,
    /// The batch failed; `failure` says why.
    Failed,
}

/// Why a batch failed for good.
#[derive(Debug)]
pub enum CommitFailure {
    CreateBatchRefused { message: String },
    ChunkRetriesExhausted { message: String },
    CommitRejected { reason: String },
    ExpiryRestartsExhausted,
}

/// The verified decision core of the batch committer. The caller performs
/// each remote call the current phase asks for and reports the outcome
/// through the matching `on_*` method.
pub struct BatchCommitter {
    pub ops: Vec<Operation>,
    pub threshold: u64,
    pub uploads: Vec<usize>,
    pub chunk_ids: Vec<u64>,
    pub batch_id: u64,
    pub batch_expires_at: u64,
    pub chunk_retries_left: u32,
    pub max_chunk_retries: u32,
    pub restarts_left: u32,
    pub failure: Option<CommitFailure>,
    pub phase: CommitterPhase,
}

impl BatchCommitter {
    pub open spec fn wf(self) -> bool {
        &&& idx_views(self.uploads@) == chunk_idxs(op_views(self.ops@), self.threshold, 0)
        &&& match self.phase {
            CommitterPhase::NeedBatch => self.chunk_ids@.len() == 0,
            CommitterPhase::Uploading { next } => next < self.uploads@.len()
                && self.chunk_ids@.len() == next,
            CommitterPhase::ReadyToCommit => self.chunk_ids@.len() == self.uploads@.len(),
            _ => true,
        }
    }

    /// The operation set this committer was created for, never mutated.
    pub open spec fn job(self) -> Seq<OperationV> {
        op_views(self.ops@)
    }

    pub fn new(ops: Vec<Operation>, threshold: u64, chunk_retries: u32, max_restarts: u32) -> (c:
        Self)
        ensures
            c.wf(),
            c.job() == op_views(ops@),
            c.threshold == threshold,
            c.phase is NeedBatch,
            c.max_chunk_retries == chunk_retries,
            c.restarts_left == max_restarts,
            c.failure is None,
    {
        let uploads = chunk_idxs_exec(&ops, threshold, 0);
        BatchCommitter {
            ops,
            threshold,
            uploads,
            chunk_ids: Vec::new(),
            batch_id: 0,
            batch_expires_at: 0,
            chunk_retries_left: chunk_retries,
            max_chunk_retries: chunk_retries,
            restarts_left: max_restarts,
            failure: None,
            phase: CommitterPhase::NeedBatch,
        }
    }

    /// The remote store opened a batch; its chunk handles and the commit
    /// must reference this batch until it expires.
    pub fn on_batch_created(&mut self, handle: BatchHandle)
        requires
            old(self).wf(),
            old(self).phase is NeedBatch,
        ensures
            final(self).wf(),
            final(self).job() == old(self).job(),
            final(self).threshold == old(self).threshold,
            final(self).batch_id == handle.id,
            final(self).batch_expires_at == handle.expires_at,
            final(self).restarts_left == old(self).restarts_left,
            final(self).failure == old(self).failure,
            final(self).chunk_ids@.len() == 0,
            if old(self).uploads@.len() == 0 {
                final(self).phase is ReadyToCommit
            } else {
                final(self).phase matches CommitterPhase::Uploading { next } && next == 0
            },
    {
        self.batch_id = handle.id;
        self.batch_expires_at = handle.expires_at;
        self.chunk_retries_left = self.max_chunk_retries;
        if self.uploads.len() == 0 {
            self.phase = CommitterPhase::ReadyToCommit;
        } else {
            self.phase = CommitterPhase::Uploading { next: 0 };
        }
    }

    /// The remote store refused to open a batch: the whole run aborts, no
    /// partial state was created.
    pub fn on_batch_refused(&mut self, message: String)
        requires
            old(self).wf(),
            old(self).phase is NeedBatch,
        ensures
            final(self).wf(),
            final(self).job() == old(self).job(),
            final(self).phase is Failed,
            final(self).failure matches Some(CommitFailure::CreateBatchRefused { message: m })
                && m@ == message@,
    {
        self.phase = CommitterPhase::Failed;
        self.failure = Some(CommitFailure::CreateBatchRefused { message });
    }

    /// The bytes of the chunk to upload next: exactly the inline content of
    /// the oversized operation it will replace.
    pub fn current_chunk_bytes(&self) -> (r: &Vec<u8>)
        requires
            self.wf(),
            self.phase matches CommitterPhase::Uploading { next },
        ensures
            ({
                let next = self.phase->Uploading_next;
                let idx = self.uploads@[next as int];
                &&& needs_chunk(self.job()[idx as int], self.threshold)
                &&& self.job()[idx as int] matches OperationV::SetAssetContent {
                    source: ContentSourceV::Inline(c),
                    ..
                } && r@ == c
            }),
    {
        proof {
            lemma_chunk_idxs_props(op_views(self.ops@), self.threshold, 0);
        }
        let next = match self.phase {
            CommitterPhase::Uploading { next } => next,
            _ => unreached(),
        };
        let idx = self.uploads[next];
        proof {
            assert(idx_views(self.uploads@)[next as int] == idx as int);
            assert(idx < op_views(self.ops@).len());
            assert(needs_chunk(op_views(self.ops@)[idx as int], self.threshold));
            assert(op_views(self.ops@)[idx as int] == self.ops@[idx as int]@);
        }
        match &self.ops[idx] {
            Operation::SetAssetContent { source: ContentSource::Inline(c), .. } => c,
            _ => unreached(),
        }
    }

    /// The remote store stored the current chunk; its handle is only valid
    /// within the open batch.
    pub fn on_chunk_created(&mut self, handle: ChunkHandle)
        requires
            old(self).wf(),
            old(self).phase matches CommitterPhase::Uploading { next },
        ensures
            final(self).wf(),
            final(self).job() == old(self).job(),
            final(self).threshold == old(self).threshold,
            final(self).batch_id == old(self).batch_id,
            final(self).restarts_left == old(self).restarts_left,
            final(self).failure == old(self).failure,
            final(self).chunk_ids@ == old(self).chunk_ids@.push(handle.id),
            ({
                let next = old(self).phase->Uploading_next;
                if next + 1 == old(self).uploads@.len() {
                    final(self).phase is ReadyToCommit
                } else {
                    final(self).phase matches CommitterPhase::Uploading { next: n2 } && n2 == next
                        + 1
                }
            }),
    {
        let next = match self.phase {
            CommitterPhase::Uploading { next } => next,
            _ => unreached(),
        };
        let un = self.uploads.len();
        proof {
            assert(next < self.uploads@.len());
        }
        self.chunk_ids.push(handle.id);
        self.chunk_retries_left = self.max_chunk_retries;
        if next + 1 == un {
            self.phase = CommitterPhase::ReadyToCommit;
        } else {
            self.phase = CommitterPhase::Uploading { next: next + 1 };
        }
    }

    /// A chunk upload failed: retry it a bounded number of times, then give
    /// the batch up.
    pub fn on_chunk_refused(&mut self, message: String)
        requires
            old(self).wf(),
            old(self).phase matches CommitterPhase::Uploading { next },
        ensures
            final(self).wf(),
            final(self).job() == old(self).job(),
            final(self).chunk_ids@ == old(self).chunk_ids@,
            if old(self).chunk_retries_left > 0 {
                &&& final(self).phase == old(self).phase
                &&& final(self).chunk_retries_left == old(self).chunk_retries_left - 1
                &&& final(self).failure == old(self).failure
            } else {
                &&& final(self).phase is Failed
                &&& final(self).failure matches Some(
                    CommitFailure::ChunkRetriesExhausted { message: m },
                ) && m@ == message@
            },
    {
        if self.chunk_retries_left > 0 {
            self.chunk_retries_left = self.chunk_retries_left - 1;
        } else {
            self.phase = CommitterPhase::Failed;
            self.failure = Some(CommitFailure::ChunkRetriesExhausted { message });
        }
    }

    /// The commit request to submit: the job's operations with every
    /// oversized content rewritten to its chunk id, for the open batch.
    pub fn commit_args(&self) -> (r: CommitBatchArguments)
        requires
            self.wf(),
            self.phase is ReadyToCommit,
        ensures
            r.batch_id == self.batch_id,
            op_views(r.ops@) == rewrite_ops(self.job(), self.threshold, self.chunk_ids@),
    {
        proof {
            assert(op_views(self.ops@).skip(0) =~= op_views(self.ops@));
            assert(self.chunk_ids@.skip(0) =~= self.chunk_ids@);
        }
        let ops = rewrite_exec(&self.ops, 0, self.threshold, &self.chunk_ids, 0);
        CommitBatchArguments { batch_id: self.batch_id, ops }
    }

    /// The remote store applied the batch atomically.
    pub fn on_commit_acked(&mut self)
        requires
            old(self).wf(),
            old(self).phase is ReadyToCommit,
        ensures
            final(self).wf(),
            final(self).job() == old(self).job(),
            final(self).phase is Committed,
            final(self).failure == old(self).failure,
    {
        self.phase = CommitterPhase::Committed;
    }

    /// The batch expired before the commit: restart from create-batch with
    /// the same operation set. Chunk ids do not survive expiry, so chunks
    /// are re-uploaded; content hashes are reused unchanged.
    pub fn on_commit_expired(&mut self)
        requires
            old(self).wf(),
            old(self).phase is ReadyToCommit,
        ensures
            final(self).wf(),
            final(self).job() == old(self).job(),
            final(self).threshold == old(self).threshold,
            if old(self).restarts_left > 0 {
                &&& final(self).phase is NeedBatch
                &&& final(self).chunk_ids@.len() == 0
                &&& final(self).restarts_left == old(self).restarts_left - 1
                &&& final(self).failure == old(self).failure
            } else {
                &&& final(self).phase is Failed
                &&& final(self).failure matches Some(CommitFailure::ExpiryRestartsExhausted)
            },
    {
        if self.restarts_left > 0 {
            self.restarts_left = self.restarts_left - 1;
            self.chunk_ids = Vec::new();
            self.phase = CommitterPhase::NeedBatch;
        } else {
            self.phase = CommitterPhase::Failed;
            self.failure = Some(CommitFailure::ExpiryRestartsExhausted);
        }
    }

    /// The remote store rejected the commit; the rejection reason is kept.
    pub fn on_commit_rejected(&mut self, reason: String)
        requires
            old(self).wf(),
            old(self).phase is ReadyToCommit,
        ensures
            final(self).wf(),
            final(self).job() == old(self).job(),
            final(self).phase is Failed,
            final(self).failure matches Some(CommitFailure::CommitRejected { reason: m }) && m@
                == reason@,
    {
        self.phase = CommitterPhase::Failed;
        self.failure = Some(CommitFailure::CommitRejected { reason });
    }
}

/// Flattens one batch into the ordered operation list of its commit.
pub fn batch_operations(groups: &Vec<OpGroup>) -> (r: Vec<Operation>)
    ensures
        op_views(r@) == crate::differ::group_ops_flat(groups@),
{
    proof {
        assert(groups@.skip(0) =~= groups@);
    }
    batch_operations_from(groups, 0)
}

fn batch_operations_from(groups: &Vec<OpGroup>, i: usize) -> (r: Vec<Operation>)
    requires
        i <= groups.len(),
    ensures
        op_views(r@) == crate::differ::group_ops_flat(groups@.skip(i as int)),
    decreases groups.len() - i,
{
    if i == groups.len() {
        proof {
            assert(groups@.skip(i as int) =~= Seq::<OpGroup>::empty());
            assert(op_views(Seq::<Operation>::empty()) =~= Seq::<OperationV>::empty());
        }
        Vec::new()
    } else {
        proof {
            assert(groups@.skip(i as int).drop_first() =~= groups@.skip(i as int + 1));
        }
        let mut head = clone_ops(&groups[i].ops);
        let mut rest = batch_operations_from(groups, i + 1);
        let ghost h = head@;
        let ghost rst = rest@;
        head.append(&mut rest);
        proof {
            assert(head@ == h + rst);
            assert(op_views(h + rst) =~= op_views(h) + op_views(rst));
        }
        head
    }
}

fn clone_ops(ops: &Vec<Operation>) -> (r: Vec<Operation>)
    ensures
        op_views(r@) == op_views(ops@),
{
    let mut r: Vec<Operation> = Vec::new();
    let mut i: usize = 0;
    while i < ops.len()
        invariant
            i <= ops.len(),
            r@.len() == i,
            forall|j: int| 0 <= j < i ==> r@[j]@ == ops@[j]@,
        decreases ops.len() - i,
    {
        r.push(clone_op(&ops[i]));
        i += 1;
    }
    proof {
        assert(op_views(r@) =~= op_views(ops@));
    }
    r
}

} // verus!
