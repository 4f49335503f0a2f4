use asset_sync::assembler::{assemble_batches, BatchPlan};
use asset_sync::committer::{batch_operations, BatchCommitter, CommitFailure, CommitterPhase};
use asset_sync::sync::{commit_failure_to_error, AssembleCommitBatchArgumentError, UploadContentError};
use asset_sync::hashing::sha256;
use asset_sync::model::{BatchHandle, ChunkHandle, ContentSource, OpGroup, Operation};

fn create_op(key: &str) -> Operation {
    Operation::CreateAsset { key: key.to_string(), content_type: "text/plain".to_string() }
}

fn set_op(key: &str, content: &[u8]) -> Operation {
    Operation::SetAssetContent {
        key: key.to_string(),
        encoding: "identity".to_string(),
        source: ContentSource::Inline(content.to_vec()),
        hash: sha256(content),
    }
}

fn group(key: &str, content: &[u8]) -> OpGroup {
    OpGroup { ops: vec![create_op(key), set_op(key, content)] }
}

fn batch_keys(b: &BatchPlan) -> Vec<String> {
    b.groups
        .iter()
        .flat_map(|g| g.ops.iter())
        .filter_map(|op| match op {
            Operation::CreateAsset { key, .. } => Some(key.clone()),
            _ => None,
        })
        .collect()
}

#[test]
fn batches_respect_the_size_budget() {
    // Each group costs 1 (create) + 1 + 10 (inline content) = 12.
    let groups = vec![group("/a", &[0u8; 10]), group("/b", &[0u8; 10]), group("/c", &[0u8; 10])];
    let batches = assemble_batches(groups, 24);
    assert_eq!(batches.len(), 2);
    assert_eq!(batch_keys(&batches[0]), vec!["/a".to_string(), "/b".to_string()]);
    assert_eq!(batch_keys(&batches[1]), vec!["/c".to_string()]);
}

#[test]
fn oversized_group_gets_its_own_batch_unsplit() {
    let groups = vec![group("/small", &[0u8; 4]), group("/big", &[0u8; 100]), group(
        "/tail",
        &[0u8; 4],
    )];
    let batches = assemble_batches(groups, 20);
    assert_eq!(batches.len(), 3);
    // The oversized group is one whole batch: its create and its content
    // stay in the same commit.
    assert_eq!(batches[1].groups.len(), 1);
    assert_eq!(batches[1].groups[0].ops.len(), 2);
    assert_eq!(batch_keys(&batches[1]), vec!["/big".to_string()]);
}

#[test]
fn all_groups_in_one_batch_when_they_fit() {
    let groups = vec![group("/a", &[0u8; 2]), group("/b", &[0u8; 2])];
    let batches = assemble_batches(groups, 1000);
    assert_eq!(batches.len(), 1);
    assert_eq!(batch_keys(&batches[0]), vec!["/a".to_string(), "/b".to_string()]);
}

#[test]
fn oversized_content_travels_as_a_chunk() {
    let big = vec![7u8; 2000];
    let groups = vec![OpGroup { ops: vec![create_op("/big"), set_op("/big", &big)] }];
    let ops = batch_operations(&groups);
    let mut c = BatchCommitter::new(ops, 1024, 3, 3);
    assert!(matches!(c.phase, CommitterPhase::NeedBatch));
    c.on_batch_created(BatchHandle { id: 1, expires_at: 0 });
    assert!(matches!(c.phase, CommitterPhase::Uploading { next: 0 }));
    // The uploaded bytes are exactly the original content.
    assert_eq!(c.current_chunk_bytes().as_slice(), big.as_slice());
    c.on_chunk_created(ChunkHandle { id: 41 });
    assert!(matches!(c.phase, CommitterPhase::ReadyToCommit));
    let args = c.commit_args();
    assert_eq!(args.batch_id, 1);
    assert_eq!(args.ops.len(), 2);
    match &args.ops[1] {
        Operation::SetAssetContent { source, hash, .. } => {
            assert!(matches!(source, ContentSource::Chunk(41)));
            assert_eq!(hash, &sha256(&big));
        }
        _ => panic!("expected SetAssetContent"),
    }
    c.on_commit_acked();
    assert!(matches!(c.phase, CommitterPhase::Committed));
}

#[test]
fn small_content_stays_inline() {
    let small = vec![7u8; 10];
    let groups = vec![OpGroup { ops: vec![create_op("/s"), set_op("/s", &small)] }];
    let ops = batch_operations(&groups);
    let mut c = BatchCommitter::new(ops, 1024, 3, 3);
    c.on_batch_created(BatchHandle { id: 9, expires_at: 0 });
    // Nothing to upload: straight to commit.
    assert!(matches!(c.phase, CommitterPhase::ReadyToCommit));
    let args = c.commit_args();
    match &args.ops[1] {
        Operation::SetAssetContent { source, .. } => match source {
            ContentSource::Inline(b) => assert_eq!(b.as_slice(), small.as_slice()),
            ContentSource::Chunk(_) => panic!("small content must stay inline"),
        },
        _ => panic!("expected SetAssetContent"),
    }
}

#[test]
fn expired_batch_recommits_same_content_with_new_chunk_ids() {
    let big = vec![3u8; 5000];
    let groups = vec![OpGroup { ops: vec![create_op("/e"), set_op("/e", &big)] }];
    let ops = batch_operations(&groups);
    let mut c = BatchCommitter::new(ops, 1024, 3, 3);

    c.on_batch_created(BatchHandle { id: 1, expires_at: 0 });
    assert_eq!(c.current_chunk_bytes().as_slice(), big.as_slice());
    c.on_chunk_created(ChunkHandle { id: 11 });
    let first = c.commit_args();

    // The remote store reports the batch as expired: restart from
    // create-batch; chunks must be re-uploaded.
    c.on_commit_expired();
    assert!(matches!(c.phase, CommitterPhase::NeedBatch));

    c.on_batch_created(BatchHandle { id: 2, expires_at: 0 });
    assert_eq!(c.current_chunk_bytes().as_slice(), big.as_slice());
    c.on_chunk_created(ChunkHandle { id: 22 });
    let second = c.commit_args();

    assert_eq!(first.batch_id, 1);
    assert_eq!(second.batch_id, 2);
    assert_eq!(first.ops.len(), second.ops.len());
    // Same keys and hashes, different chunk ids.
    for (a, b) in first.ops.iter().zip(second.ops.iter()) {
        match (a, b) {
            (
                Operation::SetAssetContent { key: k1, hash: h1, source: s1, .. },
                Operation::SetAssetContent { key: k2, hash: h2, source: s2, .. },
            ) => {
                assert_eq!(k1, k2);
                assert_eq!(h1, h2);
                assert!(matches!(s1, ContentSource::Chunk(11)));
                assert!(matches!(s2, ContentSource::Chunk(22)));
            }
            (Operation::CreateAsset { key: k1, .. }, Operation::CreateAsset { key: k2, .. }) => {
                assert_eq!(k1, k2);
            }
            _ => panic!("operation kinds must agree"),
        }
    }
    c.on_commit_acked();
    assert!(matches!(c.phase, CommitterPhase::Committed));
}

#[test]
fn chunk_upload_retries_then_gives_up() {
    let big = vec![1u8; 3000];
    let groups = vec![OpGroup { ops: vec![create_op("/r"), set_op("/r", &big)] }];
    let ops = batch_operations(&groups);
    let mut c = BatchCommitter::new(ops, 1024, 2, 0);
    c.on_batch_created(BatchHandle { id: 5, expires_at: 0 });
    c.on_chunk_refused("timeout".to_string());
    assert!(matches!(c.phase, CommitterPhase::Uploading { next: 0 }));
    c.on_chunk_refused("timeout".to_string());
    assert!(matches!(c.phase, CommitterPhase::Uploading { next: 0 }));
    c.on_chunk_refused("timeout".to_string());
    assert!(matches!(c.phase, CommitterPhase::Failed));
    assert!(matches!(
        c.failure,
        Some(CommitFailure::ChunkRetriesExhausted { .. })
    ));
}

#[test]
fn exhausted_expiry_restarts_fail() {
    let groups = vec![OpGroup { ops: vec![create_op("/x")] }];
    let ops = batch_operations(&groups);
    let mut c = BatchCommitter::new(ops, 1024, 1, 0);
    c.on_batch_created(BatchHandle { id: 1, expires_at: 0 });
    c.on_commit_expired();
    assert!(matches!(c.phase, CommitterPhase::Failed));
    assert!(matches!(c.failure, Some(CommitFailure::ExpiryRestartsExhausted)));
}

#[test]
fn create_batch_refusal_fails_the_run() {
    let groups = vec![OpGroup { ops: vec![create_op("/y")] }];
    let ops = batch_operations(&groups);
    let mut c = BatchCommitter::new(ops, 1024, 1, 1);
    c.on_batch_refused("unauthorized".to_string());
    assert!(matches!(c.phase, CommitterPhase::Failed));
    match &c.failure {
        Some(CommitFailure::CreateBatchRefused { message }) => assert_eq!(message, "unauthorized"),
        _ => panic!("expected CreateBatchRefused"),
    }
}

#[test]
fn committer_failures_surface_as_upload_errors() {
    let e1 = commit_failure_to_error(CommitFailure::CreateBatchRefused {
        message: "unauthorized".to_string(),
    });
    match e1 {
        UploadContentError::CreateBatchFailed(re) => assert_eq!(re.message, "unauthorized"),
        _ => panic!("expected CreateBatchFailed"),
    }
    let e2 = commit_failure_to_error(CommitFailure::ChunkRetriesExhausted {
        message: "timeout".to_string(),
    });
    match e2 {
        UploadContentError::AssembleCommitBatchArgumentFailed(
            AssembleCommitBatchArgumentError::ChunkUploadRetriesExhausted { message },
        ) => assert_eq!(message, "timeout"),
        _ => panic!("expected ChunkUploadRetriesExhausted"),
    }
    let e3 = commit_failure_to_error(CommitFailure::CommitRejected {
        reason: "stale state".to_string(),
    });
    match e3 {
        UploadContentError::CreateBatchFailed(re) => assert_eq!(re.message, "stale state"),
        _ => panic!("expected the rejection reason to be kept"),
    }
}
