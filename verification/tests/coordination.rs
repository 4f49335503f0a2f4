use asset_sync::committer::{batch_operations, BatchCommitter, CommitterPhase};
use asset_sync::hashing::sha256;
use asset_sync::model::{
    AssetDescriptor, BatchHandle, ChunkHandle, ContentSource, Encoding, EncodingHashEntry,
    Operation, Properties, RemoteAssetState,
};
use asset_sync::gather::{AssetSource, SourceEncoding};
use asset_sync::remote::PropertiesResponse;
use asset_sync::sync::{needs_consent, plan_sync, prepare_upload, UploadContentError};

fn props(ct: &str) -> Properties {
    Properties {
        content_type: ct.to_string(),
        max_age: None,
        headers: Vec::new(),
        allow_raw_access: None,
    }
}

fn asset(key: &str, ct: &str, content: &[u8]) -> AssetDescriptor {
    AssetDescriptor {
        key: key.to_string(),
        encodings: vec![Encoding {
            name: "identity".to_string(),
            content: content.to_vec(),
            hash: sha256(content),
        }],
        properties: props(ct),
    }
}

/// A tiny in-memory stand-in for the remote store: applies a committed
/// batch atomically to a (key, encoding, hash) table.
fn apply_commit(store: &mut Vec<(String, String, Vec<u8>)>, ops: &[Operation]) {
    for op in ops {
        match op {
            Operation::CreateAsset { .. } => {}
            Operation::SetAssetContent { key, encoding, hash, .. } => {
                store.retain(|(k, e, _)| !(k == key && e == encoding));
                store.push((key.clone(), encoding.clone(), hash.clone()));
            }
            Operation::UnsetAssetContent { key, encoding } => {
                store.retain(|(k, e, _)| !(k == key && e == encoding));
            }
            Operation::SetAssetProperties { .. } => {}
            Operation::DeleteAsset { key } => {
                store.retain(|(k, _, _)| k != key);
            }
        }
    }
}

#[test]
fn one_new_asset_syncs_end_to_end() {
    let content = b"<html>hi</html>";
    let hash_a = sha256(content);
    let local = vec![asset("/index.html", "text/html", content)];
    let remote: Vec<RemoteAssetState> = Vec::new();

    let plan = plan_sync(&local, &remote, 10_000).unwrap();
    assert_eq!(plan.batches.len(), 1);
    assert!(plan.destructive.is_empty());

    let ops = batch_operations(&plan.batches[0].groups);
    assert!(!needs_consent(&ops));
    assert_eq!(ops.len(), 2);

    let mut store: Vec<(String, String, Vec<u8>)> = Vec::new();
    let mut c = BatchCommitter::new(ops, 1024, 3, 3);
    c.on_batch_created(BatchHandle { id: 1, expires_at: 0 });
    assert!(matches!(c.phase, CommitterPhase::ReadyToCommit));
    let args = c.commit_args();
    apply_commit(&mut store, &args.ops);
    c.on_commit_acked();
    assert!(matches!(c.phase, CommitterPhase::Committed));

    assert_eq!(store.len(), 1);
    assert_eq!(store[0].0, "/index.html");
    assert_eq!(store[0].1, "identity");
    assert_eq!(store[0].2, hash_a);
}

#[test]
fn destructive_plan_asks_for_consent() {
    let hash_a = sha256(b"a");
    let hash_b = sha256(b"b");
    let local = vec![asset("/a.css", "text/css", b"a")];
    let remote = vec![
        RemoteAssetState {
            key: "/a.css".to_string(),
            properties: props("text/css"),
            encodings: vec![EncodingHashEntry { name: "identity".to_string(), hash: hash_a }],
        },
        RemoteAssetState {
            key: "/old.js".to_string(),
            properties: props("text/javascript"),
            encodings: vec![EncodingHashEntry { name: "identity".to_string(), hash: hash_b }],
        },
    ];
    let plan = plan_sync(&local, &remote, 10_000).unwrap();
    assert_eq!(plan.destructive, vec!["/old.js".to_string()]);
    assert_eq!(plan.batches.len(), 1);
    let ops = batch_operations(&plan.batches[0].groups);
    assert_eq!(ops.len(), 1);
    assert!(matches!(&ops[0], Operation::DeleteAsset { key } if key == "/old.js"));
    assert!(needs_consent(&ops));
}

#[test]
fn chunked_upload_round_trips_content() {
    let big = vec![9u8; 4000];
    let local = vec![asset("/blob", "application/octet-stream", &big)];
    let remote: Vec<RemoteAssetState> = Vec::new();
    let plan = plan_sync(&local, &remote, 100_000).unwrap();
    let ops = batch_operations(&plan.batches[0].groups);

    let mut c = BatchCommitter::new(ops, 1024, 3, 3);
    c.on_batch_created(BatchHandle { id: 1, expires_at: 0 });
    // The driver uploads the chunk: the bytes it sends are exactly the
    // original content.
    let mut uploaded: Vec<u8> = Vec::new();
    match c.phase {
        CommitterPhase::Uploading { .. } => {
            uploaded = c.current_chunk_bytes().clone();
            c.on_chunk_created(ChunkHandle { id: 77 });
        }
        _ => panic!("expected a chunk upload"),
    }
    assert_eq!(uploaded, big);
    let args = c.commit_args();
    match &args.ops[1] {
        Operation::SetAssetContent { source, .. } => {
            assert!(matches!(source, ContentSource::Chunk(77)));
        }
        _ => panic!("expected SetAssetContent"),
    }
}

fn source_of(a: &AssetDescriptor) -> AssetSource {
    AssetSource {
        key: a.key.clone(),
        properties: props(&a.properties.content_type),
        encodings: a
            .encodings
            .iter()
            .map(|e| SourceEncoding { name: e.name.clone(), content: e.content.clone() })
            .collect(),
    }
}

#[test]
fn prepare_upload_sequences_the_components() {
    let content = b"fresh";
    let sources = vec![source_of(&asset("/new", "text/plain", content))];
    let responses = vec![PropertiesResponse::NotFound { key: "/new".to_string() }];
    let plan = prepare_upload(&sources, responses, 10_000).unwrap();
    assert_eq!(plan.batches.len(), 1);
    let ops = batch_operations(&plan.batches[0].groups);
    assert_eq!(ops.len(), 2);
    assert!(matches!(&ops[0], Operation::CreateAsset { key, .. } if key == "/new"));
}

#[test]
fn prepare_upload_aggregates_component_failures() {
    let a = asset("/dup", "text/plain", b"x");
    let sources = vec![source_of(&a), source_of(&a)];
    let r = prepare_upload(&sources, Vec::new(), 10_000);
    assert!(matches!(r, Err(UploadContentError::GatherAssetDescriptorsFailed(_))));

    let sources2 = vec![source_of(&asset("/ok", "text/plain", b"y"))];
    let responses = vec![PropertiesResponse::Failed {
        key: "/ok".to_string(),
        message: "no reply".to_string(),
    }];
    let r2 = prepare_upload(&sources2, responses, 10_000);
    assert!(matches!(r2, Err(UploadContentError::GetAssetPropertiesFailed(_))));
}
