use asset_sync::committer::batch_operations;
use asset_sync::differ::diff;
use asset_sync::hashing::sha256;
use asset_sync::model::{
    AssetDescriptor, ContentSource, Encoding, EncodingHashEntry, Operation, Properties,
    RemoteAssetState,
};

fn props(ct: &str) -> Properties {
    Properties {
        content_type: ct.to_string(),
        max_age: None,
        headers: Vec::new(),
        allow_raw_access: None,
    }
}

fn enc(name: &str, content: &[u8]) -> Encoding {
    Encoding {
        name: name.to_string(),
        content: content.to_vec(),
        hash: sha256(content),
    }
}

fn asset(key: &str, ct: &str, encodings: Vec<Encoding>) -> AssetDescriptor {
    AssetDescriptor { key: key.to_string(), encodings, properties: props(ct) }
}

fn remote_asset(key: &str, ct: &str, encodings: Vec<(&str, Vec<u8>)>) -> RemoteAssetState {
    RemoteAssetState {
        key: key.to_string(),
        properties: props(ct),
        encodings: encodings
            .into_iter()
            .map(|(n, h)| EncodingHashEntry { name: n.to_string(), hash: h })
            .collect(),
    }
}

#[test]
fn new_asset_emits_create_then_content() {
    let content = b"<html>hello</html>";
    let hash_a = sha256(content);
    let local = vec![asset("/index.html", "text/html", vec![enc("identity", content)])];
    let remote: Vec<RemoteAssetState> = Vec::new();
    let groups = diff(&local, &remote);
    assert_eq!(groups.len(), 1);
    let ops = batch_operations(&groups);
    assert_eq!(ops.len(), 2);
    match &ops[0] {
        Operation::CreateAsset { key, content_type } => {
            assert_eq!(key, "/index.html");
            assert_eq!(content_type, "text/html");
        }
        _ => panic!("first operation must be CreateAsset"),
    }
    match &ops[1] {
        Operation::SetAssetContent { key, encoding, source, hash } => {
            assert_eq!(key, "/index.html");
            assert_eq!(encoding, "identity");
            assert_eq!(hash, &hash_a);
            match source {
                ContentSource::Inline(bytes) => assert_eq!(bytes.as_slice(), content.as_slice()),
                ContentSource::Chunk(_) => panic!("small content stays inline"),
            }
        }
        _ => panic!("second operation must be SetAssetContent"),
    }
}

#[test]
fn stale_remote_key_is_deleted_only() {
    let content = b"body { color: red }";
    let hash_a = sha256(content);
    let hash_b = sha256(b"console.log(1)");
    let local = vec![asset("/a.css", "text/css", vec![enc("identity", content)])];
    let remote = vec![
        remote_asset("/a.css", "text/css", vec![("identity", hash_a.clone())]),
        remote_asset("/old.js", "text/javascript", vec![("identity", hash_b.clone())]),
    ];
    let groups = diff(&local, &remote);
    assert_eq!(groups.len(), 1);
    assert_eq!(groups[0].ops.len(), 1);
    assert!(matches!(&groups[0].ops[0], Operation::DeleteAsset { key } if key == "/old.js"));
}

#[test]
fn identical_states_diff_to_nothing() {
    let content = b"same bytes";
    let hash_a = sha256(content);
    let local = vec![asset("/x", "text/plain", vec![enc("identity", content)])];
    let remote = vec![remote_asset("/x", "text/plain", vec![("identity", hash_a)])];
    let groups = diff(&local, &remote);
    assert!(groups.is_empty());
}

#[test]
fn second_run_after_sync_is_empty() {
    let local = vec![
        asset("/a", "text/plain", vec![enc("identity", b"aaa"), enc("gzip", b"zzz")]),
        asset("/b", "text/plain", vec![enc("identity", b"bbb")]),
    ];
    // The remote snapshot a successful sync leaves behind: same keys,
    // same per-encoding hashes, same properties.
    let remote: Vec<RemoteAssetState> = local
        .iter()
        .map(|a| RemoteAssetState {
            key: a.key.clone(),
            properties: props(&a.properties.content_type),
            encodings: a
                .encodings
                .iter()
                .map(|e| EncodingHashEntry { name: e.name.clone(), hash: e.hash.clone() })
                .collect(),
        })
        .collect();
    let groups = diff(&local, &remote);
    assert!(groups.is_empty());
}

#[test]
fn property_change_does_not_reupload_content() {
    let content = b"cached";
    let hash_a = sha256(content);
    let mut local_props = props("text/plain");
    local_props.max_age = Some(3600);
    let local = vec![AssetDescriptor {
        key: "/p".to_string(),
        encodings: vec![enc("identity", content)],
        properties: local_props,
    }];
    let remote = vec![remote_asset("/p", "text/plain", vec![("identity", hash_a)])];
    let groups = diff(&local, &remote);
    assert_eq!(groups.len(), 1);
    assert_eq!(groups[0].ops.len(), 1);
    assert!(matches!(&groups[0].ops[0], Operation::SetAssetProperties { key, .. } if key == "/p"));
}

#[test]
fn changed_hash_reuploads_only_that_encoding() {
    let old_hash = sha256(b"old");
    let same_hash = sha256(b"same");
    let local = vec![asset(
        "/m",
        "text/plain",
        vec![enc("gzip", b"same"), enc("identity", b"new")],
    )];
    let remote = vec![remote_asset(
        "/m",
        "text/plain",
        vec![("gzip", same_hash), ("identity", old_hash)],
    )];
    let groups = diff(&local, &remote);
    assert_eq!(groups.len(), 1);
    assert_eq!(groups[0].ops.len(), 1);
    assert!(matches!(
        &groups[0].ops[0],
        Operation::SetAssetContent { key, encoding, .. } if key == "/m" && encoding == "identity"
    ));
}

#[test]
fn remote_only_encoding_is_unset() {
    let hash_a = sha256(b"aa");
    let hash_b = sha256(b"bb");
    let local = vec![asset("/u", "text/plain", vec![enc("identity", b"aa")])];
    let remote = vec![remote_asset(
        "/u",
        "text/plain",
        vec![("identity", hash_a), ("gzip", hash_b)],
    )];
    let groups = diff(&local, &remote);
    assert_eq!(groups.len(), 1);
    assert_eq!(groups[0].ops.len(), 1);
    assert!(matches!(
        &groups[0].ops[0],
        Operation::UnsetAssetContent { key, encoding } if key == "/u" && encoding == "gzip"
    ));
}
