use asset_sync::gather::{gather_asset_descriptors, AssetSource, SourceEncoding};
use asset_sync::hashing::sha256;
use asset_sync::model::{EncodingHashEntry, Properties, RemoteAssetState};
use asset_sync::remote::{collect_remote_state, PropertiesResponse};
use asset_sync::sync::{
    GatherAssetDescriptorsError, GetAssetPropertiesError, UploadContentError,
};

fn props(ct: &str) -> Properties {
    Properties {
        content_type: ct.to_string(),
        max_age: None,
        headers: Vec::new(),
        allow_raw_access: None,
    }
}

fn source(key: &str, encodings: Vec<(&str, &[u8])>) -> AssetSource {
    AssetSource {
        key: key.to_string(),
        properties: props("application/octet-stream"),
        encodings: encodings
            .into_iter()
            .map(|(n, c)| SourceEncoding { name: n.to_string(), content: c.to_vec() })
            .collect(),
    }
}

fn remote_asset(key: &str) -> RemoteAssetState {
    RemoteAssetState {
        key: key.to_string(),
        properties: props("text/plain"),
        encodings: vec![EncodingHashEntry { name: "identity".to_string(), hash: sha256(b"x") }],
    }
}

#[test]
fn gather_computes_hashes() {
    let sources = vec![source("/one", vec![("identity", b"hello")])];
    let descriptors = gather_asset_descriptors(&sources).unwrap();
    assert_eq!(descriptors.len(), 1);
    assert_eq!(descriptors[0].key, "/one");
    assert_eq!(descriptors[0].encodings.len(), 1);
    assert_eq!(descriptors[0].encodings[0].name, "identity");
    assert_eq!(descriptors[0].encodings[0].content, b"hello".to_vec());
    assert_eq!(descriptors[0].encodings[0].hash, sha256(b"hello"));
    assert_eq!(descriptors[0].encodings[0].hash.len(), 32);
}

#[test]
fn gather_rejects_duplicate_keys() {
    let sources = vec![
        source("/dup", vec![("identity", b"a")]),
        source("/ok", vec![("identity", b"b")]),
        source("/dup", vec![("identity", b"c")]),
    ];
    match gather_asset_descriptors(&sources) {
        Err(GatherAssetDescriptorsError::DuplicateAssetKey { key }) => assert_eq!(key, "/dup"),
        _ => panic!("expected DuplicateAssetKey"),
    }
}

#[test]
fn gather_rejects_duplicate_encoding_names() {
    let sources = vec![source("/e", vec![("identity", b"a"), ("identity", b"b")])];
    match gather_asset_descriptors(&sources) {
        Err(GatherAssetDescriptorsError::DuplicateEncodingName { key, name }) => {
            assert_eq!(key, "/e");
            assert_eq!(name, "identity");
        }
        _ => panic!("expected DuplicateEncodingName"),
    }
}

#[test]
fn not_found_is_folded_into_absence() {
    let responses = vec![
        PropertiesResponse::Found { state: remote_asset("/a") },
        PropertiesResponse::NotFound { key: "/missing".to_string() },
        PropertiesResponse::Found { state: remote_asset("/b") },
    ];
    let state = collect_remote_state(responses).unwrap();
    assert_eq!(state.len(), 2);
    assert_eq!(state[0].key, "/a");
    assert_eq!(state[1].key, "/b");
}

#[test]
fn failed_read_aborts_the_fetch() {
    let responses = vec![
        PropertiesResponse::Found { state: remote_asset("/a") },
        PropertiesResponse::Failed {
            key: "/broken".to_string(),
            message: "timeout".to_string(),
        },
    ];
    match collect_remote_state(responses) {
        Err(UploadContentError::GetAssetPropertiesFailed(
            GetAssetPropertiesError::GetPropertiesFailed { key, message },
        )) => {
            assert_eq!(key, "/broken");
            assert_eq!(message, "timeout");
        }
        _ => panic!("expected GetAssetPropertiesFailed"),
    }
}
