//! The data model of a sync run: local asset descriptors, remote asset
//! state, and the mutating operations that reconcile the two.

use vstd::prelude::*;
use crate::hashing::sha256_of;

verus! {

// ---------------------------------------------------------------------------
// Properties
// ---------------------------------------------------------------------------

/// One custom response header attached to an asset.
pub struct HeaderField {
    pub name: String,
    pub value: String,
}

#[verifier::ext_equal]
pub struct HeaderFieldV {
    pub name: Seq<char>,
    pub value: Seq<char>,
}

impl View for HeaderField {
    type V = HeaderFieldV;

    open spec fn view(&self) -> HeaderFieldV {
        HeaderFieldV { name: self.name@, value: self.value@ }
    }
}

pub open spec fn header_views(s: Seq<HeaderField>) -> Seq<HeaderFieldV> {
    s.map_values(|h: HeaderField| h@)
}

/// Declared metadata of an asset. Properties are versioned independently of
/// content: a property-only change never forces a content re-upload.
pub struct Properties {
    pub content_type: String,
    pub max_age: Option<u64>,
    pub headers: Vec<HeaderField>,
    pub allow_raw_access: Option<bool>,
}

#[verifier::ext_equal]
pub struct PropertiesV {
    pub content_type: Seq<char>,
    pub max_age: Option<u64>,
    pub headers: Seq<HeaderFieldV>,
    pub allow_raw_access: Option<bool>,
}

impl View for Properties {
    type V = PropertiesV;

    open spec fn view(&self) -> PropertiesV {
        PropertiesV {
            content_type: self.content_type@,
            max_age: self.max_age,
            headers: header_views(self.headers@),
            allow_raw_access: self.allow_raw_access,
        }
    }
}

// ---------------------------------------------------------------------------
// Local state
// ---------------------------------------------------------------------------

/// One representation of an asset's content, with its digest. The hash is the
/// unit of change detection: content is unchanged iff its hash is unchanged.
pub struct Encoding {
    pub name: String,
    pub content: Vec<u8>,
    pub hash: Vec<u8>,
}

#[verifier::ext_equal]
pub struct EncodingV {
    pub name: Seq<char>,
    pub content: Seq<u8>,
    pub hash: Seq<u8>,
}

impl View for Encoding {
    type V = EncodingV;

    open spec fn view(&self) -> EncodingV {
        EncodingV { name: self.name@, content: self.content@, hash: self.hash@ }
    }
}

impl EncodingV {
    /// The hash really is the digest of the content.
    pub open spec fn wf(self) -> bool {
        self.hash == sha256_of(self.content)
    }
}

pub open spec fn enc_views(s: Seq<Encoding>) -> Seq<EncodingV> {
    s.map_values(|e: Encoding| e@)
}

/// The canonical local model of one asset, immutable for a sync run.
pub struct AssetDescriptor {
    pub key: String,
    pub encodings: Vec<Encoding>,
    pub properties: Properties,
}

#[verifier::ext_equal]
pub struct AssetDescriptorV {
    pub key: Seq<char>,
    pub encodings: Seq<EncodingV>,
    pub properties: PropertiesV,
}

impl View for AssetDescriptor {
    type V = AssetDescriptorV;

    open spec fn view(&self) -> AssetDescriptorV {
        AssetDescriptorV {
            key: self.key@,
            encodings: enc_views(self.encodings@),
            properties: self.properties@,
        }
    }
}

pub open spec fn asset_views(s: Seq<AssetDescriptor>) -> Seq<AssetDescriptorV> {
    s.map_values(|a: AssetDescriptor| a@)
}

// ---------------------------------------------------------------------------
// Remote state
// ---------------------------------------------------------------------------

/// The digest the remote store reports for one encoding of one asset.
pub struct EncodingHashEntry {
    pub name: String,
    pub hash: Vec<u8>,
}

#[verifier::ext_equal]
pub struct EncodingHashEntryV {
    pub name: Seq<char>,
    pub hash: Seq<u8>,
}

impl View for EncodingHashEntry {
    type V = EncodingHashEntryV;

    open spec fn view(&self) -> EncodingHashEntryV {
        EncodingHashEntryV { name: self.name@, hash: self.hash@ }
    }
}

pub open spec fn enc_entry_views(s: Seq<EncodingHashEntry>) -> Seq<EncodingHashEntryV> {
    s.map_values(|e: EncodingHashEntry| e@)
}

/// Snapshot of one remote asset, fetched once per sync run.
pub struct RemoteAssetState {
    pub key: String,
    pub properties: Properties,
    pub encodings: Vec<EncodingHashEntry>,
}

#[verifier::ext_equal]
pub struct RemoteAssetStateV {
    pub key: Seq<char>,
    pub properties: PropertiesV,
    pub encodings: Seq<EncodingHashEntryV>,
}

impl View for RemoteAssetState {
    type V = RemoteAssetStateV;

    open spec fn view(&self) -> RemoteAssetStateV {
        RemoteAssetStateV {
            key: self.key@,
            properties: self.properties@,
            encodings: enc_entry_views(self.encodings@),
        }
    }
}

pub open spec fn remote_views(s: Seq<RemoteAssetState>) -> Seq<RemoteAssetStateV> {
    s.map_values(|r: RemoteAssetState| r@)
}

// ---------------------------------------------------------------------------
// Operations
// ---------------------------------------------------------------------------

/// Content carried by a `SetAssetContent` operation: inline bytes, or a
/// reference to a chunk uploaded earlier within the same batch.
pub enum ContentSource {
    Inline(Vec<u8>),
    Chunk(u64),
}

pub enum ContentSourceV {
    Inline(Seq<u8>),
    Chunk(u64),
}

impl View for ContentSource {
    type V = ContentSourceV;

    open spec fn view(&self) -> ContentSourceV {
        match self {
            ContentSource::Inline(b) => ContentSourceV::Inline(b@),
            ContentSource::Chunk(id) => ContentSourceV::Chunk(*id),
        }
    }
}

/// A change to asset properties carrying only the changed fields; `None`
/// leaves the field as it is on the remote store.
pub struct PropertiesDelta {
    pub max_age: Option<Option<u64>>,
    pub headers: Option<Vec<HeaderField>>,
    pub allow_raw_access: Option<Option<bool>>,
}

#[verifier::ext_equal]
pub struct PropertiesDeltaV {
    pub max_age: Option<Option<u64>>,
    pub headers: Option<Seq<HeaderFieldV>>,
    pub allow_raw_access: Option<Option<bool>>,
}

impl View for PropertiesDelta {
    type V = PropertiesDeltaV;

    open spec fn view(&self) -> PropertiesDeltaV {
        PropertiesDeltaV {
            max_age: self.max_age,
            headers: match &self.headers {
                Some(hs) => Some(header_views(hs@)),
                None => None,
            },
            allow_raw_access: self.allow_raw_access,
        }
    }
}

/// A pure mutating intent against the remote store; operations perform no
/// I/O themselves.
pub enum Operation {
    CreateAsset { key: String, content_type: String },
    SetAssetContent { key: String, encoding: String, source: ContentSource, hash: Vec<u8> },
    UnsetAssetContent { key: String, encoding: String },
    SetAssetProperties { key: String, delta: PropertiesDelta },
    DeleteAsset { key: String },
}

#[verifier::ext_equal]
pub enum OperationV {
    CreateAsset { key: Seq<char>, content_type: Seq<char> },
    SetAssetContent { key: Seq<char>, encoding: Seq<char>, source: ContentSourceV, hash: Seq<u8> },
    UnsetAssetContent { key: Seq<char>, encoding: Seq<char> },
    SetAssetProperties { key: Seq<char>, delta: PropertiesDeltaV },
    DeleteAsset { key: Seq<char> },
}

impl View for Operation {
    type V = OperationV;

    open spec fn view(&self) -> OperationV {
        match self {
            Operation::CreateAsset { key, content_type } => OperationV::CreateAsset {
                key: key@,
                content_type: content_type@,
            },
            Operation::SetAssetContent { key, encoding, source, hash } => {
                OperationV::SetAssetContent {
                    key: key@,
                    encoding: encoding@,
                    source: source@,
                    hash: hash@,
                }
            },
            Operation::UnsetAssetContent { key, encoding } => OperationV::UnsetAssetContent {
                key: key@,
                encoding: encoding@,
            },
            Operation::SetAssetProperties { key, delta } => OperationV::SetAssetProperties {
                key: key@,
                delta: delta@,
            },
            Operation::DeleteAsset { key } => OperationV::DeleteAsset { key: key@ },
        }
    }
}

pub open spec fn op_views(s: Seq<Operation>) -> Seq<OperationV> {
    s.map_values(|o: Operation| o@)
}

/// The asset key an operation is about.
pub open spec fn op_key(op: OperationV) -> Seq<char> {
    match op {
        OperationV::CreateAsset { key, .. } => key,
        OperationV::SetAssetContent { key, .. } => key,
        OperationV::UnsetAssetContent { key, .. } => key,
        OperationV::SetAssetProperties { key, .. } => key,
        OperationV::DeleteAsset { key } => key,
    }
}

/// An operation that removes remote content or a remote asset; the
/// coordinator asks for consent before committing any batch holding one.
pub open spec fn is_destructive(op: OperationV) -> bool {
    match op {
        OperationV::UnsetAssetContent { .. } => true,
        OperationV::DeleteAsset { .. } => true,
        _ => false,
    }
}

/// The operations the differ emits for one asset key; kept together so that
/// batching never splits a key's create from its content.
pub struct OpGroup {
    pub ops: Vec<Operation>,
}

/// The ordered operations of one batch, applied atomically by the remote
/// store, together with the batch they were prepared for.
pub struct CommitBatchArguments {
    pub batch_id: u64,
    pub ops: Vec<Operation>,
}

/// An open batch handle as issued by the remote store.
pub struct BatchHandle {
    pub id: u64,
    pub expires_at: u64,
}

/// A chunk uploaded within a batch; the id is only valid inside that batch.
pub struct ChunkHandle {
    pub id: u64,
}

// ---------------------------------------------------------------------------
// Executable equality on model values
// ---------------------------------------------------------------------------

/// Byte-sequence equality.
pub fn bytes_eq(a: &Vec<u8>, b: &Vec<u8>) -> (r: bool)
    ensures
        r == (a@ == b@),
{
    if a.len() != b.len() {
        return false;
    }
    let mut i: usize = 0;
    while i < a.len()
        invariant
            i <= a.len(),
            a@.len() == b@.len(),
            forall|j: int| 0 <= j < i ==> a@[j] == b@[j],
        decreases a.len() - i,
    {
        if a[i] != b[i] {
            return false;
        }
        i += 1;
    }
    proof {
        assert(a@ =~= b@);
    }
    true
}

pub fn header_eq(a: &HeaderField, b: &HeaderField) -> (r: bool)
    ensures
        r == (a@ == b@),
{
    let r = a.name == b.name && a.value == b.value;
    proof {
        if a.name@ == b.name@ && a.value@ == b.value@ {
            assert(a@ =~= b@);
        }
    }
    r
}

pub fn headers_eq(a: &Vec<HeaderField>, b: &Vec<HeaderField>) -> (r: bool)
    ensures
        r == (header_views(a@) == header_views(b@)),
{
    if a.len() != b.len() {
        proof {
            assert(header_views(a@).len() != header_views(b@).len());
        }
        return false;
    }
    let mut i: usize = 0;
    while i < a.len()
        invariant
            i <= a.len(),
            a@.len() == b@.len(),
            forall|j: int| 0 <= j < i ==> a@[j]@ == b@[j]@,
        decreases a.len() - i,
    {
        if !header_eq(&a[i], &b[i]) {
            proof {
                assert(header_views(a@)[i as int] != header_views(b@)[i as int]);
            }
            return false;
        }
        i += 1;
    }
    proof {
        assert(header_views(a@) =~= header_views(b@));
    }
    true
}

pub fn props_eq(a: &Properties, b: &Properties) -> (r: bool)
    ensures
        r == (a@ == b@),
{
    let r = a.content_type == b.content_type && a.max_age == b.max_age
        && headers_eq(&a.headers, &b.headers) && a.allow_raw_access == b.allow_raw_access;
    proof {
        if a.content_type@ == b.content_type@ && a.max_age == b.max_age
            && header_views(a.headers@) == header_views(b.headers@)
            && a.allow_raw_access == b.allow_raw_access {
            assert(a@ =~= b@);
        }
    }
    r
}

/// Byte-vector copy with an exact contract.
pub fn clone_bytes(v: &Vec<u8>) -> (r: Vec<u8>)
    ensures
        r@ == v@,
{
    let mut r: Vec<u8> = Vec::new();
    let mut i: usize = 0;
    while i < v.len()
        invariant
            i <= v.len(),
            r@ == v@.take(i as int),
        decreases v.len() - i,
    {
        r.push(v[i]);
        proof {
            assert(v@.take(i + 1 as int) =~= v@.take(i as int).push(v@[i as int]));
        }
        i += 1;
    }
    proof {
        assert(v@.take(v@.len() as int) =~= v@);
    }
    r
}

pub fn clone_headers(v: &Vec<HeaderField>) -> (r: Vec<HeaderField>)
    ensures
        header_views(r@) == header_views(v@),
{
    let mut r: Vec<HeaderField> = Vec::new();
    let mut i: usize = 0;
    while i < v.len()
        invariant
            i <= v.len(),
            r@.len() == i,
            forall|j: int| 0 <= j < i ==> r@[j]@ == v@[j]@,
        decreases v.len() - i,
    {
        r.push(HeaderField { name: v[i].name.clone(), value: v[i].value.clone() });
        i += 1;
    }
    proof {
        assert(header_views(r@) =~= header_views(v@));
    }
    r
}

} // verus!
