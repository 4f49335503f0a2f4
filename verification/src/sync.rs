//! The upload coordinator: sequences diffing and batching, surfaces the
//! destructive changes that need the caller's consent before any commit,
//! and aggregates component failures into one discriminated error.

use vstd::prelude::*;
use vstd::string::StringExecFns;
use crate::model::{
    asset_views, is_destructive, op_key, op_views, remote_views, AssetDescriptor, Operation,
    OperationV, RemoteAssetState,
};
use crate::assembler::{assemble_batches, batch_cost, batch_groups_flat, BatchPlan};
use crate::differ::{diff, diff_ops, find_remote, group_ops_flat};
use crate::committer::{batch_operations, CommitFailure};

verus! {

/// What the remote transport reported about a failed call.
#[derive(Debug)]
pub struct RemoteError {
    pub message: String,
}

/// Local input problems found while gathering asset descriptors.
#[derive(Debug)]
pub enum GatherAssetDescriptorsError {
    DuplicateAssetKey { key: String },
    DuplicateEncodingName { key: String, name: String },
}

/// A remote read of one asset's properties failed (a "not found" response
/// is not an error: it marks the asset as absent).
#[derive(Debug)]
pub enum GetAssetPropertiesError {
    GetPropertiesFailed { key: String, message: String },
}

/// Failures while creating project assets on the remote store.
#[derive(Debug)]
pub enum CreateProjectAssetError {
    CreateChunkFailed { message: String },
}

/// An internal invariant violation while assembling commit arguments, or
/// exhausted chunk-upload retries.
#[derive(Debug)]
pub enum AssembleCommitBatchArgumentError {
    SetContentWithoutCreate { key: String },
    ChunkUploadRetriesExhausted { message: String },
}

/// Errors related to uploading content to the remote asset store.
#[derive(Debug)]
pub enum UploadContentError {
    /// Failed when assembling the commit-batch argument.
    AssembleCommitBatchArgumentFailed(AssembleCommitBatchArgumentError),
    /// Failed when calling create-batch.
    CreateBatchFailed(RemoteError),
    /// Failed when creating project assets.
    CreateProjectAssetError(CreateProjectAssetError),
    /// Failed when building the list of assets to synchronize.
    GatherAssetDescriptorsFailed(GatherAssetDescriptorsError),
    /// Failed when getting asset properties.
    GetAssetPropertiesFailed(GetAssetPropertiesError),
    /// Failed when calling the list method.
    ListAssetsFailed(RemoteError),
}

// ---------------------------------------------------------------------------
// Consent for destructive changes
// ---------------------------------------------------------------------------

/// The keys of the destructive operations, in operation order.
pub open spec fn destructive_keys_spec(s: Seq<OperationV>) -> Seq<Seq<char>>
    decreases s.len(),
{
    if s.len() == 0 {
        Seq::empty()
    } else {
        (if is_destructive(s[0]) {
            seq![op_key(s[0])]
        } else {
            Seq::empty()
        }) + destructive_keys_spec(s.drop_first())
    }
}

pub open spec fn str_views(s: Seq<String>) -> Seq<Seq<char>> {
    s.map_values(|x: String| x@)
}

fn op_key_exec(op: &Operation) -> (r: String)
    ensures
        r@ == op_key(op@),
{
    match op {
        Operation::CreateAsset { key, .. } => key.clone(),
        Operation::SetAssetContent { key, .. } => key.clone(),
        Operation::UnsetAssetContent { key, .. } => key.clone(),
        Operation::SetAssetProperties { key, .. } => key.clone(),
        Operation::DeleteAsset { key } => key.clone(),
    }
}

fn is_destructive_exec(op: &Operation) -> (r: bool)
    ensures
        r == is_destructive(op@),
{
    match op {
        Operation::UnsetAssetContent { .. } => true,
        Operation::DeleteAsset { .. } => true,
        _ => false,
    }
}

fn destructive_keys_from(ops: &Vec<Operation>, i: usize) -> (r: Vec<String>)
    requires
        i <= ops.len(),
    ensures
        str_views(r@) == destructive_keys_spec(op_views(ops@).skip(i as int)),
    decreases ops.len() - i,
{
    if i == ops.len() {
        proof {
            assert(op_views(ops@).skip(i as int) =~= Seq::empty());
            assert(str_views(Seq::<String>::empty()) =~= Seq::<Seq<char>>::empty());
        }
        Vec::new()
    } else {
        proof {
            assert(op_views(ops@).skip(i as int).drop_first() =~= op_views(ops@).skip(
                i as int + 1,
            ));
        }
        let mut rest = destructive_keys_from(ops, i + 1);
        if is_destructive_exec(&ops[i]) {
            rest.insert(0, op_key_exec(&ops[i]));
            proof {
                assert(str_views(rest@) =~= destructive_keys_spec(op_views(ops@).skip(i as int)));
            }
            rest
        } else {
            proof {
                assert(str_views(rest@) =~= destructive_keys_spec(op_views(ops@).skip(i as int)));
            }
            rest
        }
    }
}

/// The keys a sync run would delete content from or delete outright; the
/// coordinator shows them to the caller before committing anything.
pub fn destructive_keys(ops: &Vec<Operation>) -> (r: Vec<String>)
    ensures
        str_views(r@) == destructive_keys_spec(op_views(ops@)),
{
    proof {
        assert(op_views(ops@).skip(0) =~= op_views(ops@));
    }
    destructive_keys_from(ops, 0)
}

/// Whether a batch holds a destructive operation, so that consent must be
/// asked before it is committed.
pub fn needs_consent(ops: &Vec<Operation>) -> (r: bool)
    ensures
        r == exists|i: int| 0 <= i < ops@.len() && is_destructive(#[trigger] ops@[i]@),
{
    let mut i: usize = 0;
    while i < ops.len()
        invariant
            i <= ops.len(),
            forall|j: int| 0 <= j < i ==> !is_destructive(#[trigger] ops@[j]@),
        decreases ops.len() - i,
    {
        if is_destructive_exec(&ops[i]) {
            return true;
        }
        i += 1;
    }
    false
}

// ---------------------------------------------------------------------------
// The defensive create-before-content check
// ---------------------------------------------------------------------------

/// Every `SetAssetContent` is preceded by a `CreateAsset` for its key, or
/// the key already exists remotely.
pub open spec fn ops_admissible(
    s: Seq<OperationV>,
    remote: Seq<crate::model::RemoteAssetStateV>,
) -> bool {
    forall|i: int|
        0 <= i < s.len() ==> ((#[trigger] s[i]) matches OperationV::SetAssetContent { key, .. }
            ==> ((exists|j: int|
            0 <= j < i && ((#[trigger] s[j]) matches OperationV::CreateAsset { key: k2, .. }
                && k2 == key)) || find_remote(remote, key) is Some))
}

fn has_create_before(ops: &Vec<Operation>, i: usize, key: &String) -> (r: bool)
    requires
        i <= ops.len(),
    ensures
        r == exists|j: int|
            0 <= j < i && ((#[trigger] op_views(ops@)[j]) matches OperationV::CreateAsset {
                key: k2,
                ..
            } && k2 == key@),
{
    let mut j: usize = 0;
    while j < i
        invariant
            j <= i <= ops.len(),
            forall|p: int|
                0 <= p < j ==> !((#[trigger] op_views(ops@)[p]) matches OperationV::CreateAsset {
                    key: k2,
                    ..
                } && k2 == key@),
        decreases i - j,
    {
        proof {
            assert(op_views(ops@)[j as int] == ops@[j as int]@);
        }
        match &ops[j] {
            Operation::CreateAsset { key: k2, .. } => {
                if *k2 == *key {
                    proof {
                        assert((op_views(ops@)[j as int]) matches OperationV::CreateAsset {
                            key: kk,
                            ..
                        } && kk == key@);
                    }
                    return true;
                }
            },
            _ => {},
        }
        j += 1;
    }
    false
}

/// Checks the create-before-use invariant the differ is meant to establish:
/// a defect there must surface as `AssembleCommitBatchArgumentFailed`, not
/// as a remote rejection halfway through a run.
#[verifier::rlimit(100)]
pub fn check_create_before_content(ops: &Vec<Operation>, remote: &Vec<RemoteAssetState>) -> (r:
    Result<(), AssembleCommitBatchArgumentError>)
    ensures
        r is Ok <==> ops_admissible(op_views(ops@), remote_views(remote@)),
        r matches Err(AssembleCommitBatchArgumentError::SetContentWithoutCreate { key: _ }) || r
            is Ok,
{
    let mut i: usize = 0;
    while i < ops.len()
        invariant
            i <= ops.len(),
            forall|p: int|
                0 <= p < i ==> ((#[trigger] op_views(ops@)[p])
                    matches OperationV::SetAssetContent { key, .. } ==> ((exists|j: int|
                    0 <= j < p && ((#[trigger] op_views(ops@)[j])
                        matches OperationV::CreateAsset { key: k2, .. } && k2 == key))
                    || find_remote(remote_views(remote@), key) is Some)),
        decreases ops.len() - i,
    {
        proof {
            assert(op_views(ops@)[i as int] == ops@[i as int]@);
        }
        let is_set_content = match &ops[i] {
            Operation::SetAssetContent { .. } => true,
            _ => false,
        };
        if is_set_content {
            let key = op_key_exec(&ops[i]);
            if !has_create_before(ops, i, &key) {
                match crate::differ::lookup_remote(remote, &key) {
                    Some(_) => {},
                    None => {
                        return Err(
                            AssembleCommitBatchArgumentError::SetContentWithoutCreate { key },
                        );
                    },
                }
            }
        }
        i += 1;
    }
    Ok(())
}

proof fn lemma_admissible_concat(
    a: Seq<OperationV>,
    b: Seq<OperationV>,
    remote: Seq<crate::model::RemoteAssetStateV>,
)
    requires
        ops_admissible(a, remote),
        ops_admissible(b, remote),
    ensures
        ops_admissible(a + b, remote),
{
    let s = a + b;
    assert forall|i: int|
        0 <= i < s.len() implies ((#[trigger] s[i]) matches OperationV::SetAssetContent {
        key,
        ..
    } ==> ((exists|j: int|
        0 <= j < i && ((#[trigger] s[j]) matches OperationV::CreateAsset { key: k2, .. } && k2
            == key)) || find_remote(remote, key) is Some)) by {
        if i < a.len() {
            assert(s[i] == a[i]);
            if s[i] matches OperationV::SetAssetContent { key, .. } {
                if exists|j: int|
                    0 <= j < i && ((#[trigger] a[j]) matches OperationV::CreateAsset {
                        key: k2,
                        ..
                    } && k2 == op_key(a[i])) {
                    let j = choose|j: int|
                        0 <= j < i && ((#[trigger] a[j]) matches OperationV::CreateAsset {
                            key: k2,
                            ..
                        } && k2 == op_key(a[i]));
                    assert(s[j] == a[j]);
                }
            }
        } else {
            assert(s[i] == b[i - a.len()]);
            if s[i] matches OperationV::SetAssetContent { key, .. } {
                if exists|j: int|
                    0 <= j < i - a.len() && ((#[trigger] b[j]) matches OperationV::CreateAsset {
                        key: k2,
                        ..
                    } && k2 == op_key(s[i])) {
                    let j = choose|j: int|
                        0 <= j < i - a.len() && ((#[trigger] b[j])
                            matches OperationV::CreateAsset { key: k2, .. } && k2 == op_key(s[i]));
                    assert(s[j + a.len()] == b[j]);
                }
            }
        }
    }
}

proof fn lemma_asset_ops_admissible(
    a: crate::model::AssetDescriptorV,
    remote: Seq<crate::model::RemoteAssetStateV>,
)
    ensures
        ops_admissible(crate::differ::asset_ops(a, remote), remote),
{
    let seg = crate::differ::asset_ops(a, remote);
    crate::differ::lemma_asset_ops_keys(a, remote);
    match find_remote(remote, a.key) {
        None => {
            assert(seg == crate::differ::create_ops(a));
            assert(seg[0] matches OperationV::CreateAsset { key, .. } && key == a.key);
            assert forall|i: int|
                0 <= i < seg.len() implies ((#[trigger] seg[i])
                matches OperationV::SetAssetContent { key, .. } ==> ((exists|j: int|
                0 <= j < i && ((#[trigger] seg[j]) matches OperationV::CreateAsset {
                    key: k2,
                    ..
                } && k2 == key)) || find_remote(remote, key) is Some)) by {
                if seg[i] matches OperationV::SetAssetContent { key, .. } {
                    assert(op_key(seg[i]) == a.key);
                    assert(i != 0);
                    assert(seg[0] matches OperationV::CreateAsset { key: k2, .. } && k2 == op_key(
                        seg[i],
                    ));
                }
            }
        },
        Some(_) => {
            assert forall|i: int|
                0 <= i < seg.len() implies ((#[trigger] seg[i])
                matches OperationV::SetAssetContent { key, .. } ==> ((exists|j: int|
                0 <= j < i && ((#[trigger] seg[j]) matches OperationV::CreateAsset {
                    key: k2,
                    ..
                } && k2 == key)) || find_remote(remote, key) is Some)) by {
                if seg[i] matches OperationV::SetAssetContent { key, .. } {
                    assert(op_key(seg[i]) == a.key);
                }
            }
        },
    }
}

proof fn lemma_upsert_admissible(
    local: Seq<crate::model::AssetDescriptorV>,
    remote: Seq<crate::model::RemoteAssetStateV>,
)
    ensures
        ops_admissible(crate::differ::upsert_ops(local, remote), remote),
    decreases local.len(),
{
    if local.len() == 0 {
    } else {
        lemma_asset_ops_admissible(local[0], remote);
        lemma_upsert_admissible(local.drop_first(), remote);
        lemma_admissible_concat(
            crate::differ::asset_ops(local[0], remote),
            crate::differ::upsert_ops(local.drop_first(), remote),
            remote,
        );
    }
}

proof fn lemma_delete_admissible(
    local: Seq<crate::model::AssetDescriptorV>,
    remote: Seq<crate::model::RemoteAssetStateV>,
)
    ensures
        ops_admissible(crate::differ::delete_ops(local, remote), remote),
    decreases remote.len(),
{
    lemma_delete_all_deletes(local, remote);
}

proof fn lemma_delete_all_deletes(
    local: Seq<crate::model::AssetDescriptorV>,
    remote: Seq<crate::model::RemoteAssetStateV>,
)
    ensures
        forall|i: int|
            0 <= i < crate::differ::delete_ops(local, remote).len() ==> (
            #[trigger] crate::differ::delete_ops(local, remote)[i]) is DeleteAsset,
    decreases remote.len(),
{
    if remote.len() == 0 {
    } else {
        lemma_delete_all_deletes(local, remote.drop_first());
        let s = crate::differ::delete_ops(local, remote);
        let rest = crate::differ::delete_ops(local, remote.drop_first());
        assert forall|i: int| 0 <= i < s.len() implies (#[trigger] s[i]) is DeleteAsset by {
            if i >= s.len() - rest.len() {
                assert(s[i] == rest[i - (s.len() - rest.len())]);
            }
        }
    }
}

/// The differ's output always satisfies the create-before-content
/// invariant the assembler checks defensively: every `SetAssetContent` is
/// preceded by a `CreateAsset` for its key or targets a key the remote
/// store already has.
pub proof fn lemma_diff_admissible(
    local: Seq<crate::model::AssetDescriptorV>,
    remote: Seq<crate::model::RemoteAssetStateV>,
)
    ensures
        ops_admissible(diff_ops(local, remote), remote),
{
    lemma_upsert_admissible(local, remote);
    lemma_delete_admissible(local, remote);
    lemma_admissible_concat(
        crate::differ::upsert_ops(local, remote),
        crate::differ::delete_ops(local, remote),
        remote,
    );
}

// ---------------------------------------------------------------------------
// Planning a sync run
// ---------------------------------------------------------------------------

/// Everything a driver needs to run the commits of one sync: the batches in
/// order, and the destructive keys that need consent first.
pub struct SyncPlan {
    pub batches: Vec<BatchPlan>,
    pub destructive: Vec<String>,
}

/// Diffs local against remote state and assembles the batches of the run.
/// The flat operation order of the returned batches is exactly the differ's
/// output, every batch stays within the budget unless a single key's group
/// alone exceeds it, and the destructive keys are listed for consent.
pub fn plan_sync(
    local: &Vec<AssetDescriptor>,
    remote: &Vec<RemoteAssetState>,
    batch_limit: u64,
) -> (r: Result<SyncPlan, UploadContentError>)
    ensures
        r matches Ok(p) ==> {
            &&& group_ops_flat(batch_groups_flat(p.batches@)) == diff_ops(
                asset_views(local@),
                remote_views(remote@),
            )
            &&& forall|b: int|
                0 <= b < p.batches@.len() ==> (#[trigger] p.batches@[b]).groups@.len() > 0
            &&& forall|b: int|
                0 <= b < p.batches@.len() ==> (batch_cost(#[trigger] p.batches@[b]) <= batch_limit
                    || p.batches@[b].groups@.len() == 1)
            &&& str_views(p.destructive@) == destructive_keys_spec(
                diff_ops(asset_views(local@), remote_views(remote@)),
            )
        },
        r is Ok,
{
    proof {
        lemma_diff_admissible(asset_views(local@), remote_views(remote@));
    }
    let groups = diff(local, remote);
    let flat = batch_operations(&groups);
    match check_create_before_content(&flat, remote) {
        Err(e) => Err(UploadContentError::AssembleCommitBatchArgumentFailed(e)),
        Ok(()) => {
            let destructive = destructive_keys(&flat);
            let batches = assemble_batches(groups, batch_limit);
            Ok(SyncPlan { batches, destructive })
        },
    }
}

/// The descriptor the gatherer produces for one source: the source's data
/// with every encoding's digest filled in.
pub open spec fn descriptor_of(s: crate::gather::AssetSourceV) -> crate::model::AssetDescriptorV {
    crate::model::AssetDescriptorV {
        key: s.key,
        properties: s.properties,
        encodings: s.encodings.map_values(
            |e: crate::gather::SourceEncodingV|
                crate::model::EncodingV {
                    name: e.name,
                    content: e.content,
                    hash: crate::hashing::sha256_of(e.content),
                },
        ),
    }
}

pub open spec fn descriptors_of(ss: Seq<crate::gather::AssetSourceV>) -> Seq<
    crate::model::AssetDescriptorV,
> {
    ss.map_values(|s: crate::gather::AssetSourceV| descriptor_of(s))
}

/// The single entry point of a sync run's planning: gathers the local
/// descriptors, folds the remote responses into a snapshot, diffs the two
/// and assembles the batches, aggregating any component failure into one
/// discriminated error. Succeeds exactly when the local input has no key
/// or encoding-name collision and no remote read failed; nothing is
/// mutated either way.
pub fn prepare_upload(
    sources: &Vec<crate::gather::AssetSource>,
    responses: Vec<crate::remote::PropertiesResponse>,
    batch_limit: u64,
) -> (r: Result<SyncPlan, UploadContentError>)
    ensures
        ({
            let lv = descriptors_of(crate::gather::source_views(sources@));
            let rv = crate::remote::found_states(crate::remote::response_views(responses@));
            let gather_ok = crate::gather::source_keys_distinct(
                crate::gather::source_views(sources@),
            ) && (forall|i: int|
                0 <= i < sources@.len() ==> crate::gather::source_enc_names_distinct(
                    (#[trigger] crate::gather::source_views(sources@)[i]).encodings,
                ));
            let fetch_ok = !crate::remote::has_failed_response(
                crate::remote::response_views(responses@),
            );
            &&& r is Ok <==> gather_ok && fetch_ok
            &&& !gather_ok ==> (r matches Err(UploadContentError::GatherAssetDescriptorsFailed(_)))
            &&& (gather_ok && !fetch_ok) ==> (r matches Err(
                UploadContentError::GetAssetPropertiesFailed(_),
            ))
            &&& r matches Ok(p) ==> {
                &&& group_ops_flat(batch_groups_flat(p.batches@)) == diff_ops(lv, rv)
                &&& forall|b: int|
                    0 <= b < p.batches@.len() ==> (#[trigger] p.batches@[b]).groups@.len() > 0
                &&& forall|b: int|
                    0 <= b < p.batches@.len() ==> (batch_cost(#[trigger] p.batches@[b])
                        <= batch_limit || p.batches@[b].groups@.len() == 1)
                &&& str_views(p.destructive@) == destructive_keys_spec(diff_ops(lv, rv))
            }
        }),
{
    let local = match crate::gather::gather_asset_descriptors(sources) {
        Ok(d) => d,
        Err(e) => {
            return Err(UploadContentError::GatherAssetDescriptorsFailed(e));
        },
    };
    proof {
        let sv = crate::gather::source_views(sources@);
        assert forall|i: int|
            0 <= i < local@.len() implies (#[trigger] asset_views(local@)[i]) =~= descriptors_of(
            sv,
        )[i] by {
            assert(asset_views(local@)[i] == local@[i]@);
            assert(crate::gather::descriptor_matches(local@[i]@, sv[i]));
            assert(local@[i]@.encodings =~= descriptor_of(sv[i]).encodings);
        }
        assert(asset_views(local@) =~= descriptors_of(sv));
    }
    let remote = match crate::remote::collect_remote_state(responses) {
        Ok(s) => s,
        Err(e) => {
            return Err(e);
        },
    };
    plan_sync(&local, &remote, batch_limit)
}

/// How a batch committer's terminal failure surfaces to the caller of the
/// whole upload.
pub fn commit_failure_to_error(f: CommitFailure) -> (r: UploadContentError)
    ensures
        match f {
            CommitFailure::CreateBatchRefused { message } => r matches
                UploadContentError::CreateBatchFailed(re) && re.message@ == message@,
            CommitFailure::ChunkRetriesExhausted { message } => r matches
                UploadContentError::AssembleCommitBatchArgumentFailed(
                AssembleCommitBatchArgumentError::ChunkUploadRetriesExhausted { message: m },
            ) && m@ == message@,
            CommitFailure::CommitRejected { reason } => r matches
                UploadContentError::CreateBatchFailed(re) && re.message@ == reason@,
            CommitFailure::ExpiryRestartsExhausted => r matches
                UploadContentError::CreateBatchFailed(re) && re.message@ == (
                "the batch expired and the restart budget is exhausted")@,
        },
{
    match f {
        CommitFailure::CreateBatchRefused { message } => UploadContentError::CreateBatchFailed(
            RemoteError { message },
        ),
        CommitFailure::ChunkRetriesExhausted { message } => {
            UploadContentError::AssembleCommitBatchArgumentFailed(
                AssembleCommitBatchArgumentError::ChunkUploadRetriesExhausted { message },
            )
        },
        CommitFailure::CommitRejected { reason } => UploadContentError::CreateBatchFailed(
            RemoteError { message: reason },
        ),
        CommitFailure::ExpiryRestartsExhausted => UploadContentError::CreateBatchFailed(
            RemoteError {
                message: String::from_str("the batch expired and the restart budget is exhausted"),
            },
        ),
    }
}

/// The outcome of a whole upload: how many batches were committed before
/// the run ended, so that a caller can tell "nothing changed" from "some
/// earlier batches already committed".
pub struct SyncReport {
    pub batches_total: usize,
    pub batches_committed: usize,
    pub failure: Option<UploadContentError>,
}

} // verus!
