//! Computes the minimal ordered operation list that reconciles the remote
//! store with the local asset model.
//!
//! Per local asset absent remotely: `CreateAsset`, then `SetAssetContent`
//! for every encoding, in the descriptor's encoding order. Per local asset
//! present remotely: `SetAssetContent` for every encoding whose hash differs
//! or is absent remotely, `UnsetAssetContent` for every remote encoding
//! absent locally, and one `SetAssetProperties` carrying only the changed
//! fields when properties differ. Remote keys absent locally become
//! `DeleteAsset`, grouped after all per-asset updates.

use vstd::prelude::*;
use crate::model::{
    asset_views, bytes_eq, clone_bytes, clone_headers, enc_entry_views, enc_views,
    headers_eq, op_key, op_views, remote_views, AssetDescriptor, AssetDescriptorV, ContentSource, ContentSourceV,
    Encoding, EncodingHashEntry, EncodingHashEntryV, EncodingV, OpGroup, Operation, OperationV,
    Properties, PropertiesDelta, PropertiesDeltaV, PropertiesV, RemoteAssetState, RemoteAssetStateV,
};

verus! {

// ---------------------------------------------------------------------------
// Specification
// ---------------------------------------------------------------------------

/// Hash the remote store reports for `name`, if that encoding exists.
pub open spec fn remote_enc_lookup(encs: Seq<EncodingHashEntryV>, name: Seq<char>) -> Option<
    Seq<u8>,
>
    decreases encs.len(),
{
    if encs.len() == 0 {
        None
    } else if encs[0].name == name {
        Some(encs[0].hash)
    } else {
        remote_enc_lookup(encs.drop_first(), name)
    }
}

/// The remote snapshot entry for `key`, if the asset exists remotely.
pub open spec fn find_remote(remote: Seq<RemoteAssetStateV>, key: Seq<char>) -> Option<
    RemoteAssetStateV,
>
    decreases remote.len(),
{
    if remote.len() == 0 {
        None
    } else if remote[0].key == key {
        Some(remote[0])
    } else {
        find_remote(remote.drop_first(), key)
    }
}

pub open spec fn local_has_enc(encs: Seq<EncodingV>, name: Seq<char>) -> bool
    decreases encs.len(),
{
    if encs.len() == 0 {
        false
    } else {
        encs[0].name == name || local_has_enc(encs.drop_first(), name)
    }
}

pub open spec fn local_has_key(local: Seq<AssetDescriptorV>, key: Seq<char>) -> bool
    decreases local.len(),
{
    if local.len() == 0 {
        false
    } else {
        local[0].key == key || local_has_key(local.drop_first(), key)
    }
}

pub open spec fn set_content_op(key: Seq<char>, e: EncodingV) -> OperationV {
    OperationV::SetAssetContent {
        key: key,
        encoding: e.name,
        source: ContentSourceV::Inline(e.content),
        hash: e.hash,
    }
}

/// Content uploads for every encoding of a freshly created asset.
pub open spec fn set_all_ops(key: Seq<char>, encs: Seq<EncodingV>) -> Seq<OperationV>
    decreases encs.len(),
{
    if encs.len() == 0 {
        Seq::empty()
    } else {
        seq![set_content_op(key, encs[0])] + set_all_ops(key, encs.drop_first())
    }
}

/// Operations for a local asset the remote store does not know yet.
pub open spec fn create_ops(a: AssetDescriptorV) -> Seq<OperationV> {
    seq![
        OperationV::CreateAsset { key: a.key, content_type: a.properties.content_type },
    ] + set_all_ops(a.key, a.encodings)
}

/// Content uploads for every local encoding whose remote hash differs or is
/// missing. Content is unchanged iff its hash is unchanged.
pub open spec fn update_content_ops(
    key: Seq<char>,
    encs: Seq<EncodingV>,
    remote_encs: Seq<EncodingHashEntryV>,
) -> Seq<OperationV>
    decreases encs.len(),
{
    if encs.len() == 0 {
        Seq::empty()
    } else {
        (if remote_enc_lookup(remote_encs, encs[0].name) == Some(encs[0].hash) {
            Seq::empty()
        } else {
            seq![set_content_op(key, encs[0])]
        }) + update_content_ops(key, encs.drop_first(), remote_encs)
    }
}

/// Removals for every remote encoding that the local asset no longer has.
pub open spec fn unset_ops(
    key: Seq<char>,
    local_encs: Seq<EncodingV>,
    remote_encs: Seq<EncodingHashEntryV>,
) -> Seq<OperationV>
    decreases remote_encs.len(),
{
    if remote_encs.len() == 0 {
        Seq::empty()
    } else {
        (if local_has_enc(local_encs, remote_encs[0].name) {
            Seq::empty()
        } else {
            seq![OperationV::UnsetAssetContent { key: key, encoding: remote_encs[0].name }]
        }) + unset_ops(key, local_encs, remote_encs.drop_first())
    }
}

/// The changed fields, and only those, between local and remote properties.
pub open spec fn props_delta(l: PropertiesV, r: PropertiesV) -> PropertiesDeltaV {
    PropertiesDeltaV {
        max_age: if l.max_age == r.max_age {
            None
        } else {
            Some(l.max_age)
        },
        headers: if l.headers == r.headers {
            None
        } else {
            Some(l.headers)
        },
        allow_raw_access: if l.allow_raw_access == r.allow_raw_access {
            None
        } else {
            Some(l.allow_raw_access)
        },
    }
}

pub open spec fn delta_is_empty(d: PropertiesDeltaV) -> bool {
    d.max_age is None && d.headers is None && d.allow_raw_access is None
}

pub open spec fn props_ops(key: Seq<char>, l: PropertiesV, r: PropertiesV) -> Seq<OperationV> {
    if delta_is_empty(props_delta(l, r)) {
        Seq::empty()
    } else {
        seq![OperationV::SetAssetProperties { key: key, delta: props_delta(l, r) }]
    }
}

/// Operations for a local asset the remote store already has.
pub open spec fn update_ops(a: AssetDescriptorV, r: RemoteAssetStateV) -> Seq<OperationV> {
    update_content_ops(a.key, a.encodings, r.encodings) + unset_ops(
        a.key,
        a.encodings,
        r.encodings,
    ) + props_ops(a.key, a.properties, r.properties)
}

pub open spec fn asset_ops(a: AssetDescriptorV, remote: Seq<RemoteAssetStateV>) -> Seq<
    OperationV,
> {
    match find_remote(remote, a.key) {
        None => create_ops(a),
        Some(r) => update_ops(a, r),
    }
}

/// Per-asset operations for every local asset, in local order.
pub open spec fn upsert_ops(local: Seq<AssetDescriptorV>, remote: Seq<RemoteAssetStateV>) -> Seq<
    OperationV,
>
    decreases local.len(),
{
    if local.len() == 0 {
        Seq::empty()
    } else {
        asset_ops(local[0], remote) + upsert_ops(local.drop_first(), remote)
    }
}

/// Deletions for every remote key absent locally, in remote order.
pub open spec fn delete_ops(local: Seq<AssetDescriptorV>, remote: Seq<RemoteAssetStateV>) -> Seq<
    OperationV,
>
    decreases remote.len(),
{
    if remote.len() == 0 {
        Seq::empty()
    } else {
        (if local_has_key(local, remote[0].key) {
            Seq::empty()
        } else {
            seq![OperationV::DeleteAsset { key: remote[0].key }]
        }) + delete_ops(local, remote.drop_first())
    }
}

/// The full operation list of a sync run: updates first, deletions last.
pub open spec fn diff_ops(local: Seq<AssetDescriptorV>, remote: Seq<RemoteAssetStateV>) -> Seq<
    OperationV,
> {
    upsert_ops(local, remote) + delete_ops(local, remote)
}

/// Flat view of a group list, in order.
pub open spec fn group_ops_flat(groups: Seq<OpGroup>) -> Seq<OperationV>
    decreases groups.len(),
{
    if groups.len() == 0 {
        Seq::empty()
    } else {
        op_views(groups[0].ops@) + group_ops_flat(groups.drop_first())
    }
}

/// Every operation of the group is about the same key.
pub open spec fn group_single_key(g: OpGroup) -> bool {
    forall|j: int|
        0 <= j < g.ops@.len() ==> op_key(#[trigger] g.ops@[j]@) == op_key(g.ops@[0]@)
}

// ---------------------------------------------------------------------------
// Executable lookups
// ---------------------------------------------------------------------------

fn enc_hash_matches(encs: &Vec<EncodingHashEntry>, i: usize, name: &String, hash: &Vec<u8>) -> (r:
    bool)
    requires
        i <= encs.len(),
    ensures
        r == (remote_enc_lookup(enc_entry_views(encs@).skip(i as int), name@) == Some(hash@)),
    decreases encs.len() - i,
{
    if i == encs.len() {
        proof {
            assert(enc_entry_views(encs@).skip(i as int) =~= Seq::empty());
        }
        false
    } else {
        proof {
            assert(enc_entry_views(encs@).skip(i as int).drop_first() =~= enc_entry_views(
                encs@,
            ).skip(i as int + 1));
        }
        if encs[i].name == *name {
            bytes_eq(&encs[i].hash, hash)
        } else {
            enc_hash_matches(encs, i + 1, name, hash)
        }
    }
}

fn local_has_enc_exec(encs: &Vec<Encoding>, i: usize, name: &String) -> (r: bool)
    requires
        i <= encs.len(),
    ensures
        r == local_has_enc(enc_views(encs@).skip(i as int), name@),
    decreases encs.len() - i,
{
    if i == encs.len() {
        proof {
            assert(enc_views(encs@).skip(i as int) =~= Seq::empty());
        }
        false
    } else {
        proof {
            assert(enc_views(encs@).skip(i as int).drop_first() =~= enc_views(encs@).skip(
                i as int + 1,
            ));
        }
        if encs[i].name == *name {
            true
        } else {
            local_has_enc_exec(encs, i + 1, name)
        }
    }
}

fn local_has_key_exec(local: &Vec<AssetDescriptor>, i: usize, key: &String) -> (r: bool)
    requires
        i <= local.len(),
    ensures
        r == local_has_key(asset_views(local@).skip(i as int), key@),
    decreases local.len() - i,
{
    if i == local.len() {
        proof {
            assert(asset_views(local@).skip(i as int) =~= Seq::empty());
        }
        false
    } else {
        proof {
            assert(asset_views(local@).skip(i as int).drop_first() =~= asset_views(local@).skip(
                i as int + 1,
            ));
        }
        if local[i].key == *key {
            true
        } else {
            local_has_key_exec(local, i + 1, key)
        }
    }
}

fn find_remote_exec(remote: &Vec<RemoteAssetState>, i: usize, key: &String) -> (r: Option<usize>)
    requires
        i <= remote.len(),
    ensures
        match r {
            Some(j) => i <= j < remote.len() && find_remote(
                remote_views(remote@).skip(i as int),
                key@,
            ) == Some(remote@[j as int]@),
            None => find_remote(remote_views(remote@).skip(i as int), key@) is None,
        },
    decreases remote.len() - i,
{
    if i == remote.len() {
        proof {
            assert(remote_views(remote@).skip(i as int) =~= Seq::empty());
        }
        None
    } else {
        proof {
            assert(remote_views(remote@).skip(i as int).drop_first() =~= remote_views(
                remote@,
            ).skip(i as int + 1));
        }
        if remote[i].key == *key {
            Some(i)
        } else {
            find_remote_exec(remote, i + 1, key)
        }
    }
}

/// The remote snapshot entry for `key`, if any, as an index into the list.
pub fn lookup_remote(remote: &Vec<RemoteAssetState>, key: &String) -> (r: Option<usize>)
    ensures
        match r {
            Some(j) => j < remote.len() && find_remote(remote_views(remote@), key@) == Some(
                remote@[j as int]@,
            ),
            None => find_remote(remote_views(remote@), key@) is None,
        },
{
    proof {
        assert(remote_views(remote@).skip(0) =~= remote_views(remote@));
    }
    find_remote_exec(remote, 0, key)
}

// ---------------------------------------------------------------------------
// Executable operation builders
// ---------------------------------------------------------------------------

fn set_all_exec(key: &String, encs: &Vec<Encoding>, i: usize) -> (r: Vec<Operation>)
    requires
        i <= encs.len(),
    ensures
        op_views(r@) == set_all_ops(key@, enc_views(encs@).skip(i as int)),
        forall|j: int| 0 <= j < r@.len() ==> op_key(#[trigger] r@[j]@) == key@,
    decreases encs.len() - i,
{
    if i == encs.len() {
        proof {
            assert(enc_views(encs@).skip(i as int) =~= Seq::empty());
            assert(op_views(Seq::<Operation>::empty()) =~= Seq::<OperationV>::empty());
        }
        Vec::new()
    } else {
        proof {
            assert(enc_views(encs@).skip(i as int).drop_first() =~= enc_views(encs@).skip(
                i as int + 1,
            ));
        }
        let mut rest = set_all_exec(key, encs, i + 1);
        let op = Operation::SetAssetContent {
            key: key.clone(),
            encoding: encs[i].name.clone(),
            source: ContentSource::Inline(clone_bytes(&encs[i].content)),
            hash: clone_bytes(&encs[i].hash),
        };
        proof {
            assert(op@ == set_content_op(key@, enc_views(encs@).skip(i as int)[0]));
        }
        rest.insert(0, op);
        proof {
            assert(op_views(rest@) =~= set_all_ops(key@, enc_views(encs@).skip(i as int)));
        }
        rest
    }
}

fn update_content_exec(
    key: &String,
    encs: &Vec<Encoding>,
    i: usize,
    remote_encs: &Vec<EncodingHashEntry>,
) -> (r: Vec<Operation>)
    requires
        i <= encs.len(),
    ensures
        op_views(r@) == update_content_ops(
            key@,
            enc_views(encs@).skip(i as int),
            enc_entry_views(remote_encs@),
        ),
        forall|j: int| 0 <= j < r@.len() ==> op_key(#[trigger] r@[j]@) == key@,
    decreases encs.len() - i,
{
    if i == encs.len() {
        proof {
            assert(enc_views(encs@).skip(i as int) =~= Seq::empty());
        }
        Vec::new()
    } else {
        proof {
            assert(enc_views(encs@).skip(i as int).drop_first() =~= enc_views(encs@).skip(
                i as int + 1,
            ));
        }
        let mut rest = update_content_exec(key, encs, i + 1, remote_encs);
        if enc_hash_matches(remote_encs, 0, &encs[i].name, &encs[i].hash) {
            proof {
                assert(enc_entry_views(remote_encs@).skip(0) =~= enc_entry_views(remote_encs@));
                assert(op_views(rest@) =~= update_content_ops(
                    key@,
                    enc_views(encs@).skip(i as int),
                    enc_entry_views(remote_encs@),
                ));
            }
            rest
        } else {
            proof {
                assert(enc_entry_views(remote_encs@).skip(0) =~= enc_entry_views(remote_encs@));
            }
            let op = Operation::SetAssetContent {
                key: key.clone(),
                encoding: encs[i].name.clone(),
                source: ContentSource::Inline(clone_bytes(&encs[i].content)),
                hash: clone_bytes(&encs[i].hash),
            };
            proof {
                assert(op@ == set_content_op(key@, enc_views(encs@).skip(i as int)[0]));
            }
            rest.insert(0, op);
            proof {
                assert(op_views(rest@) =~= update_content_ops(
                    key@,
                    enc_views(encs@).skip(i as int),
                    enc_entry_views(remote_encs@),
                ));
            }
            rest
        }
    }
}

fn unset_exec(
    key: &String,
    encs: &Vec<Encoding>,
    remote_encs: &Vec<EncodingHashEntry>,
    i: usize,
) -> (r: Vec<Operation>)
    requires
        i <= remote_encs.len(),
    ensures
        op_views(r@) == unset_ops(
            key@,
            enc_views(encs@),
            enc_entry_views(remote_encs@).skip(i as int),
        ),
        forall|j: int| 0 <= j < r@.len() ==> op_key(#[trigger] r@[j]@) == key@,
    decreases remote_encs.len() - i,
{
    if i == remote_encs.len() {
        proof {
            assert(enc_entry_views(remote_encs@).skip(i as int) =~= Seq::empty());
        }
        Vec::new()
    } else {
        proof {
            assert(enc_entry_views(remote_encs@).skip(i as int).drop_first() =~= enc_entry_views(
                remote_encs@,
            ).skip(i as int + 1));
        }
        let mut rest = unset_exec(key, encs, remote_encs, i + 1);
        if local_has_enc_exec(encs, 0, &remote_encs[i].name) {
            proof {
                assert(enc_views(encs@).skip(0) =~= enc_views(encs@));
                assert(op_views(rest@) =~= unset_ops(
                    key@,
                    enc_views(encs@),
                    enc_entry_views(remote_encs@).skip(i as int),
                ));
            }
            rest
        } else {
            proof {
                assert(enc_views(encs@).skip(0) =~= enc_views(encs@));
            }
            let op = Operation::UnsetAssetContent {
                key: key.clone(),
                encoding: remote_encs[i].name.clone(),
            };
            rest.insert(0, op);
            proof {
                assert(op_views(rest@) =~= unset_ops(
                    key@,
                    enc_views(encs@),
                    enc_entry_views(remote_encs@).skip(i as int),
                ));
            }
            rest
        }
    }
}

fn props_ops_exec(key: &String, l: &Properties, r: &Properties) -> (ops: Vec<Operation>)
    ensures
        op_views(ops@) == props_ops(key@, l@, r@),
        forall|j: int| 0 <= j < ops@.len() ==> op_key(#[trigger] ops@[j]@) == key@,
{
    let max_age_same = l.max_age == r.max_age;
    let headers_same = headers_eq(&l.headers, &r.headers);
    let raw_same = l.allow_raw_access == r.allow_raw_access;
    if max_age_same && headers_same && raw_same {
        proof {
            assert(delta_is_empty(props_delta(l@, r@)));
            assert(op_views(Seq::<Operation>::empty()) =~= Seq::<OperationV>::empty());
        }
        Vec::new()
    } else {
        let delta = PropertiesDelta {
            max_age: if max_age_same {
                None
            } else {
                Some(l.max_age)
            },
            headers: if headers_same {
                None
            } else {
                Some(clone_headers(&l.headers))
            },
            allow_raw_access: if raw_same {
                None
            } else {
                Some(l.allow_raw_access)
            },
        };
        proof {
            assert(delta@ =~= props_delta(l@, r@));
        }
        let op = Operation::SetAssetProperties { key: key.clone(), delta };
        let mut ops: Vec<Operation> = Vec::new();
        ops.push(op);
        proof {
            assert(op_views(ops@) =~= props_ops(key@, l@, r@));
        }
        ops
    }
}

/// All operations the differ emits for one local asset.
pub fn ops_for_asset(a: &AssetDescriptor, remote: &Vec<RemoteAssetState>) -> (r: Vec<Operation>)
    ensures
        op_views(r@) == asset_ops(a@, remote_views(remote@)),
        forall|j: int| 0 <= j < r@.len() ==> op_key(#[trigger] r@[j]@) == a.key@,
{
    proof {
        assert(remote_views(remote@).skip(0) =~= remote_views(remote@));
        assert(enc_views(a.encodings@).skip(0) =~= enc_views(a.encodings@));
    }
    match find_remote_exec(remote, 0, &a.key) {
        None => {
            let mut ops = set_all_exec(&a.key, &a.encodings, 0);
            let op = Operation::CreateAsset {
                key: a.key.clone(),
                content_type: a.properties.content_type.clone(),
            };
            ops.insert(0, op);
            proof {
                assert(op_views(ops@) =~= create_ops(a@));
            }
            ops
        },
        Some(j) => {
            let rem = &remote[j];
            let mut ops = update_content_exec(&a.key, &a.encodings, 0, &rem.encodings);
            let mut unsets = unset_exec(&a.key, &a.encodings, &rem.encodings, 0);
            let mut props = props_ops_exec(&a.key, &a.properties, &rem.properties);
            let ghost u = ops@;
            let ghost n = unsets@;
            let ghost p = props@;
            ops.append(&mut unsets);
            ops.append(&mut props);
            proof {
                assert(ops@ == u + n + p);
                assert(op_views(u + n + p) =~= op_views(u) + op_views(n) + op_views(p));
                assert(enc_entry_views(rem.encodings@).skip(0) =~= enc_entry_views(
                    rem.encodings@,
                ));
                assert(op_views(ops@) =~= update_ops(a@, remote@[j as int]@));
            }
            ops
        },
    }
}

// ---------------------------------------------------------------------------
// The differ
// ---------------------------------------------------------------------------

fn upsert_groups(local: &Vec<AssetDescriptor>, i: usize, remote: &Vec<RemoteAssetState>) -> (r:
    Vec<OpGroup>)
    requires
        i <= local.len(),
    ensures
        group_ops_flat(r@) == upsert_ops(asset_views(local@).skip(i as int), remote_views(remote@)),
        forall|g: int|
            0 <= g < r@.len() ==> r@[g].ops@.len() > 0 && group_single_key(#[trigger] r@[g]),
    decreases local.len() - i,
{
    if i == local.len() {
        proof {
            assert(asset_views(local@).skip(i as int) =~= Seq::empty());
        }
        Vec::new()
    } else {
        proof {
            assert(asset_views(local@).skip(i as int).drop_first() =~= asset_views(local@).skip(
                i as int + 1,
            ));
        }
        let ops = ops_for_asset(&local[i], remote);
        let mut rest = upsert_groups(local, i + 1, remote);
        if ops.len() > 0 {
            let ghost tail = rest@;
            rest.insert(0, OpGroup { ops });
            proof {
                assert(rest@.drop_first() =~= tail);
                assert(group_ops_flat(rest@) =~= upsert_ops(
                    asset_views(local@).skip(i as int),
                    remote_views(remote@),
                ));
            }
            rest
        } else {
            proof {
                assert(op_views(ops@) =~= Seq::<OperationV>::empty());
                assert(group_ops_flat(rest@) =~= upsert_ops(
                    asset_views(local@).skip(i as int),
                    remote_views(remote@),
                ));
            }
            rest
        }
    }
}

fn delete_groups(local: &Vec<AssetDescriptor>, remote: &Vec<RemoteAssetState>, i: usize) -> (r:
    Vec<OpGroup>)
    requires
        i <= remote.len(),
    ensures
        group_ops_flat(r@) == delete_ops(
            asset_views(local@),
            remote_views(remote@).skip(i as int),
        ),
        forall|g: int|
            0 <= g < r@.len() ==> r@[g].ops@.len() > 0 && group_single_key(#[trigger] r@[g]),
    decreases remote.len() - i,
{
    if i == remote.len() {
        proof {
            assert(remote_views(remote@).skip(i as int) =~= Seq::empty());
        }
        Vec::new()
    } else {
        proof {
            assert(remote_views(remote@).skip(i as int).drop_first() =~= remote_views(
                remote@,
            ).skip(i as int + 1));
            assert(asset_views(local@).skip(0) =~= asset_views(local@));
        }
        let mut rest = delete_groups(local, remote, i + 1);
        if local_has_key_exec(local, 0, &remote[i].key) {
            proof {
                assert(group_ops_flat(rest@) =~= delete_ops(
                    asset_views(local@),
                    remote_views(remote@).skip(i as int),
                ));
            }
            rest
        } else {
            let mut ops: Vec<Operation> = Vec::new();
            ops.push(Operation::DeleteAsset { key: remote[i].key.clone() });
            proof {
                assert(op_views(ops@) =~= seq![
                    OperationV::DeleteAsset { key: remote@[i as int].key@ },
                ]);
            }
            let ghost tail = rest@;
            rest.insert(0, OpGroup { ops });
            proof {
                assert(rest@.drop_first() =~= tail);
                assert(group_ops_flat(rest@) =~= delete_ops(
                    asset_views(local@),
                    remote_views(remote@).skip(i as int),
                ));
            }
            rest
        }
    }
}

proof fn lemma_group_flat_concat(a: Seq<OpGroup>, b: Seq<OpGroup>)
    ensures
        group_ops_flat(a + b) == group_ops_flat(a) + group_ops_flat(b),
    decreases a.len(),
{
    if a.len() == 0 {
        assert(a + b =~= b);
        assert(group_ops_flat(a) =~= Seq::<OperationV>::empty());
        assert(group_ops_flat(a) + group_ops_flat(b) =~= group_ops_flat(b));
    } else {
        assert((a + b).drop_first() =~= a.drop_first() + b);
        lemma_group_flat_concat(a.drop_first(), b);
        assert(group_ops_flat(a + b) =~= group_ops_flat(a) + group_ops_flat(b));
    }
}

/// Compares local and remote state and returns the differ's operations,
/// grouped per asset key: updates first in local order, deletions last in
/// remote order. The flat concatenation of the groups is exactly
/// `diff_ops(local, remote)`.
pub fn diff(local: &Vec<AssetDescriptor>, remote: &Vec<RemoteAssetState>) -> (r: Vec<OpGroup>)
    ensures
        group_ops_flat(r@) == diff_ops(asset_views(local@), remote_views(remote@)),
        forall|g: int|
            0 <= g < r@.len() ==> r@[g].ops@.len() > 0 && group_single_key(#[trigger] r@[g]),
{
    proof {
        assert(asset_views(local@).skip(0) =~= asset_views(local@));
        assert(remote_views(remote@).skip(0) =~= remote_views(remote@));
    }
    let mut groups = upsert_groups(local, 0, remote);
    let mut dels = delete_groups(local, remote, 0);
    proof {
        lemma_group_flat_concat(groups@, dels@);
    }
    groups.append(&mut dels);
    groups
}

// ---------------------------------------------------------------------------
// Laws
// ---------------------------------------------------------------------------

pub open spec fn remote_has_key(remote: Seq<RemoteAssetStateV>, key: Seq<char>) -> bool
    decreases remote.len(),
{
    if remote.len() == 0 {
        false
    } else {
        remote[0].key == key || remote_has_key(remote.drop_first(), key)
    }
}

pub open spec fn keys_distinct(local: Seq<AssetDescriptorV>) -> bool {
    forall|i: int, j: int|
        0 <= i < j < local.len() ==> (#[trigger] local[i].key) != (#[trigger] local[j].key)
}

pub open spec fn enc_names_distinct(encs: Seq<EncodingV>) -> bool {
    forall|i: int, j: int|
        0 <= i < j < encs.len() ==> (#[trigger] encs[i].name) != (#[trigger] encs[j].name)
}

/// A remote snapshot entry that reports exactly the local asset's
/// properties and per-encoding hashes.
pub open spec fn mirrors_remote(a: AssetDescriptorV, r: RemoteAssetStateV) -> bool {
    &&& r.key == a.key
    &&& r.properties == a.properties
    &&& forall|i: int|
        0 <= i < a.encodings.len() ==> remote_enc_lookup(
            r.encodings,
            (#[trigger] a.encodings[i]).name,
        ) == Some(a.encodings[i].hash)
    &&& forall|j: int|
        0 <= j < r.encodings.len() ==> local_has_enc(
            a.encodings,
            (#[trigger] r.encodings[j]).name,
        )
}

proof fn lemma_update_content_empty(
    key: Seq<char>,
    encs: Seq<EncodingV>,
    rencs: Seq<EncodingHashEntryV>,
)
    requires
        forall|i: int|
            0 <= i < encs.len() ==> remote_enc_lookup(rencs, (#[trigger] encs[i]).name) == Some(
                encs[i].hash,
            ),
    ensures
        update_content_ops(key, encs, rencs) == Seq::<OperationV>::empty(),
    decreases encs.len(),
{
    if encs.len() == 0 {
    } else {
        lemma_update_content_empty(key, encs.drop_first(), rencs);
        assert(update_content_ops(key, encs, rencs) =~= Seq::<OperationV>::empty());
    }
}

proof fn lemma_unset_empty(
    key: Seq<char>,
    lencs: Seq<EncodingV>,
    rencs: Seq<EncodingHashEntryV>,
)
    requires
        forall|j: int|
            0 <= j < rencs.len() ==> local_has_enc(lencs, (#[trigger] rencs[j]).name),
    ensures
        unset_ops(key, lencs, rencs) == Seq::<OperationV>::empty(),
    decreases rencs.len(),
{
    if rencs.len() == 0 {
    } else {
        lemma_unset_empty(key, lencs, rencs.drop_first());
        assert(unset_ops(key, lencs, rencs) =~= Seq::<OperationV>::empty());
    }
}

proof fn lemma_upsert_empty(local: Seq<AssetDescriptorV>, remote: Seq<RemoteAssetStateV>)
    requires
        forall|i: int|
            0 <= i < local.len() ==> (find_remote(remote, (#[trigger] local[i]).key) matches Some(
                r,
            ) && mirrors_remote(local[i], r)),
    ensures
        upsert_ops(local, remote) == Seq::<OperationV>::empty(),
    decreases local.len(),
{
    if local.len() == 0 {
    } else {
        let a = local[0];
        let r = find_remote(remote, a.key)->Some_0;
        lemma_update_content_empty(a.key, a.encodings, r.encodings);
        lemma_unset_empty(a.key, a.encodings, r.encodings);
        assert(delta_is_empty(props_delta(a.properties, r.properties)));
        assert(asset_ops(a, remote) =~= Seq::<OperationV>::empty());
        lemma_upsert_empty(local.drop_first(), remote);
        assert(upsert_ops(local, remote) =~= Seq::<OperationV>::empty());
    }
}

proof fn lemma_delete_empty(local: Seq<AssetDescriptorV>, remote: Seq<RemoteAssetStateV>)
    requires
        forall|j: int|
            0 <= j < remote.len() ==> local_has_key(local, (#[trigger] remote[j]).key),
    ensures
        delete_ops(local, remote) == Seq::<OperationV>::empty(),
    decreases remote.len(),
{
    if remote.len() == 0 {
    } else {
        lemma_delete_empty(local, remote.drop_first());
        assert(delete_ops(local, remote) =~= Seq::<OperationV>::empty());
    }
}

/// Law: when every local asset's hashes and properties equal the remote
/// snapshot and no remote key is stale, the differ emits nothing.
pub proof fn lemma_diff_idempotent(local: Seq<AssetDescriptorV>, remote: Seq<RemoteAssetStateV>)
    requires
        forall|i: int|
            0 <= i < local.len() ==> (find_remote(remote, (#[trigger] local[i]).key) matches Some(
                r,
            ) && mirrors_remote(local[i], r)),
        forall|j: int|
            0 <= j < remote.len() ==> local_has_key(local, (#[trigger] remote[j]).key),
    ensures
        diff_ops(local, remote) == Seq::<OperationV>::empty(),
{
    lemma_upsert_empty(local, remote);
    lemma_delete_empty(local, remote);
    assert(diff_ops(local, remote) =~= Seq::<OperationV>::empty());
}

/// The remote snapshot a successful sync leaves behind for one asset.
pub open spec fn mirror_entry(e: EncodingV) -> EncodingHashEntryV {
    EncodingHashEntryV { name: e.name, hash: e.hash }
}

pub open spec fn mirror_asset(a: AssetDescriptorV) -> RemoteAssetStateV {
    RemoteAssetStateV {
        key: a.key,
        properties: a.properties,
        encodings: a.encodings.map_values(|e: EncodingV| mirror_entry(e)),
    }
}

pub open spec fn mirror_state(local: Seq<AssetDescriptorV>) -> Seq<RemoteAssetStateV> {
    local.map_values(|a: AssetDescriptorV| mirror_asset(a))
}

proof fn lemma_enc_names_distinct_drop(encs: Seq<EncodingV>)
    requires
        enc_names_distinct(encs),
        encs.len() > 0,
    ensures
        enc_names_distinct(encs.drop_first()),
{
    let d = encs.drop_first();
    assert forall|p: int, q: int| 0 <= p < q < d.len() implies (#[trigger] d[p]).name != (
    #[trigger] d[q]).name by {
        assert(d[p] == encs[p + 1]);
        assert(d[q] == encs[q + 1]);
    }
}

proof fn lemma_keys_distinct_drop(local: Seq<AssetDescriptorV>)
    requires
        keys_distinct(local),
        local.len() > 0,
    ensures
        keys_distinct(local.drop_first()),
{
    let d = local.drop_first();
    assert forall|p: int, q: int| 0 <= p < q < d.len() implies (#[trigger] d[p]).key != (
    #[trigger] d[q]).key by {
        assert(d[p] == local[p + 1]);
        assert(d[q] == local[q + 1]);
    }
}

proof fn lemma_lookup_mirror(encs: Seq<EncodingV>, i: int)
    requires
        enc_names_distinct(encs),
        0 <= i < encs.len(),
    ensures
        remote_enc_lookup(
            encs.map_values(|e: EncodingV| mirror_entry(e)),
            encs[i].name,
        ) == Some(encs[i].hash),
    decreases encs.len(),
{
    let m = encs.map_values(|e: EncodingV| mirror_entry(e));
    if i == 0 {
        assert(m[0].name == encs[0].name);
    } else {
        assert(m[0].name == encs[0].name);
        assert(encs[0].name != encs[i].name);
        assert(encs.drop_first().map_values(|e: EncodingV| mirror_entry(e)) =~= m.drop_first());
        lemma_enc_names_distinct_drop(encs);
        lemma_lookup_mirror(encs.drop_first(), i - 1);
    }
}

proof fn lemma_local_has_own_enc(encs: Seq<EncodingV>, j: int)
    requires
        0 <= j < encs.len(),
    ensures
        local_has_enc(encs, encs[j].name),
    decreases encs.len(),
{
    if j == 0 {
    } else {
        lemma_local_has_own_enc(encs.drop_first(), j - 1);
    }
}

proof fn lemma_find_remote_mirror(local: Seq<AssetDescriptorV>, i: int)
    requires
        keys_distinct(local),
        0 <= i < local.len(),
    ensures
        find_remote(mirror_state(local), local[i].key) == Some(mirror_asset(local[i])),
    decreases local.len(),
{
    let m = mirror_state(local);
    if i == 0 {
        assert(m[0] == mirror_asset(local[0]));
    } else {
        assert(m[0].key == local[0].key);
        assert(local[0].key != local[i].key);
        assert(local.drop_first().map_values(|a: AssetDescriptorV| mirror_asset(a)) =~= m
            .drop_first());
        lemma_keys_distinct_drop(local);
        lemma_find_remote_mirror(local.drop_first(), i - 1);
        assert(local.drop_first()[i - 1] == local[i]);
    }
}

proof fn lemma_local_has_own_key(local: Seq<AssetDescriptorV>, i: int)
    requires
        0 <= i < local.len(),
    ensures
        local_has_key(local, local[i].key),
    decreases local.len(),
{
    if i == 0 {
    } else {
        lemma_local_has_own_key(local.drop_first(), i - 1);
    }
}

/// Law: hash comparison round-trips. After a sync succeeds, the remote
/// snapshot mirrors the local state, and the second run emits no operation.
pub proof fn lemma_second_run_empty(local: Seq<AssetDescriptorV>)
    requires
        keys_distinct(local),
        forall|i: int| 0 <= i < local.len() ==> enc_names_distinct((#[trigger] local[i]).encodings),
    ensures
        diff_ops(local, mirror_state(local)) == Seq::<OperationV>::empty(),
{
    let m = mirror_state(local);
    assert forall|i: int|
        0 <= i < local.len() implies (find_remote(m, (#[trigger] local[i]).key) matches Some(r)
        && mirrors_remote(local[i], r)) by {
        lemma_find_remote_mirror(local, i);
        let a = local[i];
        let r = mirror_asset(a);
        assert forall|p: int|
            0 <= p < a.encodings.len() implies remote_enc_lookup(
            r.encodings,
            (#[trigger] a.encodings[p]).name,
        ) == Some(a.encodings[p].hash) by {
            lemma_lookup_mirror(a.encodings, p);
        }
        assert forall|q: int|
            0 <= q < r.encodings.len() implies local_has_enc(
            a.encodings,
            (#[trigger] r.encodings[q]).name,
        ) by {
            assert(r.encodings[q] == mirror_entry(a.encodings[q]));
            lemma_local_has_own_enc(a.encodings, q);
        }
    }
    assert forall|j: int|
        0 <= j < m.len() implies local_has_key(local, (#[trigger] m[j]).key) by {
        assert(m[j] == mirror_asset(local[j]));
        lemma_local_has_own_key(local, j);
    }
    lemma_diff_idempotent(local, m);
}

pub open spec fn ops_all_key(s: Seq<OperationV>, k: Seq<char>) -> bool {
    forall|i: int| 0 <= i < s.len() ==> op_key(#[trigger] s[i]) == k
}

pub open spec fn no_key_ops(s: Seq<OperationV>, k: Seq<char>) -> bool {
    forall|i: int| 0 <= i < s.len() ==> op_key(#[trigger] s[i]) != k
}

proof fn lemma_set_all_keys(key: Seq<char>, encs: Seq<EncodingV>)
    ensures
        ops_all_key(set_all_ops(key, encs), key),
    decreases encs.len(),
{
    if encs.len() == 0 {
    } else {
        lemma_set_all_keys(key, encs.drop_first());
    }
}

proof fn lemma_update_content_keys(
    key: Seq<char>,
    encs: Seq<EncodingV>,
    rencs: Seq<EncodingHashEntryV>,
)
    ensures
        ops_all_key(update_content_ops(key, encs, rencs), key),
    decreases encs.len(),
{
    if encs.len() == 0 {
    } else {
        lemma_update_content_keys(key, encs.drop_first(), rencs);
    }
}

proof fn lemma_unset_keys(key: Seq<char>, lencs: Seq<EncodingV>, rencs: Seq<EncodingHashEntryV>)
    ensures
        ops_all_key(unset_ops(key, lencs, rencs), key),
    decreases rencs.len(),
{
    if rencs.len() == 0 {
    } else {
        lemma_unset_keys(key, lencs, rencs.drop_first());
    }
}

/// Every operation the differ emits for an asset is about that asset's key.
pub proof fn lemma_asset_ops_keys(a: AssetDescriptorV, remote: Seq<RemoteAssetStateV>)
    ensures
        ops_all_key(asset_ops(a, remote), a.key),
{
    match find_remote(remote, a.key) {
        None => {
            lemma_set_all_keys(a.key, a.encodings);
        },
        Some(r) => {
            lemma_update_content_keys(a.key, a.encodings, r.encodings);
            lemma_unset_keys(a.key, a.encodings, r.encodings);
        },
    }
}

proof fn lemma_upsert_no_key(
    local: Seq<AssetDescriptorV>,
    remote: Seq<RemoteAssetStateV>,
    k: Seq<char>,
)
    requires
        !local_has_key(local, k),
    ensures
        no_key_ops(upsert_ops(local, remote), k),
    decreases local.len(),
{
    if local.len() == 0 {
    } else {
        lemma_asset_ops_keys(local[0], remote);
        lemma_upsert_no_key(local.drop_first(), remote, k);
    }
}

proof fn lemma_delete_no_key(
    local: Seq<AssetDescriptorV>,
    remote: Seq<RemoteAssetStateV>,
    k: Seq<char>,
)
    requires
        !remote_has_key(remote, k),
    ensures
        no_key_ops(delete_ops(local, remote), k),
    decreases remote.len(),
{
    if remote.len() == 0 {
    } else {
        lemma_delete_no_key(local, remote.drop_first(), k);
    }
}

proof fn lemma_find_remote_none(remote: Seq<RemoteAssetStateV>, k: Seq<char>)
    requires
        !remote_has_key(remote, k),
    ensures
        find_remote(remote, k) is None,
    decreases remote.len(),
{
    if remote.len() == 0 {
    } else {
        lemma_find_remote_none(remote.drop_first(), k);
    }
}

/// Index `c` holds the first operation for key `k`: it is a `CreateAsset`,
/// nothing before it touches `k`, and every `SetAssetContent` for `k` comes
/// after it.
pub open spec fn create_first_for(s: Seq<OperationV>, k: Seq<char>, c: int) -> bool {
    &&& 0 <= c < s.len()
    &&& s[c] matches OperationV::CreateAsset { key, .. } && key == k
    &&& forall|m: int| 0 <= m < c ==> op_key(#[trigger] s[m]) != k
    &&& forall|j: int|
        0 <= j < s.len() && ((#[trigger] s[j]) matches OperationV::SetAssetContent { key, .. }
            && key == k) ==> j > c
}

proof fn lemma_upsert_create_first(
    local: Seq<AssetDescriptorV>,
    remote: Seq<RemoteAssetStateV>,
    k: Seq<char>,
)
    requires
        keys_distinct(local),
        local_has_key(local, k),
        !remote_has_key(remote, k),
    ensures
        exists|c: int| create_first_for(upsert_ops(local, remote), k, c),
    decreases local.len(),
{
    let s = upsert_ops(local, remote);
    let seg = asset_ops(local[0], remote);
    let rest = upsert_ops(local.drop_first(), remote);
    assert(s == seg + rest);
    if local[0].key == k {
        lemma_find_remote_none(remote, k);
        assert(seg == create_ops(local[0]));
        assert(seg[0] matches OperationV::CreateAsset { key, .. } && key == k);
        assert(s[0] == seg[0]);
        assert(create_first_for(s, k, 0)) by {
            assert forall|j: int|
                0 <= j < s.len() && ((#[trigger] s[j]) matches OperationV::SetAssetContent {
                    key,
                    ..
                } && key == k) implies j > 0 by {
                if j == 0 {
                    assert(s[0] is CreateAsset);
                }
            }
        }
    } else {
        assert(local_has_key(local.drop_first(), k));
        lemma_keys_distinct_drop(local);
        lemma_upsert_create_first(local.drop_first(), remote, k);
        let c2 = choose|c: int| create_first_for(rest, k, c);
        lemma_asset_ops_keys(local[0], remote);
        let c = seg.len() + c2;
        assert(s[c] == rest[c2]);
        assert(create_first_for(s, k, c)) by {
            assert forall|m: int| 0 <= m < c implies op_key(#[trigger] s[m]) != k by {
                if m < seg.len() {
                    assert(s[m] == seg[m]);
                    assert(op_key(seg[m]) == local[0].key);
                } else {
                    assert(s[m] == rest[m - seg.len()]);
                }
            }
            assert forall|j: int|
                0 <= j < s.len() && ((#[trigger] s[j]) matches OperationV::SetAssetContent {
                    key,
                    ..
                } && key == k) implies j > c by {
                if j < seg.len() {
                    assert(op_key(seg[j]) == local[0].key);
                    assert(op_key(s[j]) == k);
                } else {
                    assert(s[j] == rest[j - seg.len()]);
                }
            }
        }
    }
}

/// Law: for any asset present locally but not remotely, the first operation
/// the differ emits for that key is `CreateAsset`, and it precedes every
/// `SetAssetContent` for the key in the final operation order.
pub proof fn lemma_create_precedes_content(
    local: Seq<AssetDescriptorV>,
    remote: Seq<RemoteAssetStateV>,
    k: Seq<char>,
)
    requires
        keys_distinct(local),
        local_has_key(local, k),
        !remote_has_key(remote, k),
    ensures
        exists|c: int| create_first_for(diff_ops(local, remote), k, c),
{
    let s = diff_ops(local, remote);
    let ups = upsert_ops(local, remote);
    let dels = delete_ops(local, remote);
    assert(s == ups + dels);
    lemma_upsert_create_first(local, remote, k);
    let c = choose|c: int| create_first_for(ups, k, c);
    lemma_delete_no_key(local, remote, k);
    assert(s[c] == ups[c]);
    assert(create_first_for(s, k, c)) by {
        assert forall|m: int| 0 <= m < c implies op_key(#[trigger] s[m]) != k by {
            assert(s[m] == ups[m]);
        }
        assert forall|j: int|
            0 <= j < s.len() && ((#[trigger] s[j]) matches OperationV::SetAssetContent { key, .. }
                && key == k) implies j > c by {
            if j < ups.len() {
                assert(s[j] == ups[j]);
            } else {
                assert(s[j] == dels[j - ups.len()]);
                assert(op_key(s[j]) == k);
            }
        }
    }
}

} // verus!
