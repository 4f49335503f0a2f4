//! Builds the canonical local asset model: one descriptor per declared
//! asset, with the content digest of every encoding computed, failing when
//! a declared key or an encoding name collides.

use vstd::prelude::*;
use crate::hashing::{sha256, sha256_of};
use crate::model::{
    clone_bytes, clone_headers, enc_views, AssetDescriptor, AssetDescriptorV, Encoding,
    Properties, PropertiesV,
};
use crate::sync::GatherAssetDescriptorsError;

verus! {

/// One declared representation of an asset's content, before hashing.
pub struct SourceEncoding {
    pub name: String,
    pub content: Vec<u8>,
}

#[verifier::ext_equal]
pub struct SourceEncodingV {
    pub name: Seq<char>,
    pub content: Seq<u8>,
}

impl View for SourceEncoding {
    type V = SourceEncodingV;

    open spec fn view(&self) -> SourceEncodingV {
        SourceEncodingV { name: self.name@, content: self.content@ }
    }
}

pub open spec fn src_enc_views(s: Seq<SourceEncoding>) -> Seq<SourceEncodingV> {
    s.map_values(|e: SourceEncoding| e@)
}

/// One resolved local asset grouping, as handed in by configuration
/// loading: a key, declared properties, and the raw content per encoding.
pub struct AssetSource {
    pub key: String,
    pub properties: Properties,
    pub encodings: Vec<SourceEncoding>,
}

#[verifier::ext_equal]
pub struct AssetSourceV {
    pub key: Seq<char>,
    pub properties: PropertiesV,
    pub encodings: Seq<SourceEncodingV>,
}

impl View for AssetSource {
    type V = AssetSourceV;

    open spec fn view(&self) -> AssetSourceV {
        AssetSourceV {
            key: self.key@,
            properties: self.properties@,
            encodings: src_enc_views(self.encodings@),
        }
    }
}

pub open spec fn source_views(s: Seq<AssetSource>) -> Seq<AssetSourceV> {
    s.map_values(|a: AssetSource| a@)
}

pub open spec fn source_keys_distinct(s: Seq<AssetSourceV>) -> bool {
    forall|i: int, j: int|
        0 <= i < j < s.len() ==> (#[trigger] s[i].key) != (#[trigger] s[j].key)
}

pub open spec fn source_enc_names_distinct(encs: Seq<SourceEncodingV>) -> bool {
    forall|i: int, j: int|
        0 <= i < j < encs.len() ==> (#[trigger] encs[i].name) != (#[trigger] encs[j].name)
}

/// The descriptor carries the source's key, properties and contents
/// unchanged, and the digest of every encoding's bytes.
pub open spec fn descriptor_matches(d: AssetDescriptorV, s: AssetSourceV) -> bool {
    &&& d.key == s.key
    &&& d.properties == s.properties
    &&& d.encodings.len() == s.encodings.len()
    &&& forall|k: int|
        0 <= k < s.encodings.len() ==> {
            &&& (#[trigger] d.encodings[k]).name == s.encodings[k].name
            &&& d.encodings[k].content == s.encodings[k].content
            &&& d.encodings[k].hash == sha256_of(s.encodings[k].content)
        }
}

fn clone_properties(p: &Properties) -> (r: Properties)
    ensures
        r@ == p@,
{
    let r = Properties {
        content_type: p.content_type.clone(),
        max_age: p.max_age,
        headers: clone_headers(&p.headers),
        allow_raw_access: p.allow_raw_access,
    };
    proof {
        assert(r@ =~= p@);
    }
    r
}

fn find_dup_key(sources: &Vec<AssetSource>) -> (r: Option<String>)
    ensures
        match r {
            Some(k) => exists|i: int, j: int|
                0 <= i < j < sources@.len() && (#[trigger] sources@[i]@.key) == (
                #[trigger] sources@[j]@.key) && sources@[i]@.key == k@,
            None => source_keys_distinct(source_views(sources@)),
        },
{
    let n = sources.len();
    let mut i: usize = 0;
    while i < n
        invariant
            i <= n,
            n == sources@.len(),
            forall|p: int, q: int|
                0 <= p < q < n && p < i ==> (#[trigger] sources@[p]@.key) != (
                #[trigger] sources@[q]@.key),
        decreases n - i,
    {
        let mut j: usize = i + 1;
        while j < n
            invariant
                i < j <= n,
                n == sources@.len(),
                forall|q: int| i < q < j ==> sources@[i as int]@.key != (#[trigger] sources@[q]@.key),
            decreases n - j,
        {
            if sources[i].key == sources[j].key {
                proof {
                    assert(sources@[i as int]@.key == sources@[j as int]@.key);
                }
                return Some(sources[i].key.clone());
            }
            j += 1;
        }
        i += 1;
    }
    proof {
        assert forall|p: int, q: int|
            0 <= p < q < source_views(sources@).len() implies (#[trigger] source_views(
            sources@,
        )[p].key) != (#[trigger] source_views(sources@)[q].key) by {
            assert(source_views(sources@)[p] == sources@[p]@);
            assert(source_views(sources@)[q] == sources@[q]@);
        }
    }
    None
}

fn find_dup_enc_name(encs: &Vec<SourceEncoding>) -> (r: Option<String>)
    ensures
        match r {
            Some(k) => exists|i: int, j: int|
                0 <= i < j < encs@.len() && (#[trigger] encs@[i]@.name) == (
                #[trigger] encs@[j]@.name) && encs@[i]@.name == k@,
            None => source_enc_names_distinct(src_enc_views(encs@)),
        },
{
    let n = encs.len();
    let mut i: usize = 0;
    while i < n
        invariant
            i <= n,
            n == encs@.len(),
            forall|p: int, q: int|
                0 <= p < q < n && p < i ==> (#[trigger] encs@[p]@.name) != (
                #[trigger] encs@[q]@.name),
        decreases n - i,
    {
        let mut j: usize = i + 1;
        while j < n
            invariant
                i < j <= n,
                n == encs@.len(),
                forall|q: int| i < q < j ==> encs@[i as int]@.name != (#[trigger] encs@[q]@.name),
            decreases n - j,
        {
            if encs[i].name == encs[j].name {
                proof {
                    assert(encs@[i as int]@.name == encs@[j as int]@.name);
                }
                return Some(encs[i].name.clone());
            }
            j += 1;
        }
        i += 1;
    }
    proof {
        assert forall|p: int, q: int|
            0 <= p < q < src_enc_views(encs@).len() implies (#[trigger] src_enc_views(
            encs@,
        )[p].name) != (#[trigger] src_enc_views(encs@)[q].name) by {
            assert(src_enc_views(encs@)[p] == encs@[p]@);
            assert(src_enc_views(encs@)[q] == encs@[q]@);
        }
    }
    None
}

fn hash_encodings(encs: &Vec<SourceEncoding>) -> (r: Vec<Encoding>)
    ensures
        r@.len() == encs@.len(),
        forall|k: int|
            0 <= k < encs@.len() ==> {
                &&& (#[trigger] r@[k]@).name == encs@[k]@.name
                &&& r@[k]@.content == encs@[k]@.content
                &&& r@[k]@.hash == sha256_of(encs@[k]@.content)
            },
{
    let mut r: Vec<Encoding> = Vec::new();
    let mut i: usize = 0;
    while i < encs.len()
        invariant
            i <= encs@.len(),
            r@.len() == i,
            forall|k: int|
                0 <= k < i ==> {
                    &&& (#[trigger] r@[k]@).name == encs@[k]@.name
                    &&& r@[k]@.content == encs@[k]@.content
                    &&& r@[k]@.hash == sha256_of(encs@[k]@.content)
                },
        decreases encs.len() - i,
    {
        let hash = sha256(encs[i].content.as_slice());
        r.push(
            Encoding {
                name: encs[i].name.clone(),
                content: clone_bytes(&encs[i].content),
                hash,
            },
        );
        i += 1;
    }
    r
}

/// Builds the ordered descriptor list for a sync run. Succeeds exactly when
/// no asset key and no per-asset encoding name collides; each descriptor
/// then carries its source's data with every content hash computed.
pub fn gather_asset_descriptors(sources: &Vec<AssetSource>) -> (r: Result<
    Vec<AssetDescriptor>,
    GatherAssetDescriptorsError,
>)
    ensures
        r is Ok <==> source_keys_distinct(source_views(sources@)) && (forall|i: int|
            0 <= i < sources@.len() ==> source_enc_names_distinct(
                (#[trigger] source_views(sources@)[i]).encodings,
            )),
        r matches Ok(d) ==> d@.len() == sources@.len() && (forall|i: int|
            0 <= i < sources@.len() ==> descriptor_matches(
                (#[trigger] d@[i]@),
                source_views(sources@)[i],
            )),
        r matches Err(GatherAssetDescriptorsError::DuplicateAssetKey { key }) ==> exists|
            i: int,
            j: int,
        |
            0 <= i < j < sources@.len() && (#[trigger] source_views(sources@)[i]).key == (
            #[trigger] source_views(sources@)[j]).key && source_views(sources@)[i].key == key@,
        r matches Err(GatherAssetDescriptorsError::DuplicateEncodingName { key, name }) ==> exists|
            i: int,
        |
            0 <= i < sources@.len() && (#[trigger] source_views(sources@)[i]).key == key@
                && !source_enc_names_distinct(source_views(sources@)[i].encodings),
{
    match find_dup_key(sources) {
        Some(key) => {
            proof {
                let (i, j) = choose|i: int, j: int|
                    0 <= i < j < sources@.len() && (#[trigger] sources@[i]@.key) == (
                    #[trigger] sources@[j]@.key) && sources@[i]@.key == key@;
                assert(source_views(sources@)[i] == sources@[i]@);
                assert(source_views(sources@)[j] == sources@[j]@);
                assert(source_views(sources@)[i].key == source_views(sources@)[j].key
                    && source_views(sources@)[i].key == key@);
                assert(!source_keys_distinct(source_views(sources@)));
            }
            return Err(GatherAssetDescriptorsError::DuplicateAssetKey { key });
        },
        None => {},
    }
    let mut out: Vec<AssetDescriptor> = Vec::new();
    let mut i: usize = 0;
    while i < sources.len()
        invariant
            i <= sources@.len(),
            out@.len() == i,
            forall|p: int|
                0 <= p < sources@.len() ==> (#[trigger] source_views(sources@)[p]) == sources@[p]@,
            forall|p: int| 0 <= p < i ==> source_enc_names_distinct(sources@[p]@.encodings),
            forall|p: int|
                0 <= p < i ==> descriptor_matches((#[trigger] out@[p]@), sources@[p]@),
        decreases sources.len() - i,
    {
        match find_dup_enc_name(&sources[i].encodings) {
            Some(name) => {
                proof {
                    assert(source_views(sources@)[i as int] == sources@[i as int]@);
                    let encs = sources@[i as int].encodings;
                    let (p, q) = choose|p: int, q: int|
                        0 <= p < q < encs@.len() && (#[trigger] encs@[p]@.name) == (
                        #[trigger] encs@[q]@.name) && encs@[p]@.name == name@;
                    assert(src_enc_views(encs@)[p] == encs@[p]@);
                    assert(src_enc_views(encs@)[q] == encs@[q]@);
                    assert(!source_enc_names_distinct(source_views(sources@)[i as int].encodings));
                }
                return Err(
                    GatherAssetDescriptorsError::DuplicateEncodingName {
                        key: sources[i].key.clone(),
                        name,
                    },
                );
            },
            None => {},
        }
        let encodings = hash_encodings(&sources[i].encodings);
        let d = AssetDescriptor {
            key: sources[i].key.clone(),
            encodings,
            properties: clone_properties(&sources[i].properties),
        };
        proof {
            assert(enc_views(d.encodings@).len() == sources@[i as int]@.encodings.len());
            assert(descriptor_matches(d@, sources@[i as int]@));
        }
        out.push(d);
        i += 1;
    }
    Ok(out)
}

} // verus!
