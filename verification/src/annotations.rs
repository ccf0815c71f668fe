//! Annotation layers of project assets: where a layer is stored, which
//! assets may carry one, and how saved points merge into a layer.
use vstd::prelude::*;
use crate::text::{chars_of, has_prefix, push_str, starts_with, string_of};
use crate::crypto::{hex_encode, hex_lower, sha256_of_utf8, sha256_text};

verus! {

/// The file of an annotation layer below the output's `annotations`
/// directory: the hex SHA-256 of `<asset>|<layer>`, with `.json`.
pub open spec fn spec_annotation_file_name(asset_path: Seq<char>, layer: Seq<char>) -> Seq<char> {
    hex_lower(sha256_of_utf8(asset_path + seq!['|'] + layer)) + ".json"@
}

pub fn annotation_file_name(asset_path: &str, layer: &str) -> (r: String)
    ensures
        r@ == spec_annotation_file_name(asset_path@, layer@),
{
    let mut key: Vec<char> = Vec::new();
    push_str(&mut key, asset_path);
    key.push('|');
    push_str(&mut key, layer);
    assert(key@ =~= asset_path@ + seq!['|'] + layer@);
    let k = string_of(key.as_slice());
    let digest = sha256_text(k.as_str());
    let hex = hex_encode(digest.as_slice());
    let mut name: Vec<char> = chars_of(hex.as_str());
    push_str(&mut name, ".json");
    string_of(name.as_slice())
}

/// Which annotation layer of an asset is read.
#[derive(Debug, Clone, PartialEq, Eq)]
pub struct AnnotationQuery {
    pub asset_path: String,
    pub layer: Option<String>,
}

/// The layer of a request: the given one, else `default`.
pub fn layer_name(layer: &Option<String>) -> (r: String)
    ensures
        r@ == (match layer { Some(l) => l@, None => "default"@ }),
{
    match layer {
        Some(l) => l.clone(),
        None => "default".to_string(),
    }
}

/// Only assets below `output/` or `processed/` carry annotations.
pub fn check_annotation_asset(asset_path: &str) -> (r: Result<(), &'static str>)
    ensures
        (starts_with(asset_path@, "output/"@) || starts_with(asset_path@, "processed/"@)) ==> r is Ok,
        !(starts_with(asset_path@, "output/"@) || starts_with(asset_path@, "processed/"@))
            ==> (r matches Err(e) && e@ == "asset_path must begin with output/ or processed/"@),
{
    let v = chars_of(asset_path);
    let out = chars_of("output/");
    let processed = chars_of("processed/");
    if has_prefix(v.as_slice(), out.as_slice()) || has_prefix(v.as_slice(), processed.as_slice()) {
        Ok(())
    } else {
        Err("asset_path must begin with output/ or processed/")
    }
}

/// The id, creation time and author of a saved point: the given fresh id,
/// the save time and the saving user stand in for what the point lacks.
pub fn point_defaults_with(
    id: Option<String>,
    created_at: Option<i64>,
    author: Option<String>,
    saving_user: Option<String>,
    now: i64,
    fresh_id: String,
) -> (r: (String, i64, Option<String>))
    ensures
        r.0 == (match id { Some(i) => i, None => fresh_id }),
        r.1 == (match created_at { Some(c) => c, None => now }),
        r.2 == (match author { Some(a) => Some(a), None => saving_user }),
{
    (
        match id { Some(i) => i, None => fresh_id },
        match created_at { Some(c) => c, None => now },
        match author { Some(a) => Some(a), None => saving_user },
    )
}

/// The id, creation time and author of a saved point: a new random id (a
/// version 4 UUID), the save time and the saving user stand in for what the
/// point lacks.
pub fn point_defaults(
    id: Option<String>,
    created_at: Option<i64>,
    author: Option<String>,
    saving_user: Option<String>,
    now: i64,
) -> (r: (String, i64, Option<String>))
    ensures
        match id { Some(i) => r.0 == i, None => crate::crypto::is_uuid_v4_text(r.0@) },
        r.1 == (match created_at { Some(c) => c, None => now }),
        r.2 == (match author { Some(a) => Some(a), None => saving_user }),
{
    match id {
        Some(i) => point_defaults_with(Some(i), created_at, author, saving_user, now, String::new()),
        None => point_defaults_with(None, created_at, author, saving_user, now, crate::crypto::random_uuid()),
    }
}

/// A layer keeps its creation time; a layer without one is created now.
pub fn layer_created_at(existing: i64, now: i64) -> (r: i64)
    ensures
        r == (if existing == 0 { now } else { existing }),
{
    if existing == 0 { now } else { existing }
}

/// Entry `i` is the last one with its id: it is the one that is kept.
pub open spec fn is_last_of_id(entries: Seq<(String, i64)>, i: int) -> bool {
    0 <= i < entries.len() && forall|j: int| i < j < entries.len() ==> (#[trigger] entries[j]).0@ != entries[i].0@
}

/// The merged layer in terms of `entries`, the stored points followed by the
/// saved ones (id and creation time each): the indices of the points kept,
/// one per id (the last given), in order of creation time.
pub open spec fn is_merge_order(entries: Seq<(String, i64)>, r: Seq<usize>) -> bool {
    &&& forall|k: int| 0 <= k < r.len() ==> is_last_of_id(entries, #[trigger] r[k] as int)
    &&& forall|i: int| is_last_of_id(entries, i) ==> exists|k: int| 0 <= k < r.len() && r[k] == i
    &&& forall|a: int, b: int| 0 <= a < b < r.len() ==> r[a] != r[b]
    &&& forall|a: int, b: int| 0 <= a <= b < r.len() ==> entries[r[a] as int].1 <= entries[r[b] as int].1
}

fn kept_last(entries: &Vec<(String, i64)>, i: usize) -> (b: bool)
    requires
        i < entries@.len(),
    ensures
        b == is_last_of_id(entries@, i as int),
{
    let id = chars_of(entries[i].0.as_str());
    let n = entries.len();
    let mut j: usize = i;
    while j < n
        invariant
            i <= j <= n,
            n == entries@.len(),
            id@ == entries@[i as int].0@,
            forall|k: int| i < k < j ==> (#[trigger] entries@[k]).0@ != entries@[i as int].0@,
        decreases n - j,
    {
        if j > i {
            let other = chars_of(entries[j].0.as_str());
            if crate::text::chars_eq(other.as_slice(), id.as_slice()) {
                return false;
            }
        }
        j = j + 1;
    }
    true
}

/// The merge order stays right when entry `i` is inserted at `p`, after
/// every kept entry that is no newer.
proof fn lemma_merge_insert(entries: Seq<(String, i64)>, before: Seq<usize>, p: int, i: int)
    requires
        0 <= p <= before.len(),
        i <= usize::MAX,
        is_last_of_id(entries, i),
        forall|k: int| 0 <= k < before.len() ==> is_last_of_id(entries, #[trigger] before[k] as int) && before[k] < i,
        forall|t: int| 0 <= t < i && is_last_of_id(entries, t) ==> exists|k: int| 0 <= k < before.len() && before[k] == t,
        forall|a: int, b: int| 0 <= a < b < before.len() ==> before[a] != before[b],
        forall|a: int, b: int| 0 <= a <= b < before.len() ==> entries[before[a] as int].1 <= entries[before[b] as int].1,
        forall|k: int| 0 <= k < p ==> entries[(#[trigger] before[k]) as int].1 <= entries[i].1,
        p < before.len() ==> entries[before[p] as int].1 > entries[i].1,
    ensures
        ({
            let out = before.insert(p, i as usize);
            &&& forall|k: int| 0 <= k < out.len() ==> is_last_of_id(entries, #[trigger] out[k] as int) && out[k] < i + 1
            &&& forall|t: int| 0 <= t < i + 1 && is_last_of_id(entries, t) ==> exists|k: int| 0 <= k < out.len() && out[k] == t
            &&& forall|a: int, b: int| 0 <= a < b < out.len() ==> out[a] != out[b]
            &&& forall|a: int, b: int| 0 <= a <= b < out.len() ==> entries[out[a] as int].1 <= entries[out[b] as int].1
        }),
{
    let out = before.insert(p, i as usize);
    assert(out[p] as int == i);
    assert forall|k: int| 0 <= k < out.len() implies is_last_of_id(entries, #[trigger] out[k] as int) && out[k] < i + 1 by {
        if k < p { assert(out[k] == before[k]); } else if k > p { assert(out[k] == before[k - 1]); }
    }
    assert forall|t: int| 0 <= t < i + 1 && is_last_of_id(entries, t) implies exists|k: int| 0 <= k < out.len() && out[k] == t by {
        if t < i {
            let k = choose|k: int| 0 <= k < before.len() && before[k] == t;
            if k < p { assert(out[k] == t); } else { assert(out[k + 1] == t); }
        } else {
            assert(out[p] == t);
        }
    }
    assert forall|a: int, b: int| 0 <= a < b < out.len() implies out[a] != out[b] by {
        if a == p {
            assert(out[b] == before[b - 1]);
        } else if b == p {
            assert(out[a] == before[a]);
        } else {
            let a0 = if a < p { a } else { a - 1 };
            let b0 = if b < p { b } else { b - 1 };
            assert(out[a] == before[a0]);
            assert(out[b] == before[b0]);
        }
    }
    assert forall|a: int, b: int| 0 <= a <= b < out.len() implies entries[out[a] as int].1 <= entries[out[b] as int].1 by {
        if a == b {
        } else if a == p {
            assert(out[b] == before[b - 1]);
            if p < before.len() {
                assert(entries[before[p] as int].1 <= entries[before[b - 1] as int].1);
            }
        } else if b == p {
            assert(out[a] == before[a]);
        } else {
            let a0 = if a < p { a } else { a - 1 };
            let b0 = if b < p { b } else { b - 1 };
            assert(out[a] == before[a0]);
            assert(out[b] == before[b0]);
        }
    }
}

/// Orders the points of a merged layer (see `is_merge_order`); points of
/// equal creation time keep the order they were given in.
pub fn merge_annotation_order(entries: &Vec<(String, i64)>) -> (r: Vec<usize>)
    ensures
        is_merge_order(entries@, r@),
{
    let mut out: Vec<usize> = Vec::new();
    let mut i: usize = 0;
    while i < entries.len()
        invariant
            i <= entries@.len(),
            forall|k: int| 0 <= k < out@.len() ==> is_last_of_id(entries@, #[trigger] out@[k] as int) && out@[k] < i,
            forall|t: int| 0 <= t < i && is_last_of_id(entries@, t) ==> exists|k: int| 0 <= k < out@.len() && out@[k] == t,
            forall|a: int, b: int| 0 <= a < b < out@.len() ==> out@[a] != out@[b],
            forall|a: int, b: int| 0 <= a <= b < out@.len() ==> entries@[out@[a] as int].1 <= entries@[out@[b] as int].1,
        decreases entries@.len() - i,
    {
        if kept_last(entries, i) {
            let key = entries[i].1;
            let mut p: usize = 0;
            while p < out.len() && entries[out[p]].1 <= key
                invariant
                    p <= out@.len(),
                    forall|k: int| 0 <= k < out@.len() ==> (#[trigger] out@[k]) < entries@.len(),
                    forall|k: int| 0 <= k < p ==> entries@[(#[trigger] out@[k]) as int].1 <= key,
                decreases out@.len() - p,
            {
                p = p + 1;
            }
            let ghost before = out@;
            out.insert(p, i);
            proof { lemma_merge_insert(entries@, before, p as int, i as int); }
        }
        i = i + 1;
    }
    out
}

} // verus!
