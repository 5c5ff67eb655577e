use vstd::prelude::*;
use crate::bundle::{BundleObject, BundleView};
use crate::lex::views;

verus! {

/// `serde_json::Value`: a JSON value. Nothing is known of what one holds but what
/// the functions below say.
#[verifier::external_type_specification]
#[verifier::external_body]
pub struct ExValue(serde_json::Value);

/// `serde_json::Error`: why a text was refused or a value could not be written.
#[verifier::external_type_specification]
#[verifier::external_body]
pub struct ExJsonError(serde_json::Error);

/// The value that a JSON text holds, as `serde_json::from_slice` reads it; `None`
/// where it refuses the bytes.
pub uninterp spec fn json_of(bytes: Seq<u8>) -> Option<serde_json::Value>;

/// The member of a JSON object under a key, as `serde_json::Value::get` finds it;
/// `None` where the value is no object or has no such member.
pub uninterp spec fn json_member(v: serde_json::Value, key: Seq<char>) -> Option<
    serde_json::Value,
>;

/// The items of a JSON array, as `serde_json::Value::as_array` gives them; `None`
/// where the value is no array.
pub uninterp spec fn json_items(v: serde_json::Value) -> Option<Seq<serde_json::Value>>;

/// The text of a JSON string, as `serde_json::Value::as_str` gives it; `None` where
/// the value is no string.
pub uninterp spec fn json_string(v: serde_json::Value) -> Option<Seq<char>>;

/// The compact JSON text of a value, as `serde_json::to_string` writes it; `None`
/// where it fails.
pub uninterp spec fn json_text(v: serde_json::Value) -> Option<Seq<char>>;

/// `serde_json::from_slice`, asked for a `Value`: the result is what the bytes hold
/// as JSON, an error where they are no JSON text.
#[verifier::external_body]
fn parse(bytes: &[u8]) -> (r: Result<serde_json::Value, serde_json::Error>)
    ensures
        match r {
            Ok(v) => json_of(bytes@) == Some(v),
            Err(_) => json_of(bytes@) is None,
        },
{
    serde_json::from_slice(bytes)
}

/// `serde_json::Value::get` with a key: the result is the member of the object
/// under the key.
#[verifier::external_body]
fn member<'a>(v: &'a serde_json::Value, key: &str) -> (r: Option<&'a serde_json::Value>)
    ensures
        match r {
            Some(m) => json_member(*v, key@) == Some(*m),
            None => json_member(*v, key@) is None,
        },
{
    v.get(key)
}

/// `serde_json::Value::as_array`: the result is the vector of the array's items.
#[verifier::external_body]
fn items<'a>(v: &'a serde_json::Value) -> (r: Option<&'a Vec<serde_json::Value>>)
    ensures
        match r {
            Some(list) => json_items(*v) == Some(list@),
            None => json_items(*v) is None,
        },
{
    v.as_array()
}

/// `serde_json::Value::as_str`: the result is the text of the string.
#[verifier::external_body]
fn string<'a>(v: &'a serde_json::Value) -> (r: Option<&'a str>)
    ensures
        match r {
            Some(s) => json_string(*v) == Some(s@),
            None => json_string(*v) is None,
        },
{
    v.as_str()
}

/// `serde_json::to_string` of a `Value`: the result is the compact JSON text of
/// the value.
#[verifier::external_body]
fn text(v: &serde_json::Value) -> (r: Result<String, serde_json::Error>)
    ensures
        match r {
            Ok(s) => json_text(*v) == Some(s@),
            Err(_) => json_text(*v) is None,
        },
{
    serde_json::to_string(v)
}

/// The text of the member under a key, where there is one and it is a string.
pub open spec fn string_at(v: serde_json::Value, key: Seq<char>) -> Option<Seq<char>> {
    match json_member(v, key) {
        Some(m) => json_string(m),
        None => None,
    }
}

/// What `get` gives of every item, where it gives something of each; else `None`.
pub open spec fn all_of<A, B>(list: Seq<A>, get: spec_fn(A) -> Option<B>) -> Option<Seq<B>> {
    if forall|i: int| 0 <= i < list.len() ==> get(#[trigger] list[i]) is Some {
        Some(list.map_values(|a: A| get(a)->0))
    } else {
        None
    }
}

/// The items of the member under a key, where there is one and it is an array.
pub open spec fn items_at(v: serde_json::Value, key: Seq<char>) -> Option<Seq<serde_json::Value>> {
    match json_member(v, key) {
        Some(m) => json_items(m),
        None => None,
    }
}

/// The names listed under a key: the member is an array of strings.
pub open spec fn names_at(v: serde_json::Value, key: Seq<char>) -> Option<Seq<Seq<char>>> {
    match items_at(v, key) {
        Some(list) => all_of(list, |item: serde_json::Value| json_string(item)),
        None => None,
    }
}

/// The phase names listed under `kill_chain_phases`: the member is an array of
/// objects that each name their phase.
pub open spec fn phase_names(v: serde_json::Value) -> Option<Seq<Seq<char>>> {
    match items_at(v, "kill_chain_phases"@) {
        Some(list) => all_of(list, |item: serde_json::Value| string_at(item, "phase_name"@)),
        None => None,
    }
}

/// The external identifier: that of the first of the external references.
pub open spec fn first_external_id(v: serde_json::Value) -> Option<Seq<char>> {
    match items_at(v, "external_references"@) {
        Some(list) => if list.len() > 0 {
            string_at(list[0], "external_id"@)
        } else {
            None
        },
        None => None,
    }
}

/// What ingestion reads of one object of a bundle; `None` where it has no type.
pub open spec fn object_of(v: serde_json::Value) -> Option<BundleView> {
    match (string_at(v, "type"@), json_text(v)) {
        (Some(kind), Some(serialized)) => Some(
            BundleView {
                kind: kind,
                serialized: serialized,
                external_id: first_external_id(v),
                name: string_at(v, "name"@),
                kill_chain_phases: phase_names(v),
                platforms: names_at(v, "x_mitre_platforms"@),
                data_sources: names_at(v, "x_mitre_data_sources"@),
            },
        ),
        _ => None,
    }
}

/// The objects of a bundle document: those listed under `objects`; `None` where the
/// bytes are no JSON text, list no objects, or list one without a type.
pub open spec fn bundle_of(bytes: Seq<u8>) -> Option<Seq<BundleView>> {
    match json_of(bytes) {
        Some(root) => match items_at(root, "objects"@) {
            Some(list) => all_of(list, |item: serde_json::Value| object_of(item)),
            None => None,
        },
        None => None,
    }
}

/// The text of the member under a key, where there is one and it is a string.
fn text_at(v: &serde_json::Value, key: &str) -> (r: Option<String>)
    ensures
        crate::bundle::named(r) == string_at(*v, key@),
{
    match member(v, key) {
        Some(m) => match string(m) {
            Some(s) => Some(s.to_owned()),
            None => None,
        },
        None => None,
    }
}

/// The items of the member under a key, where there is one and it is an array.
fn list_at<'a>(v: &'a serde_json::Value, key: &str) -> (r: Option<&'a Vec<serde_json::Value>>)
    ensures
        match r {
            Some(list) => items_at(*v, key@) == Some(list@),
            None => items_at(*v, key@) is None,
        },
{
    match member(v, key) {
        Some(m) => items(m),
        None => None,
    }
}

/// The texts of a list of values: all must be strings, or, where `key` is given,
/// objects that hold a string under it.
fn texts_of(list: &Vec<serde_json::Value>, key: Option<&str>) -> (r: Option<Vec<String>>)
    ensures
        crate::bundle::listed(r) == match key {
            Some(k) => all_of(list@, |item: serde_json::Value| string_at(item, k@)),
            None => all_of(list@, |item: serde_json::Value| json_string(item)),
        },
{
    let ghost get = match key {
        Some(k) => |item: serde_json::Value| string_at(item, k@),
        None => |item: serde_json::Value| json_string(item),
    };
    let ghost want = list@.map_values(|a: serde_json::Value| get(a)->0);
    let mut out: Vec<String> = Vec::new();
    let mut i: usize = 0;
    while i < list.len()
        invariant
            i <= list.len(),
            get == match key {
                Some(k) => |item: serde_json::Value| string_at(item, k@),
                None => |item: serde_json::Value| json_string(item),
            },
            want == list@.map_values(|a: serde_json::Value| get(a)->0),
            forall|j: int| 0 <= j < i ==> get(#[trigger] list@[j]) is Some,
            views(out@) == want.take(i as int),
        decreases list.len() - i,
    {
        let ghost before = views(out@);
        let found = match key {
            Some(k) => text_at(&list[i], k),
            None => match string(&list[i]) {
                Some(s) => Some(s.to_owned()),
                None => None,
            },
        };
        assert(crate::bundle::named(found) == get(list@[i as int]));
        match found {
            Some(s) => {
                out.push(s);
                assert(views(out@) =~= before.push(want[i as int]));
            },
            None => {
                return None;
            },
        }
        i = i + 1;
        assert(views(out@) =~= want.take(i as int));
    }
    assert(want.take(i as int) =~= want);
    Some(out)
}

/// What ingestion reads of one object of a bundle.
fn object_from(v: &serde_json::Value) -> (r: Option<BundleObject>)
    ensures
        match r {
            Some(o) => object_of(*v) == Some(o@),
            None => object_of(*v) is None,
        },
{
    let kind = match text_at(v, "type") {
        Some(kind) => kind,
        None => {
            return None;
        },
    };
    let serialized = match text(v) {
        Ok(s) => s,
        Err(_) => {
            return None;
        },
    };
    let external_id = match list_at(v, "external_references") {
        Some(list) => if list.len() > 0 {
            text_at(&list[0], "external_id")
        } else {
            None
        },
        None => None,
    };
    let kill_chain_phases = match list_at(v, "kill_chain_phases") {
        Some(list) => texts_of(list, Some("phase_name")),
        None => None,
    };
    let platforms = match list_at(v, "x_mitre_platforms") {
        Some(list) => texts_of(list, None),
        None => None,
    };
    let data_sources = match list_at(v, "x_mitre_data_sources") {
        Some(list) => texts_of(list, None),
        None => None,
    };
    Some(
        BundleObject {
            kind: kind,
            serialized: serialized,
            external_id: external_id,
            name: text_at(v, "name"),
            kill_chain_phases: kill_chain_phases,
            platforms: platforms,
            data_sources: data_sources,
        },
    )
}

/// Reads the objects of a bundle document. Gives `None` where the bytes are no JSON
/// text, list no objects, or list an object without a type.
pub fn bundle_from_json(bytes: &[u8]) -> (r: Option<Vec<BundleObject>>)
    ensures
        match r {
            Some(objects) => bundle_of(bytes@) == Some(views(objects@)),
            None => bundle_of(bytes@) is None,
        },
{
    let root = match parse(bytes) {
        Ok(root) => root,
        Err(_) => {
            return None;
        },
    };
    let list = match list_at(&root, "objects") {
        Some(list) => list,
        None => {
            return None;
        },
    };
    let ghost get = |item: serde_json::Value| object_of(item);
    let ghost want = list@.map_values(|a: serde_json::Value| get(a)->0);
    let mut out: Vec<BundleObject> = Vec::new();
    let mut i: usize = 0;
    assert(bundle_of(bytes@) == all_of(list@, get));
    while i < list.len()
        invariant
            i <= list.len(),
            get == |item: serde_json::Value| object_of(item),
            bundle_of(bytes@) == all_of(list@, get),
            want == list@.map_values(|a: serde_json::Value| get(a)->0),
            forall|j: int| 0 <= j < i ==> get(#[trigger] list@[j]) is Some,
            views(out@) == want.take(i as int),
        decreases list.len() - i,
    {
        let ghost before = views(out@);
        match object_from(&list[i]) {
            Some(o) => {
                out.push(o);
                assert(views(out@) =~= before.push(want[i as int]));
            },
            None => {
                assert(get(list@[i as int]) is None);
                return None;
            },
        }
        i = i + 1;
        assert(views(out@) =~= want.take(i as int));
    }
    assert(want.take(i as int) =~= want);
    Some(out)
}

} // verus!
