//! Strings read out of JSON and TOML documents, by the `serde_json` and
//! `toml` crates: names for what the lookups return, and the calls that make
//! them.

use vstd::prelude::*;

use crate::config::strs;
use crate::licenses::{opt_string, string_views};
use crate::text::owned;

verus! {

/// The string reached from the root of the JSON document `content` by
/// following `path`, one object key per step (`serde_json::from_str` into a
/// `Value`, `Value::get` per key, `Value::as_str`); `None` when the document
/// does not parse, a key is missing or the value reached is not a string.
pub uninterp spec fn json_string(content: Seq<char>, path: Seq<Seq<char>>) -> Option<Seq<char>>;

/// The string reached from the root table of the TOML document `content` by
/// following `path`, one key per step (`toml::from_str` into a `Table`,
/// `Value::get` per key, `Value::as_str`); `None` when the document does not
/// parse, a key is missing or the value reached is not a string.
pub uninterp spec fn toml_string(content: Seq<char>, path: Seq<Seq<char>>) -> Option<Seq<char>>;

/// The string `field` of the first item of the array reached from the root
/// of the JSON document `content` by following `path`, one object key per
/// step (`serde_json::from_str`, `Value::get` per key, then `Value::get`
/// with index 0 and with `field`, `Value::as_str`); `None` when the document
/// does not parse, a key or the item is missing or the value reached is not
/// a string.
pub uninterp spec fn json_first_item_string(content: Seq<char>, path: Seq<Seq<char>>, field: Seq<char>) -> Option<
    Seq<char>,
>;

/// The items of the array reached from the root table of the TOML document
/// `content` by following `path`, one key per step (`toml::from_str` into a
/// `Table`, `Value::get` per key, `Value::as_array`), each as its string
/// when it is one (`Value::as_str`); `None` when the document does not
/// parse, a key is missing or the value reached is not an array.
pub uninterp spec fn toml_string_items(content: Seq<char>, path: Seq<Seq<char>>) -> Option<Seq<Option<Seq<char>>>>;

/// The items of the array reached from the root of the JSON document
/// `content` by following `path`, one object key per step
/// (`serde_json::from_str`, `Value::get` per key, `Value::as_array`), each
/// as its string when it is one (`Value::as_str`); `None` when the document
/// does not parse, a key is missing or the value reached is not an array.
pub uninterp spec fn json_string_items(content: Seq<char>, path: Seq<Seq<char>>) -> Option<Seq<Option<Seq<char>>>>;

/// Whether following `path` from the root of the JSON document `content`,
/// one object key per step (`serde_json::from_str`, `Value::get` per key),
/// reaches a value; false when the document does not parse.
pub uninterp spec fn json_has(content: Seq<char>, path: Seq<Seq<char>>) -> bool;

/// The entries of the object reached from the root of the JSON document
/// `content` by following `path`, one object key per step
/// (`serde_json::from_str`, `Value::get` per key, `Value::as_object`), in
/// the order the object iterates them, each value as its string when it is
/// one (`Value::as_str`); `None` when the document does not parse, a key is
/// missing or the value reached is not an object.
pub uninterp spec fn json_string_entries(content: Seq<char>, path: Seq<Seq<char>>) -> Option<
    Seq<(Seq<char>, Option<Seq<char>>)>,
>;

/// Whether `content` parses as a TOML document (`toml::from_str` into a
/// `Table`).
pub uninterp spec fn toml_valid(content: Seq<char>) -> bool;

/// The items of the array reached from the root table of the TOML document
/// `content` by following `path`, one key per step (`toml::from_str` into a
/// `Table`, `Value::get` per key, `Value::as_array`), each as the strings of
/// its keys `a` and `b` when they are strings (`Value::get`, then
/// `Value::as_str`; an item that is no table has neither); `None` when the
/// document does not parse, a key is missing or the value reached is not an
/// array.
pub uninterp spec fn toml_item_fields(content: Seq<char>, path: Seq<Seq<char>>, a: Seq<char>, b: Seq<char>) -> Option<
    Seq<(Option<Seq<char>>, Option<Seq<char>>)>,
>;

/// The entries of the object reached from the root of the JSON document
/// `content` by following `path`, one object key per step
/// (`serde_json::from_str`, `Value::get` per key, `Value::as_object`), in the
/// order the object iterates them: each key, with the string of the key
/// `field` of its value when there is one (`Value::get`, `Value::as_str`);
/// `None` when the document does not parse, a key is missing or the value
/// reached is not an object.
pub uninterp spec fn json_field_entries(content: Seq<char>, path: Seq<Seq<char>>, field: Seq<char>) -> Option<
    Seq<(Seq<char>, Option<Seq<char>>)>,
>;

/// The string `field` of each item of the array reached from the root of
/// the JSON document `content` by following `path`, one object key per step
/// (`serde_json::from_str`, `Value::get` per key, `Value::as_array`, then
/// `Value::get` with `field` and `Value::as_str` on each item); `None` when
/// the document does not parse, a key is missing or the value reached is
/// not an array.
pub uninterp spec fn json_item_strings(content: Seq<char>, path: Seq<Seq<char>>, field: Seq<char>) -> Option<
    Seq<Option<Seq<char>>>,
>;

/// Each item of the array reached from the root of the JSON document
/// `content` by following `path`, one object key per step
/// (`serde_json::from_str`, `Value::get` per key, `Value::as_array`),
/// written back as JSON text (`Value::to_string`); `None` when the document
/// does not parse, a key is missing or the value reached is not an array.
pub uninterp spec fn json_item_texts(content: Seq<char>, path: Seq<Seq<char>>) -> Option<Seq<Seq<char>>>;

/// The entries of the object reached from the root of the JSON document
/// `content` by following `path`, one object key per step
/// (`serde_json::from_str`, `Value::get` per key, `Value::as_object`), in the
/// order the object iterates them: each key, with the strings of the keys
/// `a` and `b` of its value when they are strings (`Value::get`,
/// `Value::as_str`); `None` when the document does not parse, a key is
/// missing or the value reached is not an object.
pub uninterp spec fn json_entry_fields(content: Seq<char>, path: Seq<Seq<char>>, a: Seq<char>, b: Seq<char>) -> Option<
    Seq<(Seq<char>, Option<Seq<char>>, Option<Seq<char>>)>,
>;

/// The views of keys with two optional strings.
pub open spec fn entry_field_views(v: Seq<(String, Option<String>, Option<String>)>) -> Seq<
    (Seq<char>, Option<Seq<char>>, Option<Seq<char>>),
> {
    v.map_values(|e: (String, Option<String>, Option<String>)| (e.0@, opt_string(e.1), opt_string(e.2)))
}

/// Each item of the array reached from the root of the JSON document
/// `content` by following `path`, one object key per step
/// (`serde_json::from_str`, `Value::get` per key, `Value::as_array`): its
/// string when it is one (`Value::as_str`), whether it is an object
/// (`Value::is_object`), and the strings of its keys `a` and `b` when they
/// are strings (`Value::get`, `Value::as_str`); `None` when the document
/// does not parse, a key is missing or the value reached is not an array.
pub uninterp spec fn json_item_shapes(content: Seq<char>, path: Seq<Seq<char>>, a: Seq<char>, b: Seq<char>) -> Option<
    Seq<(Option<Seq<char>>, bool, Option<Seq<char>>, Option<Seq<char>>)>,
>;

/// The views of item shapes (see `json_item_shapes`).
pub open spec fn shape_views(v: Seq<(Option<String>, bool, Option<String>, Option<String>)>) -> Seq<
    (Option<Seq<char>>, bool, Option<Seq<char>>, Option<Seq<char>>),
> {
    v.map_values(
        |e: (Option<String>, bool, Option<String>, Option<String>)|
            (opt_string(e.0), e.1, opt_string(e.2), opt_string(e.3)),
    )
}

/// The views of pairs of optional strings.
pub open spec fn opt_pairs(v: Seq<(Option<String>, Option<String>)>) -> Seq<(Option<Seq<char>>, Option<Seq<char>>)> {
    v.map_values(|e: (Option<String>, Option<String>)| (opt_string(e.0), opt_string(e.1)))
}

/// The views of keys with optional strings.
pub open spec fn entry_strings(v: Seq<(String, Option<String>)>) -> Seq<(Seq<char>, Option<Seq<char>>)> {
    v.map_values(|e: (String, Option<String>)| (e.0@, opt_string(e.1)))
}

/// The views of optional strings.
pub open spec fn opt_strings(v: Seq<Option<String>>) -> Seq<Option<Seq<char>>> {
    v.map_values(|o: Option<String>| opt_string(o))
}

/// The strings among optional items, in order.
pub open spec fn present_strings(items: Seq<Option<Seq<char>>>) -> Seq<Seq<char>>
    decreases items.len(),
{
    if items.len() == 0 {
        seq![]
    } else {
        let rest = present_strings(items.drop_last());
        match items.last() {
            Some(x) => rest.push(x),
            None => rest,
        }
    }
}

/// The strings among optional items (see `present_strings`).
pub(crate) fn present_strings_exec(items: Vec<Option<String>>) -> (r: Vec<String>)
    ensures
        strs(r@) == present_strings(opt_strings(items@)),
{
    let mut out: Vec<String> = Vec::new();
    let mut i: usize = 0;
    while i < items.len()
        invariant
            i <= items@.len(),
            strs(out@) == present_strings(opt_strings(items@).take(i as int)),
        decreases items@.len() - i,
    {
        assert(opt_strings(items@).take(i + 1).drop_last() =~= opt_strings(items@).take(i as int));
        match &items[i] {
            Some(x) => {
                let ghost before = out@;
                out.push(owned(x.as_str()));
                assert(strs(out@) =~= strs(before).push(x@));
            },
            None => {},
        }
        i = i + 1;
    }
    assert(opt_strings(items@).take(items@.len() as int) =~= opt_strings(items@));
    out
}

/// Whether `content` parses as a JSON document (`serde_json::from_str`
/// into a `Value`).
pub uninterp spec fn json_valid(content: Seq<char>) -> bool;

/// Whether `content` parses as a JSON document (see `json_valid`).
#[verifier::external_body]
pub(crate) fn json_is_valid(content: &str) -> (r: bool)
    ensures
        r == json_valid(content@),
{
    serde_json::from_str::<serde_json::Value>(content).is_ok()
}

/// Looks up the string at `path` in a JSON document (see `json_string`).
#[verifier::external_body]
pub(crate) fn json_string_at(content: &str, path: &Vec<String>) -> (r: Option<String>)
    ensures
        opt_string(r) == json_string(content@, string_views(path@)),
{
    let doc = serde_json::from_str::<serde_json::Value>(content).ok()?;
    let mut v = &doc;
    for k in path.iter() {
        v = v.get(k.as_str())?;
    }
    v.as_str().map(|s| s.to_string())
}

/// Looks up the string `field` of the first item of the array at `path` in
/// a JSON document (see `json_first_item_string`).
#[verifier::external_body]
pub(crate) fn json_first_item_string_at(content: &str, path: &Vec<String>, field: &str) -> (r: Option<String>)
    ensures
        opt_string(r) == json_first_item_string(content@, string_views(path@), field@),
{
    let doc = serde_json::from_str::<serde_json::Value>(content).ok()?;
    let mut v = &doc;
    for k in path.iter() {
        v = v.get(k.as_str())?;
    }
    v.get(0)?.get(field)?.as_str().map(|s| s.to_string())
}

/// Looks up the string at `path` in a TOML document (see `toml_string`).
#[verifier::external_body]
pub(crate) fn toml_string_at(content: &str, path: &Vec<String>) -> (r: Option<String>)
    ensures
        opt_string(r) == toml_string(content@, string_views(path@)),
{
    let doc = toml::Value::Table(toml::from_str::<toml::Table>(content).ok()?);
    let mut v = &doc;
    for k in path.iter() {
        v = v.get(k.as_str())?;
    }
    v.as_str().map(|s| s.to_string())
}

/// The empty key path.
pub(crate) fn path0() -> (r: Vec<String>)
    ensures
        string_views(r@) == Seq::<Seq<char>>::empty(),
{
    let r: Vec<String> = Vec::new();
    assert(string_views(r@) =~= Seq::<Seq<char>>::empty());
    r
}

/// Looks up the items of the array at `path` in a TOML document (see
/// `toml_string_items`).
#[verifier::external_body]
pub(crate) fn toml_string_items_at(content: &str, path: &Vec<String>) -> (r: Option<Vec<Option<String>>>)
    ensures
        match r {
            Some(v) => toml_string_items(content@, string_views(path@)) == Some(opt_strings(v@)),
            None => toml_string_items(content@, string_views(path@)) is None,
        },
{
    let doc = toml::Value::Table(toml::from_str::<toml::Table>(content).ok()?);
    let mut v = &doc;
    for k in path.iter() {
        v = v.get(k.as_str())?;
    }
    Some(v.as_array()?.iter().map(|i| i.as_str().map(|s| s.to_string())).collect())
}

/// Looks up the items of the array at `path` in a JSON document (see
/// `json_string_items`).
#[verifier::external_body]
pub(crate) fn json_string_items_at(content: &str, path: &Vec<String>) -> (r: Option<Vec<Option<String>>>)
    ensures
        match r {
            Some(v) => json_string_items(content@, string_views(path@)) == Some(opt_strings(v@)),
            None => json_string_items(content@, string_views(path@)) is None,
        },
{
    let doc = serde_json::from_str::<serde_json::Value>(content).ok()?;
    let mut v = &doc;
    for k in path.iter() {
        v = v.get(k.as_str())?;
    }
    Some(v.as_array()?.iter().map(|i| i.as_str().map(|s| s.to_string())).collect())
}

/// Whether `path` leads to a value in a JSON document (see `json_has`).
#[verifier::external_body]
pub(crate) fn json_has_at(content: &str, path: &Vec<String>) -> (r: bool)
    ensures
        r == json_has(content@, string_views(path@)),
{
    let doc = match serde_json::from_str::<serde_json::Value>(content) {
        Ok(doc) => doc,
        Err(_) => return false,
    };
    let mut v = &doc;
    for k in path.iter() {
        match v.get(k.as_str()) {
            Some(next) => v = next,
            None => return false,
        }
    }
    true
}

/// Lists the entries of the object at `path` in a JSON document (see
/// `json_string_entries`).
#[verifier::external_body]
pub(crate) fn json_string_entries_at(content: &str, path: &Vec<String>) -> (r: Option<Vec<(String, Option<String>)>>)
    ensures
        match r {
            Some(v) => json_string_entries(content@, string_views(path@)) == Some(entry_strings(v@)),
            None => json_string_entries(content@, string_views(path@)) is None,
        },
{
    let doc = serde_json::from_str::<serde_json::Value>(content).ok()?;
    let mut v = &doc;
    for k in path.iter() {
        v = v.get(k.as_str())?;
    }
    Some(v.as_object()?.iter().map(|(k, x)| (k.clone(), x.as_str().map(|s| s.to_string()))).collect())
}

/// Whether `content` parses as a TOML document (see `toml_valid`).
#[verifier::external_body]
pub(crate) fn toml_is_valid(content: &str) -> (r: bool)
    ensures
        r == toml_valid(content@),
{
    toml::from_str::<toml::Table>(content).is_ok()
}

/// Looks up two keys of each item of the array at `path` in a TOML
/// document (see `toml_item_fields`).
#[verifier::external_body]
pub(crate) fn toml_item_fields_at(content: &str, path: &Vec<String>, a: &str, b: &str) -> (r: Option<
    Vec<(Option<String>, Option<String>)>,
>)
    ensures
        match r {
            Some(v) => toml_item_fields(content@, string_views(path@), a@, b@) == Some(opt_pairs(v@)),
            None => toml_item_fields(content@, string_views(path@), a@, b@) is None,
        },
{
    let doc = toml::Value::Table(toml::from_str::<toml::Table>(content).ok()?);
    let mut v = &doc;
    for k in path.iter() {
        v = v.get(k.as_str())?;
    }
    let text = |x: &toml::Value, key: &str| x.get(key).and_then(|s| s.as_str()).map(|s| s.to_string());
    Some(v.as_array()?.iter().map(|x| (text(x, a), text(x, b))).collect())
}

/// Looks up one key of each value of the object at `path` in a JSON
/// document (see `json_field_entries`).
#[verifier::external_body]
pub(crate) fn json_field_entries_at(content: &str, path: &Vec<String>, field: &str) -> (r: Option<
    Vec<(String, Option<String>)>,
>)
    ensures
        match r {
            Some(v) => json_field_entries(content@, string_views(path@), field@) == Some(entry_strings(v@)),
            None => json_field_entries(content@, string_views(path@), field@) is None,
        },
{
    let doc = serde_json::from_str::<serde_json::Value>(content).ok()?;
    let mut v = &doc;
    for k in path.iter() {
        v = v.get(k.as_str())?;
    }
    let text = |x: &serde_json::Value| x.get(field).and_then(|s| s.as_str()).map(|s| s.to_string());
    Some(v.as_object()?.iter().map(|(k, x)| (k.clone(), text(x))).collect())
}

/// Looks up the string `field` of each item of the array at `path` in a
/// JSON document (see `json_item_strings`).
#[verifier::external_body]
pub(crate) fn json_item_strings_at(content: &str, path: &Vec<String>, field: &str) -> (r: Option<Vec<Option<String>>>)
    ensures
        match r {
            Some(v) => json_item_strings(content@, string_views(path@), field@) == Some(opt_strings(v@)),
            None => json_item_strings(content@, string_views(path@), field@) is None,
        },
{
    let doc = serde_json::from_str::<serde_json::Value>(content).ok()?;
    let mut v = &doc;
    for k in path.iter() {
        v = v.get(k.as_str())?;
    }
    Some(v.as_array()?.iter().map(|x| x.get(field).and_then(|s| s.as_str()).map(|s| s.to_string())).collect())
}

/// Writes out each item of the array at `path` in a JSON document as JSON
/// text (see `json_item_texts`).
#[verifier::external_body]
pub(crate) fn json_item_texts_at(content: &str, path: &Vec<String>) -> (r: Option<Vec<String>>)
    ensures
        match r {
            Some(v) => json_item_texts(content@, string_views(path@)) == Some(strs(v@)),
            None => json_item_texts(content@, string_views(path@)) is None,
        },
{
    let doc = serde_json::from_str::<serde_json::Value>(content).ok()?;
    let mut v = &doc;
    for k in path.iter() {
        v = v.get(k.as_str())?;
    }
    Some(v.as_array()?.iter().map(|x| x.to_string()).collect())
}

/// Looks up two keys of each value of the object at `path` in a JSON
/// document (see `json_entry_fields`).
#[verifier::external_body]
pub(crate) fn json_entry_fields_at(content: &str, path: &Vec<String>, a: &str, b: &str) -> (r: Option<
    Vec<(String, Option<String>, Option<String>)>,
>)
    ensures
        match r {
            Some(v) => json_entry_fields(content@, string_views(path@), a@, b@) == Some(entry_field_views(v@)),
            None => json_entry_fields(content@, string_views(path@), a@, b@) is None,
        },
{
    let doc = serde_json::from_str::<serde_json::Value>(content).ok()?;
    let mut v = &doc;
    for k in path.iter() {
        v = v.get(k.as_str())?;
    }
    let text = |x: &serde_json::Value, key: &str| x.get(key).and_then(|s| s.as_str()).map(|s| s.to_string());
    Some(v.as_object()?.iter().map(|(k, x)| (k.clone(), text(x, a), text(x, b))).collect())
}

/// Describes each item of the array at `path` in a JSON document (see
/// `json_item_shapes`).
#[verifier::external_body]
pub(crate) fn json_item_shapes_at(content: &str, path: &Vec<String>, a: &str, b: &str) -> (r: Option<
    Vec<(Option<String>, bool, Option<String>, Option<String>)>,
>)
    ensures
        match r {
            Some(v) => json_item_shapes(content@, string_views(path@), a@, b@) == Some(shape_views(v@)),
            None => json_item_shapes(content@, string_views(path@), a@, b@) is None,
        },
{
    let doc = serde_json::from_str::<serde_json::Value>(content).ok()?;
    let mut v = &doc;
    for k in path.iter() {
        v = v.get(k.as_str())?;
    }
    let text = |x: &serde_json::Value| x.as_str().map(|s| s.to_string());
    Some(v.as_array()?.iter().map(|x| (text(x), x.is_object(), x.get(a).and_then(text), x.get(b).and_then(text))).collect())
}

/// A key path of one key.
pub(crate) fn path1(a: &str) -> (r: Vec<String>)
    ensures
        string_views(r@) == seq![a@],
{
    let mut r: Vec<String> = Vec::new();
    r.push(crate::text::owned(a));
    assert(r@.len() == 1 && r@[0]@ == a@);
    assert(string_views(r@) =~= seq![a@]);
    r
}

/// A key path of two keys.
pub(crate) fn path2(a: &str, b: &str) -> (r: Vec<String>)
    ensures
        string_views(r@) == seq![a@, b@],
{
    let mut r: Vec<String> = Vec::new();
    r.push(crate::text::owned(a));
    r.push(crate::text::owned(b));
    assert(r@.len() == 2 && r@[0]@ == a@ && r@[1]@ == b@);
    assert(string_views(r@) =~= seq![a@, b@]);
    r
}

/// A key path of three keys.
pub(crate) fn path3(a: &str, b: &str, c: &str) -> (r: Vec<String>)
    ensures
        string_views(r@) == seq![a@, b@, c@],
{
    let mut r: Vec<String> = Vec::new();
    r.push(crate::text::owned(a));
    r.push(crate::text::owned(b));
    r.push(crate::text::owned(c));
    assert(r@.len() == 3 && r@[0]@ == a@ && r@[1]@ == b@ && r@[2]@ == c@);
    assert(string_views(r@) =~= seq![a@, b@, c@]);
    r
}

} // verus!
