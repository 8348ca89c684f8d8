//! The OpenAPI document of a service: default path items for its routes,
//! merged with the fragments that other parts of the application contribute.

use vstd::prelude::*;
use vstd::string::*;
use crate::json::{JsonValue, JsonView, entries_view, object_of, set_value_at_path, spec_set_path, merge_value, spec_merge};
use crate::config::layered;
use crate::text::{lowercase, to_lowercase, strip_leading, strip_trailing, trim_char};

verus! {

/// `s` with every `from` replaced by `to`.
pub open spec fn replace_char(s: Seq<char>, from: char, to: char) -> Seq<char> {
    s.map_values(|c: char| if c == from { to } else { c })
}

/// Replaces every `from` in `s` by `to`.
pub fn replace_char_exec(s: &str, from: char, to: char) -> (r: String)
    ensures
        r@ == replace_char(s@, from, to),
{
    let n = s.unicode_len();
    let mut out = String::new();
    let mut i: usize = 0;
    while i < n
        invariant
            n == s@.len(),
            i <= n,
            out@ == replace_char(s@.take(i as int), from, to),
        decreases n - i,
    {
        let c = s.get_char(i);
        let d = if c == from { to } else { c };
        let mut one = String::new();
        crate::text::push_char(&mut one, d);
        let ghost before = out@;
        out = out.concat(one.as_str());
        assert(replace_char(s@.take(i + 1), from, to) =~= replace_char(s@.take(i as int), from, to).push(d));
        i = i + 1;
    }
    assert(s@.take(n as int) =~= s@);
    out
}

/// The operation id of a route: the lower-cased method, an underscore, and
/// the path with slashes turned into underscores and outer underscores
/// trimmed.
pub open spec fn operation_id(method: Seq<char>, path: Seq<char>) -> Seq<char> {
    let p = replace_char(path, '/', '_');
    lowercase(method) + "_"@ + strip_trailing(strip_leading(p, seq!['_']), seq!['_'])
}

/// The default operation of a route.
pub open spec fn operation_view(id: Seq<char>) -> JsonView {
    JsonView::Object(
        seq![
            ("operationId"@, JsonView::Str(id)),
            ("responses"@, JsonView::Object(seq![("200"@, JsonView::Object(seq![("description"@, JsonView::Str("Successful response"@))]))])),
        ],
    )
}

/// The path items of `routes` (path and method, in order), starting from
/// `paths`: each route sets its lower-cased method under its path.
pub open spec fn route_paths(paths: JsonView, routes: Seq<(Seq<char>, Seq<char>)>) -> JsonView
    decreases routes.len(),
{
    if routes.len() == 0 {
        paths
    } else {
        let (path, method) = routes.last();
        spec_set_path(
            route_paths(paths, routes.drop_last()),
            seq![path, lowercase(method)],
            operation_view(operation_id(method, path)),
        )
    }
}

/// The document before fragments are merged in.
pub open spec fn document_skeleton(service_name: Seq<char>, paths: JsonView) -> JsonView {
    JsonView::Object(
        seq![
            ("openapi"@, JsonView::Str("3.1.0"@)),
            ("info"@, JsonView::Object(seq![("title"@, JsonView::Str(service_name + " API"@)), ("version"@, JsonView::Str("0.1.0"@))])),
            ("paths"@, paths),
        ],
    )
}

fn pair(k: &str, v: JsonValue) -> (r: (String, JsonValue))
    ensures
        r.0@ == k@,
        r.1 == v,
{
    (String::from_str(k), v)
}

/// The default operation of a route with method `method` on `path`.
pub fn default_operation(method: &str, path: &str) -> (r: JsonValue)
    ensures
        r@ == operation_view(operation_id(method@, path@)),
{
    let lower = to_lowercase(method);
    let replaced = replace_char_exec(path, '/', '_');
    let trimmed = trim_char(replaced.as_str(), '_');
    let id = lower.concat("_").concat(trimmed.as_str());
    let ghost idv = id@;
    assert(idv == operation_id(method@, path@));
    let mut desc: Vec<(String, JsonValue)> = Vec::new();
    desc.push(pair("description", JsonValue::String(String::from_str("Successful response"))));
    assert(entries_view(desc@) =~= seq![("description"@, JsonView::Str("Successful response"@))]);
    let desc_v = object_of(desc);
    let mut ok: Vec<(String, JsonValue)> = Vec::new();
    ok.push(pair("200", desc_v));
    assert(entries_view(ok@) =~= seq![("200"@, JsonView::Object(seq![("description"@, JsonView::Str("Successful response"@))]))]);
    let ok_v = object_of(ok);
    let mut op: Vec<(String, JsonValue)> = Vec::new();
    op.push(pair("operationId", JsonValue::String(id)));
    op.push(pair("responses", ok_v));
    assert(entries_view(op@) =~= operation_view(idv)->Object_0);
    object_of(op)
}

/// The path items for `routes` (path and method pairs, in order): each
/// route adds its default operation under its path and lower-cased method.
pub fn default_paths_from_routes(routes: &Vec<(String, String)>) -> (r: JsonValue)
    ensures
        r@ == route_paths(JsonView::Object(Seq::empty()), routes@.map_values(|p: (String, String)| (p.0@, p.1@))),
{
    let ghost rv = routes@.map_values(|p: (String, String)| (p.0@, p.1@));
    let mut paths = object_of(Vec::new());
    assert(entries_view(Seq::<(String, JsonValue)>::empty()) =~= Seq::<(Seq<char>, JsonView)>::empty());
    let mut i: usize = 0;
    while i < routes.len()
        invariant
            i <= routes@.len(),
            rv == routes@.map_values(|p: (String, String)| (p.0@, p.1@)),
            paths@ == route_paths(JsonView::Object(Seq::empty()), rv.take(i as int)),
        decreases routes.len() - i,
    {
        let path = &routes[i].0;
        let method = &routes[i].1;
        let op = default_operation(method.as_str(), path.as_str());
        let mut keys: Vec<String> = Vec::new();
        keys.push(path.clone());
        keys.push(to_lowercase(method.as_str()));
        set_value_at_path(&mut paths, keys.as_slice(), op);
        proof {
            assert(rv.take(i + 1).drop_last() =~= rv.take(i as int));
            assert(rv.take(i + 1).last() == (path@, method@));
            assert(crate::json::path_view(keys@) =~= seq![path@, lowercase(method@)]);
        }
        i = i + 1;
    }
    assert(rv.take(i as int) =~= rv);
    paths
}

/// The OpenAPI document of `service_name`: version 3.1.0, the title
/// `<service> API`, the given path items, and then each fragment merged in,
/// in order.
pub fn build_openapi_document(service_name: &str, paths: JsonValue, fragments: Vec<JsonValue>) -> (r: JsonValue)
    ensures
        r@ == layered(document_skeleton(service_name@, paths@), fragments@.map_values(|x: JsonValue| x@)),
{
    let mut info: Vec<(String, JsonValue)> = Vec::new();
    info.push(pair("title", JsonValue::String(String::from_str(service_name).concat(" API"))));
    info.push(pair("version", JsonValue::String(String::from_str("0.1.0"))));
    assert(entries_view(info@) =~= seq![("title"@, JsonView::Str(service_name@ + " API"@)), ("version"@, JsonView::Str("0.1.0"@))]);
    let info_v = object_of(info);
    let mut top: Vec<(String, JsonValue)> = Vec::new();
    top.push(pair("openapi", JsonValue::String(String::from_str("3.1.0"))));
    top.push(pair("info", info_v));
    let ghost pv = paths@;
    top.push(pair("paths", paths));
    assert(entries_view(top@) =~= document_skeleton(service_name@, pv)->Object_0);
    let mut doc = object_of(top);
    let ghost all = fragments@;
    let ghost views = all.map_values(|x: JsonValue| x@);
    let mut rest = fragments;
    let n = rest.len();
    let mut i: usize = 0;
    assert(views.skip(0) =~= views);
    while i < n
        invariant
            n == all.len(),
            i <= n,
            rest@ == all.subrange(i as int, n as int),
            views == all.map_values(|x: JsonValue| x@),
            layered(document_skeleton(service_name@, pv), views) == layered(doc@, views.skip(i as int)),
        decreases n - i,
    {
        let f = rest.remove(0);
        assert(all[i as int] == f);
        assert(views.skip(i as int)[0] == f@);
        assert(views.skip(i as int).drop_first() =~= views.skip(i + 1));
        merge_value(&mut doc, f);
        i = i + 1;
        assert(rest@ =~= all.subrange(i as int, n as int));
    }
    assert(views.skip(n as int) =~= Seq::<JsonView>::empty());
    doc
}

} // verus!
