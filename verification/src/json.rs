//! A JSON value model used by configuration layering and the event stores.
//!
//! Objects are association lists with distinct keys; the order of entries
//! carries no meaning for the framework (it is kept as given: an updated key
//! stays in place, a new key goes last).

use vstd::prelude::*;
use vstd::string::*;

verus! {

/// A JSON value.
#[derive(Debug)]
pub enum JsonValue {
    Null,
    Bool(bool),
    /// A number, as its JSON text.
    Number(String),
    String(String),
    Array(Vec<JsonValue>),
    Object(Vec<(String, JsonValue)>),
}

/// Abstract JSON value.
pub enum JsonView {
    Null,
    Bool(bool),
    Number(Seq<char>),
    Str(Seq<char>),
    Array(Seq<JsonView>),
    Object(Seq<(Seq<char>, JsonView)>),
}

impl JsonValue {
    /// The abstract value.
    pub open spec fn view(&self) -> JsonView
        decreases self,
    {
        match self {
            JsonValue::Null => JsonView::Null,
            JsonValue::Bool(b) => JsonView::Bool(*b),
            JsonValue::Number(n) => JsonView::Number(n@),
            JsonValue::String(s) => JsonView::Str(s@),
            JsonValue::Array(items) => JsonView::Array(
                Seq::new(
                    items@.len(),
                    |i: int| if 0 <= i < items@.len() { items@[i].view() } else { JsonView::Null },
                ),
            ),
            JsonValue::Object(entries) => JsonView::Object(
                Seq::new(
                    entries@.len(),
                    |i: int|
                        if 0 <= i < entries@.len() {
                            (entries@[i].0@, entries@[i].1.view())
                        } else {
                            (Seq::empty(), JsonView::Null)
                        },
                ),
            ),
        }
    }
}

/// The abstract entries of an object.
pub open spec fn entries_view(e: Seq<(String, JsonValue)>) -> Seq<(Seq<char>, JsonView)> {
    Seq::new(e.len(), |i: int| (e[i].0@, e[i].1@))
}

/// Index of the first entry with key `k`, or -1 when there is none.
pub open spec fn key_index(entries: Seq<(Seq<char>, JsonView)>, k: Seq<char>) -> int
    decreases entries.len(),
{
    if entries.len() == 0 {
        -1
    } else if entries[0].0 == k {
        0
    } else {
        let r = key_index(entries.drop_first(), k);
        if r < 0 { -1 } else { r + 1 }
    }
}

/// `entries` with key `k` bound to `v`: the first entry with that key gets
/// the new value, otherwise the binding goes last.
pub open spec fn set_entry(entries: Seq<(Seq<char>, JsonView)>, k: Seq<char>, v: JsonView) -> Seq<
    (Seq<char>, JsonView),
> {
    let i = key_index(entries, k);
    if i < 0 { entries.push((k, v)) } else { entries.update(i, (k, v)) }
}

/// Recursive merge of `overlay` into `base`: two objects merge key by key
/// (a key of both merges its values, a key of the overlay only is added);
/// in every other case the overlay replaces the base.
pub open spec fn spec_merge(base: JsonView, overlay: JsonView) -> JsonView
    decreases overlay, 0nat,
{
    match (base, overlay) {
        (JsonView::Object(b), JsonView::Object(o)) => JsonView::Object(merge_entries_from(b, o, 0)),
        _ => overlay,
    }
}

/// The entries `b` after merging the overlay entries `o[i..]`, in order.
pub open spec fn merge_entries_from(b: Seq<(Seq<char>, JsonView)>, o: Seq<(Seq<char>, JsonView)>, i: nat) -> Seq<
    (Seq<char>, JsonView),
>
    decreases o, o.len() - i,
{
    if i >= o.len() {
        b
    } else {
        let k = o[i as int].0;
        let j = key_index(b, k);
        let b2 = if j < 0 {
            b.push(o[i as int])
        } else {
            b.update(j, (b[j].0, spec_merge(b[j].1, o[i as int].1)))
        };
        merge_entries_from(b2, o, i + 1)
    }
}

/// The view of an object is the view of its entries.
pub proof fn lemma_object_view(e: Vec<(String, JsonValue)>)
    ensures
        JsonValue::Object(e)@ == JsonView::Object(entries_view(e@)),
{
    let v = JsonValue::Object(e)@;
    let s = v->Object_0;
    assert(s.len() == e@.len());
    assert forall|i: int| 0 <= i < s.len() implies s[i] == entries_view(e@)[i] by {}
    assert(s =~= entries_view(e@));
}

/// An object with the given entries.
pub fn object_of(entries: Vec<(String, JsonValue)>) -> (r: JsonValue)
    ensures
        r@ == JsonView::Object(entries_view(entries@)),
{
    proof {
        lemma_object_view(entries);
    }
    JsonValue::Object(entries)
}

/// The view of an array is the view of its items.
pub proof fn lemma_array_view(a: Vec<JsonValue>)
    ensures
        JsonValue::Array(a)@ == JsonView::Array(a@.map_values(|x: JsonValue| x@)),
{
    let v = JsonValue::Array(a)@;
    let s = v->Array_0;
    assert(s.len() == a@.len());
    assert forall|i: int| 0 <= i < s.len() implies s[i] == a@.map_values(|x: JsonValue| x@)[i] by {}
    assert(s =~= a@.map_values(|x: JsonValue| x@));
}

/// Index of the first entry whose key is `key`.
fn find_key(entries: &Vec<(String, JsonValue)>, key: &String) -> (r: Option<usize>)
    ensures
        key_index(entries_view(entries@), key@) < 0 ==> r is None,
        key_index(entries_view(entries@), key@) >= 0 ==> r == Some(
            key_index(entries_view(entries@), key@) as usize,
        ),
{
    let ghost ev = entries_view(entries@);
    let mut i: usize = 0;
    while i < entries.len()
        invariant
            i <= entries@.len(),
            ev == entries_view(entries@),
            forall|j: int| 0 <= j < i ==> ev[j].0 != key@,
        decreases entries.len() - i,
    {
        if entries[i].0 == *key {
            proof {
                lemma_key_index_first(ev, key@, i as int);
            }
            return Some(i);
        }
        i = i + 1;
    }
    proof {
        lemma_key_index_absent(ev, key@);
    }
    None
}

proof fn lemma_key_index_first(e: Seq<(Seq<char>, JsonView)>, k: Seq<char>, i: int)
    requires
        0 <= i < e.len(),
        e[i].0 == k,
        forall|j: int| 0 <= j < i ==> e[j].0 != k,
    ensures
        key_index(e, k) == i,
    decreases i,
{
    if i > 0 {
        lemma_key_index_first(e.drop_first(), k, i - 1);
    }
}

/// No entry has a key that `key_index` does not find.
pub proof fn lemma_key_index_absent(e: Seq<(Seq<char>, JsonView)>, k: Seq<char>)
    requires
        forall|j: int| 0 <= j < e.len() ==> e[j].0 != k,
    ensures
        key_index(e, k) < 0,
    decreases e.len(),
{
    if e.len() > 0 {
        lemma_key_index_absent(e.drop_first(), k);
    }
}

/// Where `key_index` points: an entry with the key, or nowhere.
pub proof fn lemma_key_index_bound(e: Seq<(Seq<char>, JsonView)>, k: Seq<char>)
    ensures
        key_index(e, k) < e.len(),
        key_index(e, k) >= 0 ==> e[key_index(e, k)].0 == k,
    decreases e.len(),
{
    if e.len() > 0 {
        lemma_key_index_bound(e.drop_first(), k);
    }
}

/// Merge `overlay` into `base`, recursively for objects; otherwise the
/// overlay replaces the base.
pub fn merge_value(base: &mut JsonValue, overlay: JsonValue)
    ensures
        final(base)@ == spec_merge(old(base)@, overlay@),
    decreases overlay,
{
    let ghost ov = overlay@;
    let ghost bv = base@;
    match overlay {
        JsonValue::Object(overlay_entries) => {
            let is_object = match base {
                JsonValue::Object(_) => true,
                _ => false,
            };
            if !is_object {
                *base = JsonValue::Object(overlay_entries);
                return;
            }
            let mut taken = JsonValue::Null;
            std::mem::swap(&mut taken, base);
            let mut entries: Vec<(String, JsonValue)> = match taken {
                JsonValue::Object(e) => e,
                _ => Vec::new(),
            };
            proof {
                lemma_object_view(entries);
                lemma_object_view(overlay_entries);
            }
            let ghost b0 = entries_view(entries@);
            let ghost o = entries_view(overlay_entries@);
            let mut rest = overlay_entries;
            let ghost all = rest@;
            let mut i: usize = 0;
            let n = rest.len();
            while i < n
                invariant
                    n == all.len(),
                    i <= n,
                    rest@ == all.subrange(i as int, n as int),
                    o == entries_view(all),
                    merge_entries_from(entries_view(entries@), o, i as nat) == merge_entries_from(b0, o, 0),
                    decreases_to!(overlay => all),
                decreases n - i,
            {
                let (k, v) = rest.remove(0);
                assert(all[i as int] == (k, v));
                let ghost ev = entries_view(entries@);
                assert(o[i as int] == (k@, v@));
                match find_key(&entries, &k) {
                    Some(j) => {
                        proof {
                            lemma_key_index_bound(ev, k@);
                        }
                        let (key_j, mut val_j) = entries.remove(j);
                        assert(decreases_to!(overlay => v)) by {
                            assert(decreases_to!(all => all[i as int]));
                        };
                        merge_value(&mut val_j, v);
                        entries.insert(j, (key_j, val_j));
                        assert(entries_view(entries@) =~= ev.update(j as int, (ev[j as int].0, spec_merge(ev[j as int].1, o[i as int].1))));
                    },
                    None => {
                        entries.push((k, v));
                        assert(entries_view(entries@) =~= ev.push(o[i as int]));
                    },
                }
                assert(merge_entries_from(ev, o, i as nat) == merge_entries_from(
                    entries_view(entries@),
                    o,
                    (i + 1) as nat,
                ));
                i = i + 1;
                assert(rest@ =~= all.subrange(i as int, n as int));
            }
            proof {
                lemma_object_view(entries);
            }
            *base = JsonValue::Object(entries);
        },
        other => {
            *base = other;
        },
    }
}

/// The characters of each path segment.
pub open spec fn path_view(path: Seq<String>) -> Seq<Seq<char>> {
    path.map_values(|s: String| s@)
}

/// `root` with `value` stored under the nested keys of `path`: each segment
/// but the last selects (or creates) an object, a value that is not an
/// object is replaced by an empty object on the way, and the last segment is
/// bound to `value`. An empty path replaces `root` itself.
pub open spec fn spec_set_path(root: JsonView, path: Seq<Seq<char>>, value: JsonView) -> JsonView
    decreases path.len(),
{
    if path.len() == 0 {
        value
    } else {
        let entries = match root {
            JsonView::Object(e) => e,
            _ => Seq::empty(),
        };
        let head = path[0];
        let tail = path.drop_first();
        if tail.len() == 0 {
            JsonView::Object(set_entry(entries, head, value))
        } else {
            let i = key_index(entries, head);
            let child = if i < 0 { JsonView::Object(Seq::empty()) } else { entries[i].1 };
            JsonView::Object(set_entry(entries, head, spec_set_path(child, tail, value)))
        }
    }
}

fn take_object_entries(root: &mut JsonValue) -> (r: Vec<(String, JsonValue)>)
    ensures
        entries_view(r@) == (match old(root)@ {
            JsonView::Object(e) => e,
            _ => Seq::empty(),
        }),
{
    let mut taken = JsonValue::Null;
    std::mem::swap(&mut taken, root);
    match taken {
        JsonValue::Object(e) => {
            proof {
                lemma_object_view(e);
            }
            e
        },
        _ => {
            let e: Vec<(String, JsonValue)> = Vec::new();
            assert(entries_view(e@) =~= Seq::<(Seq<char>, JsonView)>::empty());
            e
        },
    }
}

fn set_from(root: &mut JsonValue, path: &[String], start: usize, value: JsonValue)
    requires
        start <= path@.len(),
    ensures
        final(root)@ == spec_set_path(old(root)@, path_view(path@).skip(start as int), value@),
    decreases path@.len() - start,
{
    let ghost pv = path_view(path@).skip(start as int);
    if start == path.len() {
        *root = value;
        return;
    }
    let head = path[start].clone();
    assert(pv[0] == head@);
    assert(pv.drop_first() =~= path_view(path@).skip(start + 1));
    let mut entries = take_object_entries(root);
    let len = entries.len();
    let ghost ev = entries_view(entries@);
    proof {
        lemma_key_index_bound(ev, head@);
    }
    if start + 1 == path.len() {
        let ghost vv = value@;
        match find_key(&entries, &head) {
            Some(j) => {
                entries.remove(j);
                entries.insert(j, (head, value));
                assert(entries_view(entries@) =~= ev.update(j as int, (pv[0], vv)));
            },
            None => {
                entries.push((head, value));
                assert(entries_view(entries@) =~= ev.push((pv[0], vv)));
            },
        }
    } else {
        match find_key(&entries, &head) {
            Some(j) => {
                assert(ev[j as int].0 == head@);
                assert(ev[j as int].0 == entries@[j as int].0@);
                let (key_j, mut child) = entries.remove(j);
                assert(key_j@ == pv[0]);
                assert(child@ == ev[j as int].1);
                set_from(&mut child, path, start + 1, value);
                let ghost cv = child@;
                entries.insert(j, (key_j, child));
                assert(entries_view(entries@) =~= ev.update(j as int, (pv[0], cv)));
            },
            None => {
                let empty: Vec<(String, JsonValue)> = Vec::new();
                proof {
                    lemma_object_view(empty);
                    assert(entries_view(empty@) =~= Seq::<(Seq<char>, JsonView)>::empty());
                }
                let mut child = JsonValue::Object(empty);
                set_from(&mut child, path, start + 1, value);
                let ghost cv = child@;
                entries.push((head, child));
                assert(entries_view(entries@) =~= ev.push((pv[0], cv)));
            },
        }
    }
    proof {
        lemma_object_view(entries);
    }
    *root = JsonValue::Object(entries);
}

/// Store `value` in `root` under the nested keys of `path`.
pub fn set_value_at_path(root: &mut JsonValue, path: &[String], value: JsonValue)
    ensures
        final(root)@ == spec_set_path(old(root)@, path_view(path@), value@),
{
    assert(path_view(path@).skip(0) =~= path_view(path@));
    set_from(root, path, 0, value);
}

/// The value bound to key `k` (its first binding), if any.
pub open spec fn get_key(e: Seq<(Seq<char>, JsonView)>, k: Seq<char>) -> Option<JsonView> {
    let i = key_index(e, k);
    if i < 0 { None } else { Some(e[i].1) }
}

/// The value found by following the keys of `path` from `v`.
pub open spec fn get_path(v: JsonView, path: Seq<Seq<char>>) -> Option<JsonView>
    decreases path.len(),
{
    if path.len() == 0 {
        Some(v)
    } else {
        match v {
            JsonView::Object(e) => match get_key(e, path[0]) {
                Some(c) => get_path(c, path.drop_first()),
                None => None,
            },
            _ => None,
        }
    }
}

/// The keys of an object are distinct.
pub open spec fn distinct_keys(e: Seq<(Seq<char>, JsonView)>) -> bool {
    forall|i: int, j: int| 0 <= i < j < e.len() ==> e[i].0 != e[j].0
}

proof fn lemma_key_index_same_keys(a: Seq<(Seq<char>, JsonView)>, b: Seq<(Seq<char>, JsonView)>, k: Seq<char>)
    requires
        a.len() == b.len(),
        forall|i: int| 0 <= i < a.len() ==> a[i].0 == b[i].0,
    ensures
        key_index(a, k) == key_index(b, k),
    decreases a.len(),
{
    if a.len() > 0 {
        lemma_key_index_same_keys(a.drop_first(), b.drop_first(), k);
    }
}

proof fn lemma_key_index_push(e: Seq<(Seq<char>, JsonView)>, x: (Seq<char>, JsonView), k: Seq<char>)
    ensures
        key_index(e, k) >= 0 ==> key_index(e.push(x), k) == key_index(e, k),
        key_index(e, k) < 0 && x.0 == k ==> key_index(e.push(x), k) == e.len(),
        key_index(e, k) < 0 && x.0 != k ==> key_index(e.push(x), k) < 0,
    decreases e.len(),
{
    if e.len() > 0 {
        assert(e.push(x).drop_first() =~= e.drop_first().push(x));
        lemma_key_index_push(e.drop_first(), x, k);
    } else {
        assert(e.push(x).drop_first() =~= Seq::<(Seq<char>, JsonView)>::empty());
        assert(key_index(Seq::<(Seq<char>, JsonView)>::empty(), k) == -1);
    }
}

/// Binding a key and then reading it gives the bound value; other keys
/// read as before.
pub proof fn lemma_get_set_entry(e: Seq<(Seq<char>, JsonView)>, k: Seq<char>, v: JsonView, k2: Seq<char>)
    ensures
        get_key(set_entry(e, k, v), k) == Some(v),
        k2 != k ==> get_key(set_entry(e, k, v), k2) == get_key(e, k2),
{
    lemma_key_index_bound(e, k);
    lemma_key_index_bound(e, k2);
    let i = key_index(e, k);
    if i < 0 {
        lemma_key_index_push(e, (k, v), k);
        lemma_key_index_push(e, (k, v), k2);
    } else {
        lemma_key_index_same_keys(e.update(i, (k, v)), e, k);
        lemma_key_index_same_keys(e.update(i, (k, v)), e, k2);
    }
}

/// Storing a value under a path and then following the path finds it.
pub proof fn law_set_then_get_path(root: JsonView, path: Seq<Seq<char>>, value: JsonView)
    ensures
        get_path(spec_set_path(root, path, value), path) == Some(value),
    decreases path.len(),
{
    if path.len() > 0 {
        let entries = match root {
            JsonView::Object(e) => e,
            _ => Seq::empty(),
        };
        let head = path[0];
        let tail = path.drop_first();
        if tail.len() == 0 {
            lemma_get_set_entry(entries, head, value, head);
            assert(get_path(value, tail) == Some(value));
        } else {
            lemma_key_index_bound(entries, head);
            let i = key_index(entries, head);
            let child = if i < 0 { JsonView::Object(Seq::empty()) } else { entries[i].1 };
            let sub = spec_set_path(child, tail, value);
            lemma_get_set_entry(entries, head, sub, head);
            law_set_then_get_path(child, tail, value);
            let whole = spec_set_path(root, path, value);
            assert(whole == JsonView::Object(set_entry(entries, head, sub)));
            assert(get_key(set_entry(entries, head, sub), head) == Some(sub));
            assert(get_path(whole, path) == get_path(sub, tail));
        }
    }
}

/// Neither path is a prefix of the other: they part at some position.
pub open spec fn paths_diverge(a: Seq<Seq<char>>, b: Seq<Seq<char>>) -> bool
    decreases a.len(),
{
    a.len() > 0 && b.len() > 0 && (a[0] != b[0] || paths_diverge(a.drop_first(), b.drop_first()))
}

/// Setting a path leaves everything off that path as it was: following
/// any path that parts from it (neither is a prefix of the other) finds
/// what it found before. Siblings of every object along the path, and
/// what lies under them, are kept.
pub proof fn law_set_path_keeps_other_paths(
    root: JsonView,
    path: Seq<Seq<char>>,
    value: JsonView,
    other: Seq<Seq<char>>,
)
    requires
        paths_diverge(path, other),
    ensures
        get_path(spec_set_path(root, path, value), other) == get_path(root, other),
    decreases path.len(),
{
    let entries = match root {
        JsonView::Object(e) => e,
        _ => Seq::empty(),
    };
    let head = path[0];
    let tail = path.drop_first();
    lemma_key_index_bound(entries, head);
    let i = key_index(entries, head);
    let child = if i < 0 { JsonView::Object(Seq::empty()) } else { entries[i].1 };
    let new_value = if tail.len() == 0 { value } else { spec_set_path(child, tail, value) };
    let whole = spec_set_path(root, path, value);
    assert(whole == JsonView::Object(set_entry(entries, head, new_value)));
    lemma_get_set_entry(entries, head, new_value, other[0]);
    if other[0] != head {
        assert(get_key(set_entry(entries, head, new_value), other[0]) == get_key(entries, other[0]));
        match root {
            JsonView::Object(e) => {},
            _ => {
                assert(get_key(entries, other[0]) is None);
            },
        }
    } else {
        assert(paths_diverge(tail, other.drop_first()));
        assert(tail.len() > 0);
        law_set_path_keeps_other_paths(child, tail, value, other.drop_first());
        assert(get_path(whole, other) == get_path(new_value, other.drop_first()));
        match root {
            JsonView::Object(e) => {
                if i < 0 {
                    assert(get_key(e, head) is None);
                    assert(get_key(Seq::<(Seq<char>, JsonView)>::empty(), other.drop_first()[0]) is None);
                } else {
                    assert(get_key(e, head) == Some(child));
                }
            },
            _ => {
                assert(get_key(Seq::<(Seq<char>, JsonView)>::empty(), other.drop_first()[0]) is None);
            },
        }
    }
}

/// The value that key `k` ends up with when the overlay entries `o[i..]`
/// are merged into `b`.
pub open spec fn merged_binding(b: Seq<(Seq<char>, JsonView)>, o: Seq<(Seq<char>, JsonView)>, i: int, k: Seq<char>) -> Option<
    JsonView,
> {
    let j = key_index(o.skip(i), k);
    if j < 0 {
        get_key(b, k)
    } else {
        match get_key(b, k) {
            Some(bv) => Some(spec_merge(bv, o[i + j].1)),
            None => Some(o[i + j].1),
        }
    }
}

proof fn lemma_merge_entries_binding(b: Seq<(Seq<char>, JsonView)>, o: Seq<(Seq<char>, JsonView)>, i: nat, k: Seq<char>)
    requires
        distinct_keys(o),
        i <= o.len(),
    ensures
        get_key(merge_entries_from(b, o, i), k) == merged_binding(b, o, i as int, k),
    decreases o.len() - i,
{
    if i >= o.len() {
        assert(o.skip(i as int) =~= Seq::<(Seq<char>, JsonView)>::empty());
    } else {
        let ki = o[i as int].0;
        let j = key_index(b, ki);
        lemma_key_index_bound(b, ki);
        let b2 = if j < 0 {
            b.push(o[i as int])
        } else {
            b.update(j, (b[j].0, spec_merge(b[j].1, o[i as int].1)))
        };
        lemma_merge_entries_binding(b2, o, i + 1, k);
        let t = o.skip(i as int);
        assert(t.drop_first() =~= o.skip((i + 1) as int));
        if ki == k {
            assert(key_index(t, k) == 0);
            // No later overlay entry has the key.
            let later = o.skip((i + 1) as int);
            assert forall|m: int| 0 <= m < later.len() implies (#[trigger] later[m]).0 != k by {
                assert(o.skip((i + 1) as int)[m] == o[i + 1 + m]);
            }
            lemma_key_index_absent(o.skip((i + 1) as int), k);
            if j < 0 {
                lemma_get_set_entry(b, k, o[i as int].1, k);
            } else {
                lemma_get_set_entry(b, k, spec_merge(b[j].1, o[i as int].1), k);
            }
        } else {
            lemma_key_index_bound(t.drop_first(), k);
            if j < 0 {
                lemma_get_set_entry(b, ki, o[i as int].1, k);
            } else {
                lemma_get_set_entry(b, ki, spec_merge(b[j].1, o[i as int].1), k);
            }
        }
    }
}

/// Merging one object into another: a key of the overlay takes the
/// overlay's value, merged with the base's value when the base has the key
/// too; a key of the base only keeps its value.
pub proof fn law_merge_object_bindings(b: Seq<(Seq<char>, JsonView)>, o: Seq<(Seq<char>, JsonView)>, k: Seq<char>)
    requires
        distinct_keys(o),
    ensures
        ({
            let merged = spec_merge(JsonView::Object(b), JsonView::Object(o))->Object_0;
            &&& get_key(o, k) is None ==> get_key(merged, k) == get_key(b, k)
            &&& get_key(o, k) matches Some(ov) ==> get_key(merged, k) == (match get_key(b, k) {
                Some(bv) => Some(spec_merge(bv, ov)),
                None => Some(ov),
            })
        }),
{
    lemma_merge_entries_binding(b, o, 0, k);
    assert(o.skip(0) =~= o);
}

/// A value that is not an object replaces whatever it is merged over.
pub proof fn law_merge_scalar_overlay_wins(base: JsonView, overlay: JsonView)
    requires
        !(overlay is Object),
    ensures
        spec_merge(base, overlay) == overlay,
{
}

impl JsonValue {
    /// A copy of the value.
    pub fn duplicate(&self) -> (r: JsonValue)
        ensures
            r@ == self@,
        decreases self,
    {
        match self {
            JsonValue::Null => JsonValue::Null,
            JsonValue::Bool(b) => JsonValue::Bool(*b),
            JsonValue::Number(n) => JsonValue::Number(n.clone()),
            JsonValue::String(t) => JsonValue::String(t.clone()),
            JsonValue::Array(items) => {
                let mut out: Vec<JsonValue> = Vec::new();
                let mut i: usize = 0;
                while i < items.len()
                    invariant
                        i <= items@.len(),
                        out@.len() == i,
                        *self == JsonValue::Array(*items),
                        forall|j: int| 0 <= j < i ==> (#[trigger] out@[j])@ == items@[j]@,
                    decreases items.len() - i,
                {
                    assert(decreases_to!(self => items@[i as int])) by {
                        assert(decreases_to!(*self => (*self)->Array_0));
                        assert(decreases_to!(*items => items@));
                        assert(decreases_to!(items@ => items@[i as int]));
                    };
                    let x = items[i].duplicate();
                    out.push(x);
                    i = i + 1;
                }
                proof {
                    lemma_array_view(out);
                    lemma_array_view(*items);
                    assert(out@.map_values(|x: JsonValue| x@) =~= items@.map_values(|x: JsonValue| x@));
                }
                JsonValue::Array(out)
            },
            JsonValue::Object(entries) => {
                let mut out: Vec<(String, JsonValue)> = Vec::new();
                let mut i: usize = 0;
                while i < entries.len()
                    invariant
                        i <= entries@.len(),
                        out@.len() == i,
                        *self == JsonValue::Object(*entries),
                        forall|j: int| 0 <= j < i ==> (#[trigger] out@[j]).0@ == entries@[j].0@ && out@[j].1@
                            == entries@[j].1@,
                    decreases entries.len() - i,
                {
                    assert(decreases_to!(self => entries@[i as int].1)) by {
                        assert(decreases_to!(*self => (*self)->Object_0));
                        assert(decreases_to!(*entries => entries@));
                        assert(decreases_to!(entries@ => entries@[i as int]));
                        assert(decreases_to!(entries@[i as int] => entries@[i as int].1));
                    };
                    let v = entries[i].1.duplicate();
                    out.push((entries[i].0.clone(), v));
                    i = i + 1;
                }
                proof {
                    lemma_object_view(out);
                    lemma_object_view(*entries);
                    assert(entries_view(out@) =~= entries_view(entries@));
                }
                JsonValue::Object(out)
            },
        }
    }
}

} // verus!
