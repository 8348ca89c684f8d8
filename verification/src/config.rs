//! Configuration: resilience settings and the layered JSON configuration
//! model (defaults, then each source in turn, then secret resolution).

use vstd::prelude::*;
use vstd::string::*;
use crate::error::{NovaError, NovaErrorView};
use crate::json::{JsonValue, JsonView, entries_view, lemma_object_view, lemma_array_view, merge_value, spec_merge, set_value_at_path, spec_set_path, path_view};
use crate::json_text::{json_parse, parse_json_text, parse_view};
use crate::text::{starts_with, uppercase, lowercase, to_uppercase, to_lowercase, strip_leading, trim_start_matches, split_by, split_str, views_of};

verus! {

/// Where a resilience primitive keeps its state.
#[derive(Debug, Clone)]
pub enum ResilienceBackend {
    /// In-process state.
    Local,
    /// Shared state in a Redis store.
    Redis { url: String, prefix: Option<String> },
}

/// Circuit breaker settings.
#[derive(Debug, Clone)]
pub struct CircuitBreakerConfig {
    pub backend: ResilienceBackend,
    pub threshold: u32,
    /// TTL in seconds for the open state.
    pub open_ttl_seconds: usize,
}

impl Default for CircuitBreakerConfig {
    /// The default settings: local backend, threshold 5, open for 60 seconds.
    fn default() -> (r: Self)
        ensures
            r.backend is Local,
            r.threshold == 5,
            r.open_ttl_seconds == 60,
    {
        CircuitBreakerConfig { backend: ResilienceBackend::Local, threshold: 5, open_ttl_seconds: 60 }
    }
}

/// Rate limiter settings.
#[derive(Debug, Clone)]
pub struct RateLimiterConfig {
    pub backend: ResilienceBackend,
    pub capacity: i64,
    pub window_seconds: usize,
    pub prefix: Option<String>,
}

impl Default for RateLimiterConfig {
    /// The default settings: local backend, 100 requests per 60 seconds, no prefix.
    fn default() -> (r: Self)
        ensures
            r.backend is Local,
            r.capacity == 100,
            r.window_seconds == 60,
            r.prefix is None,
    {
        RateLimiterConfig {
            backend: ResilienceBackend::Local,
            capacity: 100,
            window_seconds: 60,
            prefix: None,
        }
    }
}

/// Resilience settings of an application.
#[derive(Debug, Clone)]
pub struct ResilienceConfig {
    pub circuit_breaker: Option<CircuitBreakerConfig>,
    pub rate_limiter: Option<RateLimiterConfig>,
}

impl Default for ResilienceConfig {
    /// No circuit breaker and no rate limiter.
    fn default() -> (r: Self)
        ensures
            r.circuit_breaker is None,
            r.rate_limiter is None,
    {
        ResilienceConfig { circuit_breaker: None, rate_limiter: None }
    }
}

// ---------------------------------------------------------------------------
// Layered configuration
// ---------------------------------------------------------------------------

/// A built configuration.
#[derive(Debug, Clone)]
pub struct NovaConfig<T> {
    pub inner: T,
}

impl<T> NovaConfig<T> {
    /// The configuration value.
    pub fn into_inner(self) -> (r: T)
        ensures
            r == self.inner,
    {
        self.inner
    }
}

/// Abstract answer of a secret source.
pub open spec fn secret_answer(r: Result<Option<String>, NovaError>) -> Result<Option<Seq<char>>, NovaErrorView> {
    match r {
        Ok(Some(s)) => Ok(Some(s@)),
        Ok(None) => Ok(None),
        Err(e) => Err(e@),
    }
}

/// A source of secret values, looked up by key.
pub trait NovaSecretSource {
    /// The answer of this source for `key`: a value, no value, or an error.
    spec fn spec_resolve(&self, key: Seq<char>) -> Result<Option<Seq<char>>, NovaErrorView>;

    /// Look up the secret `key`.
    fn resolve(&self, key: &str) -> (r: Result<Option<String>, NovaError>)
        ensures
            secret_answer(r) == self.spec_resolve(key@),
    ;
}

/// The value bound to `key` by the first pair that has it.
pub open spec fn lookup(entries: Seq<(String, String)>, key: Seq<char>) -> Option<Seq<char>>
    decreases entries.len(),
{
    if entries.len() == 0 {
        None
    } else if entries[0].0@ == key {
        Some(entries[0].1@)
    } else {
        lookup(entries.drop_first(), key)
    }
}

/// A secret source backed by a fixed list of key/value pairs.
pub struct MapSecretSource {
    entries: Vec<(String, String)>,
}

impl MapSecretSource {
    /// The pairs the source holds, in order.
    pub closed spec fn spec_entries(&self) -> Seq<(String, String)> {
        self.entries@
    }

    /// A source answering from `entries` (the first pair with a key wins).
    pub fn new(entries: Vec<(String, String)>) -> (r: Self)
        ensures
            r.spec_entries() == entries@,
    {
        MapSecretSource { entries }
    }
}

impl NovaSecretSource for MapSecretSource {
    open spec fn spec_resolve(&self, key: Seq<char>) -> Result<Option<Seq<char>>, NovaErrorView> {
        Ok(lookup(self.spec_entries(), key))
    }

    fn resolve(&self, key: &str) -> (r: Result<Option<String>, NovaError>) {
        let mut i: usize = 0;
        assert(self.entries@.skip(0) =~= self.entries@);
        while i < self.entries.len()
            invariant
                i <= self.entries@.len(),
                lookup(self.entries@, key@) == lookup(self.entries@.skip(i as int), key@),
            decreases self.entries.len() - i,
        {
            assert(self.entries@.skip(i as int).drop_first() =~= self.entries@.skip(i + 1));
            if self.entries[i].0.as_str().unicode_len() == key.unicode_len() && starts_with(
                self.entries[i].0.as_str(),
                key,
            ) {
                assert(self.entries@[i as int].0@ =~= key@);
                return Ok(Some(self.entries[i].1.clone()));
            }
            assert(self.entries@[i as int].0@ != key@);
            i = i + 1;
        }
        Ok(None)
    }
}

/// Marker that introduces a secret reference in a configuration string.
pub open spec fn secret_marker() -> Seq<char> {
    "secret://"@
}

/// Error for a secret reference that no source resolves.
pub open spec fn unresolved_secret(key: Seq<char>) -> NovaErrorView {
    NovaErrorView::NotFound("secret '"@ + key + "' was not resolved"@)
}

/// The value of secret `key`: the first source, in order, that answers with
/// a value or an error decides; when none does the secret is unresolved.
pub open spec fn first_secret<S: NovaSecretSource>(sources: Seq<S>, key: Seq<char>, i: nat) -> Result<
    JsonView,
    NovaErrorView,
>
    decreases sources.len() - i,
{
    if i >= sources.len() {
        Err(unresolved_secret(key))
    } else {
        match sources[i as int].spec_resolve(key) {
            Err(e) => Err(e),
            Ok(Some(v)) => Ok(JsonView::Str(v)),
            Ok(None) => first_secret(sources, key, i + 1),
        }
    }
}

/// `v` with every string of the form `secret://{key}` replaced by the
/// secret's value, depth first and left to right; the first failure is the
/// result.
pub open spec fn spec_resolve_secrets<S: NovaSecretSource>(v: JsonView, sources: Seq<S>) -> Result<
    JsonView,
    NovaErrorView,
>
    decreases v, 0nat,
{
    match v {
        JsonView::Str(t) => if secret_marker().is_prefix_of(t) {
            first_secret(sources, t.skip(secret_marker().len() as int), 0)
        } else {
            Ok(v)
        },
        JsonView::Array(items) => match resolve_items_from(items, sources, 0) {
            Ok(r) => Ok(JsonView::Array(r)),
            Err(e) => Err(e),
        },
        JsonView::Object(entries) => match resolve_entries_from(entries, sources, 0) {
            Ok(r) => Ok(JsonView::Object(r)),
            Err(e) => Err(e),
        },
        _ => Ok(v),
    }
}

/// Secrets resolved in `items[i..]`.
pub open spec fn resolve_items_from<S: NovaSecretSource>(items: Seq<JsonView>, sources: Seq<S>, i: nat) -> Result<
    Seq<JsonView>,
    NovaErrorView,
>
    decreases items, items.len() - i,
{
    if i >= items.len() {
        Ok(Seq::empty())
    } else {
        match spec_resolve_secrets(items[i as int], sources) {
            Err(e) => Err(e),
            Ok(x) => match resolve_items_from(items, sources, i + 1) {
                Err(e) => Err(e),
                Ok(rest) => Ok(seq![x] + rest),
            },
        }
    }
}

/// Secrets resolved in the values of `entries[i..]`.
pub open spec fn resolve_entries_from<S: NovaSecretSource>(
    entries: Seq<(Seq<char>, JsonView)>,
    sources: Seq<S>,
    i: nat,
) -> Result<Seq<(Seq<char>, JsonView)>, NovaErrorView>
    decreases entries, entries.len() - i,
{
    if i >= entries.len() {
        Ok(Seq::empty())
    } else {
        match spec_resolve_secrets(entries[i as int].1, sources) {
            Err(e) => Err(e),
            Ok(x) => match resolve_entries_from(entries, sources, i + 1) {
                Err(e) => Err(e),
                Ok(rest) => Ok(seq![(entries[i as int].0, x)] + rest),
            },
        }
    }
}

/// Abstract form of a resolution result.
pub open spec fn json_result(r: Result<JsonValue, NovaError>) -> Result<JsonView, NovaErrorView> {
    match r {
        Ok(v) => Ok(v@),
        Err(e) => Err(e@),
    }
}

fn resolve_key<S: NovaSecretSource>(sources: &[S], key: &str) -> (r: Result<JsonValue, NovaError>)
    ensures
        json_result(r) == first_secret(sources@, key@, 0),
{
    let mut i: usize = 0;
    while i < sources.len()
        invariant
            i <= sources@.len(),
            first_secret(sources@, key@, 0) == first_secret(sources@, key@, i as nat),
        decreases sources.len() - i,
    {
        match sources[i].resolve(key) {
            Err(e) => {
                return Err(e);
            },
            Ok(Some(v)) => {
                return Ok(JsonValue::String(v));
            },
            Ok(None) => {},
        }
        i = i + 1;
    }
    let msg = String::from_str("secret '").concat(key).concat("' was not resolved");
    Err(NovaError::NotFound(msg))
}

proof fn lemma_first_secret_skips<S: NovaSecretSource>(sources: Seq<S>, key: Seq<char>, i: nat, j: nat)
    requires
        i <= j <= sources.len(),
        forall|k: int| i <= k < j ==> #[trigger] sources[k].spec_resolve(key) == Ok::<Option<Seq<char>>, NovaErrorView>(None),
    ensures
        first_secret(sources, key, i) == first_secret(sources, key, j),
    decreases j - i,
{
    if i < j {
        lemma_first_secret_skips(sources, key, i + 1, j);
        assert(sources[i as int].spec_resolve(key) == Ok::<Option<Seq<char>>, NovaErrorView>(None));
    }
}

/// A secret reference `secret://<key>` takes the value of the first source,
/// in order, that has one for the key (sources before it having none), and
/// is reported unresolved when no source has one; text that does not start
/// with `secret://` is kept as it is.
pub proof fn law_secret_first_source_wins<S: NovaSecretSource>(
    sources: Seq<S>,
    key: Seq<char>,
    j: int,
    text: Seq<char>,
)
    requires
        0 <= j <= sources.len(),
        forall|k: int| 0 <= k < j ==> #[trigger] sources[k].spec_resolve(key) == Ok::<Option<Seq<char>>, NovaErrorView>(None),
    ensures
        j < sources.len() ==> (sources[j].spec_resolve(key) matches Ok(Some(x)) ==> spec_resolve_secrets(
            JsonView::Str("secret://"@ + key),
            sources,
        ) == Ok::<JsonView, NovaErrorView>(JsonView::Str(x))),
        j == sources.len() ==> spec_resolve_secrets(JsonView::Str("secret://"@ + key), sources) == Err::<
            JsonView,
            NovaErrorView,
        >(NovaErrorView::NotFound("secret '"@ + key + "' was not resolved"@)),
        !("secret://"@.is_prefix_of(text)) ==> spec_resolve_secrets(JsonView::Str(text), sources) == Ok::<
            JsonView,
            NovaErrorView,
        >(JsonView::Str(text)),
{
    let t = "secret://"@ + key;
    assert(secret_marker().is_prefix_of(t)) by {
        assert(t.subrange(0, secret_marker().len() as int) =~= secret_marker());
    }
    assert(t.skip(secret_marker().len() as int) =~= key);
    lemma_first_secret_skips(sources, key, 0, j as nat);
}

/// Replace every string of the form `secret://{key}` in `value` by the
/// secret's value from the first source that knows it. A source error, or a
/// key that no source resolves (`NotFound`), ends the walk with that error.
pub fn resolve_secrets<S: NovaSecretSource>(value: JsonValue, sources: &[S]) -> (r: Result<JsonValue, NovaError>)
    ensures
        json_result(r) == spec_resolve_secrets(value@, sources@),
    decreases value,
{
    let ghost v = value@;
    match value {
        JsonValue::String(text) => {
            proof {
                reveal_strlit("secret://");
            }
            if starts_with(text.as_str(), "secret://") {
                let n = text.as_str().unicode_len();
                let key = text.as_str().substring_char(9, n);
                assert(key@ =~= text@.skip(9));
                resolve_key(sources, key)
            } else {
                Ok(JsonValue::String(text))
            }
        },
        JsonValue::Array(items) => {
            proof {
                lemma_array_view(items);
            }
            let ghost all = items@;
            let ghost iv = all.map_values(|x: JsonValue| x@);
            let mut rest = items;
            let mut out: Vec<JsonValue> = Vec::new();
            let n = rest.len();
            let mut i: usize = 0;
            while i < n
                invariant
                    n == all.len(),
                    i <= n,
                    rest@ == all.subrange(i as int, n as int),
                    iv == all.map_values(|x: JsonValue| x@),
                    v == JsonView::Array(iv),
                    v == value@,
                    out@.map_values(|x: JsonValue| x@).len() == i,
                    resolve_items_from(iv, sources@, 0) == match resolve_items_from(iv, sources@, i as nat) {
                        Ok(r) => Ok(out@.map_values(|x: JsonValue| x@) + r),
                        Err(e) => Err(e),
                    },
                    decreases_to!(value => all),
                decreases n - i,
            {
                let item = rest.remove(0);
                assert(all[i as int] == item);
                assert(decreases_to!(value => item)) by {
                    assert(decreases_to!(all => all[i as int]));
                };
                let ghost before = out@.map_values(|x: JsonValue| x@);
                match resolve_secrets(item, sources) {
                    Err(e) => {
                        assert(iv[i as int] == item@);
                        assert(resolve_items_from(iv, sources@, i as nat) == Err::<Seq<JsonView>, NovaErrorView>(e@));
                        assert(resolve_items_from(iv, sources@, 0) == Err::<Seq<JsonView>, NovaErrorView>(e@));
                        assert(v == JsonView::Array(iv));
                        assert(spec_resolve_secrets(v, sources@) == Err::<JsonView, NovaErrorView>(e@));
                        return Err(e);
                    },
                    Ok(x) => {
                        out.push(x);
                        assert(out@.map_values(|y: JsonValue| y@) =~= before.push(x@));
                        assert(before.push(x@) + match resolve_items_from(iv, sources@, (i + 1) as nat) {
                            Ok(r) => r,
                            Err(e) => Seq::empty(),
                        } =~= before + (seq![x@] + match resolve_items_from(iv, sources@, (i + 1) as nat) {
                            Ok(r) => r,
                            Err(e) => Seq::empty(),
                        }));
                    },
                }
                i = i + 1;
                assert(rest@ =~= all.subrange(i as int, n as int));
            }
            assert(out@.map_values(|x: JsonValue| x@) + Seq::<JsonView>::empty() =~= out@.map_values(|x: JsonValue| x@));
            proof {
                lemma_array_view(out);
            }
            Ok(JsonValue::Array(out))
        },
        JsonValue::Object(entries) => {
            proof {
                lemma_object_view(entries);
            }
            let ghost all = entries@;
            let ghost ev = entries_view(all);
            let mut rest = entries;
            let mut out: Vec<(String, JsonValue)> = Vec::new();
            let n = rest.len();
            let mut i: usize = 0;
            while i < n
                invariant
                    n == all.len(),
                    i <= n,
                    rest@ == all.subrange(i as int, n as int),
                    ev == entries_view(all),
                    v == JsonView::Object(ev),
                    v == value@,
                    entries_view(out@).len() == i,
                    resolve_entries_from(ev, sources@, 0) == match resolve_entries_from(ev, sources@, i as nat) {
                        Ok(r) => Ok(entries_view(out@) + r),
                        Err(e) => Err(e),
                    },
                    decreases_to!(value => all),
                decreases n - i,
            {
                let (k, item) = rest.remove(0);
                assert(all[i as int] == (k, item));
                assert(decreases_to!(value => item)) by {
                    assert(decreases_to!(all => all[i as int]));
                    assert(decreases_to!(all[i as int] => all[i as int].1));
                };
                let ghost before = entries_view(out@);
                match resolve_secrets(item, sources) {
                    Err(e) => {
                        assert(ev[i as int].1 == item@);
                        assert(resolve_entries_from(ev, sources@, i as nat) == Err::<Seq<(Seq<char>, JsonView)>, NovaErrorView>(e@));
                        assert(resolve_entries_from(ev, sources@, 0) == Err::<Seq<(Seq<char>, JsonView)>, NovaErrorView>(e@));
                        assert(v == JsonView::Object(ev));
                        assert(spec_resolve_secrets(v, sources@) == Err::<JsonView, NovaErrorView>(e@));
                        return Err(e);
                    },
                    Ok(x) => {
                        let ghost kx = (k@, x@);
                        out.push((k, x));
                        assert(entries_view(out@) =~= before.push(kx));
                        assert(before.push(kx) + match resolve_entries_from(ev, sources@, (i + 1) as nat) {
                            Ok(r) => r,
                            Err(e) => Seq::empty(),
                        } =~= before + (seq![kx] + match resolve_entries_from(ev, sources@, (i + 1) as nat) {
                            Ok(r) => r,
                            Err(e) => Seq::empty(),
                        }));
                    },
                }
                i = i + 1;
                assert(rest@ =~= all.subrange(i as int, n as int));
            }
            assert(entries_view(out@) + Seq::<(Seq<char>, JsonView)>::empty() =~= entries_view(out@));
            proof {
                lemma_object_view(out);
            }
            Ok(JsonValue::Object(out))
        },
        other => Ok(other),
    }
}

/// The non-empty segments of `segs`, in order.
pub open spec fn nonempty_segments(segs: Seq<Seq<char>>) -> Seq<Seq<char>>
    decreases segs.len(),
{
    if segs.len() == 0 {
        Seq::empty()
    } else {
        let rest = nonempty_segments(segs.drop_first());
        if segs[0].len() > 0 { seq![segs[0]] + rest } else { rest }
    }
}

/// The segments that an upper-cased variable name `k` gives for the
/// upper-cased prefix `p`: `k` must start with `p`; the rest, without leading
/// copies of `p` and then of `_`, is split on `__` into its non-empty
/// segments. `None` when the variable does not belong to the source.
pub open spec fn env_segments_upper(p: Seq<char>, k: Seq<char>) -> Option<Seq<Seq<char>>> {
    if !p.is_prefix_of(k) {
        None
    } else {
        let t = strip_leading(strip_leading(k, p), "_"@);
        if t.len() == 0 {
            None
        } else {
            let segs = nonempty_segments(split_by(t, "__"@));
            if segs.len() == 0 { None } else { Some(segs) }
        }
    }
}

/// Where environment variable `key` goes in the configuration of an
/// environment source with `prefix`: both are compared upper-cased, and the
/// segments that the upper-cased name gives are lower-cased. `None` when
/// the variable does not belong to the source.
pub open spec fn env_path(prefix: Seq<char>, key: Seq<char>) -> Option<Seq<Seq<char>>> {
    env_path_upper(uppercase(prefix), key)
}

/// `env_path` once the prefix is upper-cased.
pub open spec fn env_path_upper(p: Seq<char>, key: Seq<char>) -> Option<Seq<Seq<char>>> {
    match env_segments_upper(p, uppercase(key)) {
        Some(segs) => Some(segs.map_values(|x: Seq<char>| lowercase(x))),
        None => None,
    }
}

/// The configuration that the variables `vars` (name and parsed value, in
/// order) give, starting from `root`; later variables win.
pub open spec fn env_tree(prefix: Seq<char>, vars: Seq<(Seq<char>, JsonView)>, root: JsonView) -> JsonView
    decreases vars.len(),
{
    if vars.len() == 0 {
        root
    } else {
        let next = match env_path(prefix, vars[0].0) {
            Some(path) => spec_set_path(root, path, vars[0].1),
            None => root,
        };
        env_tree(prefix, vars.drop_first(), next)
    }
}

/// The (name, value) pairs of environment variables given as text, each
/// value read with `parse_env_value`.
pub open spec fn raw_vars_view(vars: Seq<(String, String)>) -> Seq<(Seq<char>, JsonView)> {
    vars.map_values(|p: (String, String)| (p.0@, env_value(p.1@, json_parse(p.1@))))
}

/// The abstract form of the (name, value) pairs.
pub open spec fn vars_view(vars: Seq<(String, JsonValue)>) -> Seq<(Seq<char>, JsonView)> {
    vars.map_values(|p: (String, JsonValue)| (p.0@, p.1@))
}

/// A configuration source reading environment variables that start with a prefix.
pub struct EnvConfigSource {
    prefix: String,
}

/// The segments of the upper-cased variable name `key_upper` for the
/// upper-cased prefix `prefix_upper`, as `env_segments_upper` says.
pub fn env_segments(prefix_upper: &str, key_upper: &str) -> (r: Option<Vec<String>>)
    ensures
        (match r {
            Some(p) => Some(views_of(p@)),
            None => None,
        }) == env_segments_upper(prefix_upper@, key_upper@),
{
    if !starts_with(key_upper, prefix_upper) {
        return None;
    }
    let after_prefix = trim_start_matches(key_upper, prefix_upper);
    let trimmed = trim_start_matches(after_prefix.as_str(), "_");
    if trimmed.as_str().unicode_len() == 0 {
        return None;
    }
    proof {
        reveal_strlit("__");
    }
    let mut segs = split_str(trimmed.as_str(), "__");
    let mut out: Vec<String> = Vec::new();
    let ghost sv = views_of(segs@);
    let n = segs.len();
    let mut i: usize = 0;
    assert(sv.skip(0) =~= sv);
    while i < n
        invariant
            n == sv.len(),
            i <= n,
            segs@.len() == n - i,
            views_of(segs@) == sv.skip(i as int),
            views_of(out@) + nonempty_segments(sv.skip(i as int)) == nonempty_segments(sv),
        decreases n - i,
    {
        assert(sv.skip(i as int).drop_first() =~= sv.skip(i + 1));
        let ghost before = views_of(out@);
        let seg = segs.remove(0);
        assert(views_of(segs@) =~= sv.skip(i + 1));
        assert(seg@ == sv[i as int]);
        if seg.as_str().unicode_len() > 0 {
            out.push(seg);
            assert(views_of(out@) =~= before.push(seg@));
            assert(before.push(seg@) + nonempty_segments(sv.skip(i + 1)) =~= before + (seq![seg@] + nonempty_segments(sv.skip(i + 1))));
        }
        i = i + 1;
    }
    assert(sv.skip(i as int) =~= Seq::<Seq<char>>::empty());
    assert(views_of(out@) + Seq::<Seq<char>>::empty() =~= views_of(out@));
    if out.len() == 0 {
        None
    } else {
        Some(out)
    }
}

fn key_path(prefix_upper: &str, key: &str) -> (r: Option<Vec<String>>)
    ensures
        (match r {
            Some(p) => Some(views_of(p@)),
            None => None,
        }) == env_path_upper(prefix_upper@, key@),
{
    let normalized = to_uppercase(key);
    match env_segments(prefix_upper, normalized.as_str()) {
        None => None,
        Some(segs) => {
            let ghost sv = views_of(segs@);
            let mut path: Vec<String> = Vec::new();
            let mut i: usize = 0;
            while i < segs.len()
                invariant
                    i <= segs@.len(),
                    sv == views_of(segs@),
                    views_of(path@) == sv.take(i as int).map_values(|x: Seq<char>| lowercase(x)),
                decreases segs.len() - i,
            {
                let ghost before = views_of(path@);
                let lower = to_lowercase(segs[i].as_str());
                assert(lower@ == lowercase(sv[i as int]));
                path.push(lower);
                assert(views_of(path@) =~= before.push(lower@));
                assert(sv.take(i + 1).map_values(|x: Seq<char>| lowercase(x)) =~= sv.take(i as int).map_values(
                    |x: Seq<char>| lowercase(x),
                ).push(lowercase(sv[i as int])));
                i = i + 1;
            }
            assert(sv.take(i as int) =~= sv);
            Some(path)
        },
    }
}

impl EnvConfigSource {
    /// The prefix the source reads.
    pub closed spec fn spec_prefix(&self) -> Seq<char> {
        self.prefix@
    }

    /// A source for the variables that start with `prefix`.
    pub fn new(prefix: String) -> (r: Self)
        ensures
            r.spec_prefix() == prefix@,
    {
        EnvConfigSource { prefix }
    }

    /// The configuration that the environment variables `vars` (name and
    /// text) give: each text is read with `parse_env_value`, then the
    /// variables are stored as `load_vars` says.
    pub fn load_env(&self, vars: Vec<(String, String)>) -> (r: JsonValue)
        ensures
            r@ == env_tree(self.spec_prefix(), raw_vars_view(vars@), JsonView::Object(Seq::empty())),
    {
        let ghost all = vars@;
        let mut rest = vars;
        let n = rest.len();
        let mut parsed: Vec<(String, JsonValue)> = Vec::new();
        let mut i: usize = 0;
        while i < n
            invariant
                n == all.len(),
                i <= n,
                rest@ == all.subrange(i as int, n as int),
                vars_view(parsed@) == raw_vars_view(all).take(i as int),
            decreases n - i,
        {
            let (key, text) = rest.remove(0);
            assert(all[i as int] == (key, text));
            let value = parse_env_value(text.as_str());
            let ghost before = parsed@;
            parsed.push((key, value));
            assert(vars_view(parsed@) =~= vars_view(before).push((key@, value@)));
            assert(raw_vars_view(all).take(i + 1) =~= raw_vars_view(all).take(i as int).push((key@, value@)));
            i = i + 1;
            assert(rest@ =~= all.subrange(i as int, n as int));
        }
        assert(raw_vars_view(all).take(n as int) =~= raw_vars_view(all));
        self.load_vars(parsed)
    }

    /// The configuration that the environment `vars` (each variable's name
    /// and its value parsed as JSON, or as a string when it is not JSON)
    /// give: each variable of this source is stored under its path, later
    /// variables winning.
    pub fn load_vars(&self, vars: Vec<(String, JsonValue)>) -> (r: JsonValue)
        ensures
            r@ == env_tree(self.spec_prefix(), vars_view(vars@), JsonView::Object(Seq::empty())),
    {
        let prefix = to_uppercase(self.prefix.as_str());
        let empty: Vec<(String, JsonValue)> = Vec::new();
        proof {
            lemma_object_view(empty);
            assert(entries_view(empty@) =~= Seq::<(Seq<char>, JsonView)>::empty());
        }
        let mut root = JsonValue::Object(empty);
        let ghost all = vars@;
        let ghost vv = vars_view(all);
        let mut rest = vars;
        let n = rest.len();
        let mut i: usize = 0;
        assert(vv.skip(0) =~= vv);
        while i < n
            invariant
                n == all.len(),
                i <= n,
                rest@ == all.subrange(i as int, n as int),
                vv == vars_view(all),
                prefix@ == uppercase(self.prefix@),
                env_tree(self.prefix@, vv, JsonView::Object(Seq::empty())) == env_tree(
                    self.prefix@,
                    vv.skip(i as int),
                    root@,
                ),
            decreases n - i,
        {
            let (key, value) = rest.remove(0);
            assert(all[i as int] == (key, value));
            assert(vv.skip(i as int).drop_first() =~= vv.skip(i + 1));
            assert(vv.skip(i as int)[0] == (key@, value@));
            match key_path(prefix.as_str(), key.as_str()) {
                Some(path) => {
                    set_value_at_path(&mut root, path.as_slice(), value);
                    assert(path_view(path@) == views_of(path@));
                },
                None => {},
            }
            i = i + 1;
            assert(rest@ =~= all.subrange(i as int, n as int));
        }
        assert(vv.skip(n as int) =~= Seq::<(Seq<char>, JsonView)>::empty());
        root
    }
}

/// A configuration source reading a JSON file.
pub struct JsonFileConfigSource {
    path: String,
}

impl JsonFileConfigSource {
    /// The path of the file.
    pub closed spec fn spec_path(&self) -> Seq<char> {
        self.path@
    }

    /// A source reading the file at `path`.
    pub fn new(path: String) -> (r: Self)
        ensures
            r.spec_path() == path@,
    {
        JsonFileConfigSource { path }
    }

    /// The file's path.
    pub fn path(&self) -> (r: &str)
        ensures
            r@ == self.spec_path(),
    {
        self.path.as_str()
    }

    /// The configuration tree that the file's `contents` hold: the JSON
    /// they parse to, or a bad request `Invalid JSON: <parser's complaint>`.
    pub fn load_contents(&self, contents: &str) -> (r: Result<JsonValue, NovaError>)
        ensures
            json_result(r) == contents_outcome(json_parse(contents@)),
    {
        let parsed = parse_json_text(contents);
        JsonFileConfigSource::from_parsed(parsed)
    }

    /// What a parse of the file's contents gives the source: the value
    /// read, or the parser's complaint as a bad request.
    pub fn from_parsed(parsed: Result<JsonValue, String>) -> (r: Result<JsonValue, NovaError>)
        ensures
            json_result(r) == contents_outcome(parse_view(parsed)),
    {
        match parsed {
            Ok(v) => Ok(v),
            Err(e) => Err(NovaError::invalid_json(e.as_str())),
        }
    }
}

/// What a configuration file gives for a parse outcome.
pub open spec fn contents_outcome(parsed: Result<JsonView, Seq<char>>) -> Result<JsonView, NovaErrorView> {
    match parsed {
        Ok(v) => Ok(v),
        Err(m) => Err(NovaErrorView::BadRequest("Invalid JSON: "@ + m)),
    }
}

/// The value an environment variable's text stands for: what it reads as
/// JSON, else the text itself as a string.
pub open spec fn env_value(raw: Seq<char>, parsed: Result<JsonView, Seq<char>>) -> JsonView {
    match parsed {
        Ok(v) => v,
        Err(_) => JsonView::Str(raw),
    }
}

/// The value of an environment variable with text `raw`: its JSON reading,
/// or the text itself when it is not JSON.
pub fn parse_env_value(raw: &str) -> (r: JsonValue)
    ensures
        r@ == env_value(raw@, json_parse(raw@)),
{
    let parsed = parse_json_text(raw);
    env_value_from(raw, parsed)
}

/// The value of an environment variable with text `raw`, given what
/// reading it as JSON gave.
pub fn env_value_from(raw: &str, parsed: Result<JsonValue, String>) -> (r: JsonValue)
    ensures
        r@ == env_value(raw@, parse_view(parsed)),
{
    match parsed {
        Ok(v) => v,
        Err(_) => JsonValue::String(String::from_str(raw)),
    }
}

/// The configuration tree of `layers` merged in order over `base`.
pub open spec fn layered(base: JsonView, layers: Seq<JsonView>) -> JsonView
    decreases layers.len(),
{
    if layers.len() == 0 {
        base
    } else {
        layered(spec_merge(base, layers[0]), layers.drop_first())
    }
}

/// Merge the configuration layers: start from the defaults (an empty object
/// when there are none) and merge each source's tree over it, in order, so
/// that later sources win key by key.
pub fn layer_values(defaults: Option<JsonValue>, layers: Vec<JsonValue>) -> (r: JsonValue)
    ensures
        r@ == layered(
            match defaults {
                Some(d) => d@,
                None => JsonView::Object(Seq::empty()),
            },
            layers@.map_values(|x: JsonValue| x@),
        ),
{
    let mut merged = match defaults {
        Some(d) => d,
        None => {
            let empty: Vec<(String, JsonValue)> = Vec::new();
            proof {
                lemma_object_view(empty);
                assert(entries_view(empty@) =~= Seq::<(Seq<char>, JsonView)>::empty());
            }
            JsonValue::Object(empty)
        },
    };
    let ghost base = merged@;
    let ghost all = layers@;
    let ghost lv = all.map_values(|x: JsonValue| x@);
    let mut rest = layers;
    let n = rest.len();
    let mut i: usize = 0;
    assert(lv.skip(0) =~= lv);
    while i < n
        invariant
            n == all.len(),
            i <= n,
            rest@ == all.subrange(i as int, n as int),
            lv == all.map_values(|x: JsonValue| x@),
            layered(base, lv) == layered(merged@, lv.skip(i as int)),
        decreases n - i,
    {
        let layer = rest.remove(0);
        assert(all[i as int] == layer);
        assert(lv.skip(i as int).drop_first() =~= lv.skip(i + 1));
        merge_value(&mut merged, layer);
        i = i + 1;
        assert(rest@ =~= all.subrange(i as int, n as int));
    }
    assert(lv.skip(n as int) =~= Seq::<JsonView>::empty());
    merged
}

/// The configuration tree a builder produces from its defaults (an empty
/// object when there are none), the trees its sources loaded (in the order
/// the sources were added) and its secret sources: the layers merged in
/// order, then every `secret://` reference resolved.
pub fn build_config_tree<S: NovaSecretSource>(
    defaults: Option<JsonValue>,
    layers: Vec<JsonValue>,
    secret_sources: &[S],
) -> (r: Result<JsonValue, NovaError>)
    ensures
        json_result(r) == spec_resolve_secrets(
            layered(
                match defaults {
                    Some(d) => d@,
                    None => JsonView::Object(Seq::empty()),
                },
                layers@.map_values(|x: JsonValue| x@),
            ),
            secret_sources@,
        ),
{
    let merged = layer_values(defaults, layers);
    resolve_secrets(merged, secret_sources)
}

} // verus!
