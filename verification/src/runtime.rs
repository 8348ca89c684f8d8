//! Application start-up rules: which handler routing a route attribute
//! selects, which registered routes take effect, and where the server binds.

use vstd::prelude::*;
use vstd::string::*;
use crate::text::{decimal, u64_to_decimal};
use crate::discovery::same_text;

verus! {

/// The HTTP method a route is served for.
#[derive(Debug, Clone, Copy, PartialEq, Eq, Structural)]
pub enum RouteKind {
    Get,
    Post,
    Put,
    Delete,
    Patch,
}

/// The routing a method name selects: the five upper-case names map to
/// their method; any other name is served as `GET`.
pub open spec fn kind_of(method: Seq<char>) -> RouteKind {
    if method == "POST"@ {
        RouteKind::Post
    } else if method == "PUT"@ {
        RouteKind::Put
    } else if method == "DELETE"@ {
        RouteKind::Delete
    } else if method == "PATCH"@ {
        RouteKind::Patch
    } else {
        RouteKind::Get
    }
}

/// The routing for a route attribute's method name.
pub fn route_kind(method: &str) -> (r: RouteKind)
    ensures
        r == kind_of(method@),
{
    if same_text(method, "POST") {
        RouteKind::Post
    } else if same_text(method, "PUT") {
        RouteKind::Put
    } else if same_text(method, "DELETE") {
        RouteKind::Delete
    } else if same_text(method, "PATCH") {
        RouteKind::Patch
    } else {
        RouteKind::Get
    }
}

/// The address the server binds for `port`: all interfaces.
pub fn bind_address(port: u16) -> (r: String)
    ensures
        r@ == "0.0.0.0:"@ + decimal(port as nat),
{
    String::from_str("0.0.0.0:").concat(u64_to_decimal(port as u64).as_str())
}

/// The (method, path) key of each route.
pub open spec fn route_keys(routes: Seq<(String, String)>) -> Seq<(Seq<char>, Seq<char>)> {
    routes.map_values(|r: (String, String)| (r.0@, r.1@))
}

/// Route `i` takes effect: no later route has the same method and path
/// (a later registration overrides an earlier one).
pub open spec fn takes_effect(keys: Seq<(Seq<char>, Seq<char>)>, i: int) -> bool {
    0 <= i < keys.len() && forall|j: int| i < j < keys.len() ==> #[trigger] keys[j] != keys[i]
}

fn same_route(a: &(String, String), b: &(String, String)) -> (r: bool)
    ensures
        r == ((a.0@, a.1@) == (b.0@, b.1@)),
{
    same_text(a.0.as_str(), b.0.as_str()) && same_text(a.1.as_str(), b.1.as_str())
}

/// The indices of the routes (method and path, in registration order) that
/// are registered: for each method and path, the last route that has them.
/// The indices come in increasing order.
pub fn effective_routes(routes: &Vec<(String, String)>) -> (r: Vec<usize>)
    ensures
        forall|k: int| 0 <= k < r@.len() ==> takes_effect(route_keys(routes@), #[trigger] r@[k] as int),
        forall|i: int| takes_effect(route_keys(routes@), i) ==> r@.contains(i as usize),
        forall|a: int, b: int| 0 <= a < b < r@.len() ==> r@[a] < r@[b],
{
    let ghost keys = route_keys(routes@);
    let n = routes.len();
    let mut out: Vec<usize> = Vec::new();
    let mut i: usize = 0;
    while i < n
        invariant
            n == routes@.len(),
            keys == route_keys(routes@),
            i <= n,
            forall|k: int| 0 <= k < out@.len() ==> takes_effect(keys, #[trigger] out@[k] as int) && out@[k] < i,
            forall|m: int| 0 <= m < i && takes_effect(keys, m) ==> out@.contains(m as usize),
            forall|a: int, b: int| 0 <= a < b < out@.len() ==> out@[a] < out@[b],
        decreases n - i,
    {
        let mut j: usize = i + 1;
        let mut overridden = false;
        while j < n
            invariant
                n == routes@.len(),
                keys == route_keys(routes@),
                i < n,
                i < j <= n,
                overridden <==> exists|m: int| i < m < j && #[trigger] keys[m] == keys[i as int],
            decreases n - j,
        {
            if same_route(&routes[j], &routes[i]) {
                assert(keys[j as int] == keys[i as int]);
                overridden = true;
            }
            j = j + 1;
        }
        let ghost before = out@;
        if !overridden {
            assert(takes_effect(keys, i as int)) by {
                assert forall|m: int| i < m < keys.len() implies #[trigger] keys[m] != keys[i as int] by {
                    if keys[m] == keys[i as int] {
                        assert(exists|q: int| i < q < j && #[trigger] keys[q] == keys[i as int]);
                    }
                }
            }
            out.push(i);
            assert(out@.last() == i);
        } else {
            assert(!takes_effect(keys, i as int)) by {
                let m = choose|m: int| i < m < j && #[trigger] keys[m] == keys[i as int];
                assert(keys[m] == keys[i as int]);
            }
        }
        assert forall|m: int| 0 <= m < i + 1 && takes_effect(keys, m) implies out@.contains(m as usize) by {
            if m < i {
                assert(before.contains(m as usize));
                let k = choose|k: int| 0 <= k < before.len() && before[k] == m as usize;
                assert(out@[k] == m as usize);
            } else {
                assert(out@[out@.len() - 1] == i);
            }
        }
        i = i + 1;
    }
    out
}


/// No two registered routes share a method and path.
pub proof fn law_effective_routes_are_unique(keys: Seq<(Seq<char>, Seq<char>)>, i: int, j: int)
    requires
        takes_effect(keys, i),
        takes_effect(keys, j),
        i != j,
    ensures
        keys[i] != keys[j],
{
    if i < j {
        assert(keys[j] != keys[i]);
    } else {
        assert(keys[i] != keys[j]);
    }
}

/// Every route's method and path is served: some route at or after it with
/// the same method and path takes effect.
pub proof fn law_every_route_key_is_served(keys: Seq<(Seq<char>, Seq<char>)>, i: int)
    requires
        0 <= i < keys.len(),
    ensures
        exists|j: int| i <= j < keys.len() && keys[j] == keys[i] && #[trigger] takes_effect(keys, j),
    decreases keys.len() - i,
{
    if takes_effect(keys, i) {
        assert(i <= i < keys.len() && keys[i] == keys[i] && takes_effect(keys, i));
    } else {
        let m = choose|m: int| i < m < keys.len() && #[trigger] keys[m] == keys[i];
        law_every_route_key_is_served(keys, m);
        let j = choose|j: int| m <= j < keys.len() && keys[j] == keys[m] && #[trigger] takes_effect(keys, j);
        assert(i <= j < keys.len() && keys[j] == keys[i] && takes_effect(keys, j));
    }
}

} // verus!
